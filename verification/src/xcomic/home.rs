//! The xcomic home page's sections.
use vstd::prelude::*;
use crate::model::{Manga, MangaView, MangaWithChapter, ChapterView};
use crate::text::opt_str;
use crate::xcomic::helpers::{
    chapter_from_data, chapter_from_data_spec, chapter_live, manga_from_data,
    manga_from_data_spec, team_of, team_of_spec,
};
use crate::xcomic::models::{ChapterData, ComicData};
use crate::xcomic::graphql::{BrowseParams, PAGE_SIZE, fresh_params};
use crate::xcomic::settings::{Preferences, normalize_language, normalize_language_spec};

verus! {

/// The comics a home section shows: those with a cover, in order.
pub open spec fn home_links_spec(comics: Seq<ComicData>, base_url: Seq<char>, show_source: bool) -> Seq<
    MangaView,
>
    decreases comics.len(),
{
    if comics.len() == 0 {
        Seq::empty()
    } else {
        let rest = home_links_spec(comics.drop_last(), base_url, show_source);
        let m = manga_from_data_spec(comics.last(), base_url, show_source);
        if m.cover is Some {
            rest.push(m)
        } else {
            rest
        }
    }
}

/// The comics a home section shows: those with a cover, in order.
pub fn home_links(comics: Vec<ComicData>, base_url: &str, show_source_in_title: bool) -> (r: Vec<
    Manga,
>)
    ensures
        r@.map_values(|m: Manga| m@) == home_links_spec(comics@, base_url@, show_source_in_title),
{
    let ghost cv = comics@;
    let mut rest = comics;
    let mut out: Vec<Manga> = Vec::new();
    let n = rest.len();
    let mut i: usize = 0;
    assert(cv.skip(0) =~= cv);
    assert(out@.map_values(|m: Manga| m@) =~= home_links_spec(
        cv.take(0),
        base_url@,
        show_source_in_title,
    ));
    while i < n
        invariant
            n == cv.len(),
            i <= n,
            rest@ == cv.skip(i as int),
            out@.map_values(|m: Manga| m@) == home_links_spec(
                cv.take(i as int),
                base_url@,
                show_source_in_title,
            ),
        decreases n - i,
    {
        let comic = rest.remove(0);
        assert(comic == cv[i as int]);
        assert(rest@ =~= cv.skip(i + 1));
        assert(cv.take(i + 1).drop_last() =~= cv.take(i as int));
        let manga = manga_from_data(comic, base_url, show_source_in_title);
        if manga.cover.is_some() {
            let ghost before = out@;
            out.push(manga);
            assert(out@.map_values(|m: Manga| m@) =~= before.map_values(|m: Manga| m@).push(
                manga@,
            ));
        }
        i += 1;
    }
    assert(cv.take(n as int) =~= cv);
    out
}

/// The language code a comic states, in the app's form.
pub open spec fn comic_language(comic: ComicData) -> Option<Seq<char>> {
    match comic.translated_language {
        Some(l) => normalize_language_spec(l@),
        None => None,
    }
}

/// The entries of the home page's latest section: each comic with its newest
/// chapter, dated by publication, where the chapter is live and the comic has a
/// cover.
pub open spec fn latest_entries_spec(
    pairs: Seq<(ComicData, ChapterData)>,
    base_url: Seq<char>,
    show_source: bool,
) -> Seq<(MangaView, ChapterView)>
    decreases pairs.len(),
{
    if pairs.len() == 0 {
        Seq::empty()
    } else {
        let rest = latest_entries_spec(pairs.drop_last(), base_url, show_source);
        let (comic, chapter) = pairs.last();
        let m = manga_from_data_spec(comic, base_url, show_source);
        if chapter_live(chapter) && m.cover is Some {
            rest.push(
                (
                    m,
                    chapter_from_data_spec(
                        chapter,
                        base_url,
                        comic_language(comic),
                        team_of_spec(comic.sub_name.deep_view(), comic.name@),
                        true,
                    ),
                ),
            )
        } else {
            rest
        }
    }
}

/// The entries of the home page's latest section.
pub fn latest_entries(
    pairs: Vec<(ComicData, ChapterData)>,
    base_url: &str,
    show_source_in_title: bool,
) -> (r: Vec<MangaWithChapter>)
    ensures
        r@.map_values(|e: MangaWithChapter| (e.manga@, e.chapter@)) == latest_entries_spec(
            pairs@,
            base_url@,
            show_source_in_title,
        ),
{
    let ghost pv = pairs@;
    let mut rest = pairs;
    let mut out: Vec<MangaWithChapter> = Vec::new();
    let n = rest.len();
    let mut i: usize = 0;
    assert(pv.skip(0) =~= pv);
    assert(out@.map_values(|e: MangaWithChapter| (e.manga@, e.chapter@)) =~= latest_entries_spec(
        pv.take(0),
        base_url@,
        show_source_in_title,
    ));
    while i < n
        invariant
            n == pv.len(),
            i <= n,
            rest@ == pv.skip(i as int),
            out@.map_values(|e: MangaWithChapter| (e.manga@, e.chapter@)) == latest_entries_spec(
                pv.take(i as int),
                base_url@,
                show_source_in_title,
            ),
        decreases n - i,
    {
        let (comic, chapter) = rest.remove(0);
        assert((comic, chapter) == pv[i as int]);
        assert(rest@ =~= pv.skip(i + 1));
        assert(pv.take(i + 1).drop_last() =~= pv.take(i as int));
        let language = match &comic.translated_language {
            Some(l) => normalize_language(l.as_str()),
            None => None,
        };
        let team = team_of(&comic);
        let lang_str: Option<&str> = match &language {
            Some(l) => Some(l.as_str()),
            None => None,
        };
        let team_str: Option<&str> = match &team {
            Some(t) => Some(t.as_str()),
            None => None,
        };
        assert(opt_str(lang_str) == comic_language(comic));
        let entry = chapter_from_data(chapter, base_url, lang_str, team_str, true);
        let manga = manga_from_data(comic, base_url, show_source_in_title);
        if let Some(chapter) = entry {
            if manga.cover.is_some() {
                let ghost before = out@;
                let e = MangaWithChapter { manga, chapter };
                out.push(e);
                assert(out@.map_values(|e: MangaWithChapter| (e.manga@, e.chapter@)) =~= before.map_values(
                    |e: MangaWithChapter| (e.manga@, e.chapter@),
                ).push((e.manga@, e.chapter@)));
            }
        }
        i += 1;
    }
    assert(pv.take(n as int) =~= pv);
    out
}

/// The queries behind the home page's browse sections and feeds.
#[derive(Debug)]
pub struct HomeQueries {
    /// The big scroller: the ten best scored titles.
    pub top_rated: BrowseParams,
    /// The most followed titles.
    pub most_followed: BrowseParams,
    /// The titles with the most chapters.
    pub most_chapters: BrowseParams,
    /// What the feeds and the random list are judged by: neither takes a sort, so
    /// these carry the reader's content settings only.
    pub feed: BrowseParams,
}

/// The queries behind the home page's sections, for a reader with `preferences`.
pub fn home_queries(preferences: &Preferences) -> (r: HomeQueries)
    ensures
        r.top_rated@ == fresh_params("field_score"@, 1, 10, *preferences),
        r.most_followed@ == fresh_params("field_follow"@, 1, PAGE_SIZE, *preferences),
        r.most_chapters@ == fresh_params("field_chapter"@, 1, PAGE_SIZE, *preferences),
        r.feed@ == fresh_params("field_update"@, 1, PAGE_SIZE, *preferences),
{
    HomeQueries {
        top_rated: BrowseParams::new("field_score", 1, 10, preferences),
        most_followed: BrowseParams::new("field_follow", 1, PAGE_SIZE, preferences),
        most_chapters: BrowseParams::new("field_chapter", 1, PAGE_SIZE, preferences),
        feed: BrowseParams::new("field_update", 1, PAGE_SIZE, preferences),
    }
}

} // verus!
