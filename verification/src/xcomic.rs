//! The xcomic source: a GraphQL API keyed by comic editions.
pub mod graphql;
pub mod helpers;
pub mod home;
pub mod models;
pub mod settings;

use vstd::prelude::*;
use crate::model::{Chapter, ChapterView, DeepLinkResult, FilterValue, Manga, MangaPageResult};
use crate::text::{
    append_strings, chars_of, concat_str, opt_list, opt_str, push_string, str_eq, trim, trim_exec,
};
use crate::xcomic::graphql::{
    BrowseParams, BrowseParamsView, PAGE_SIZE, browse_titles, fetch_page_urls, fresh_params,
    graphql_error, listed_pairs, lists, parse_browse, sort_id, sort_ids,
};
use crate::xcomic::models::{
    BrowseResponse, ChapterData, ChapterPagesResponse, ComicData, GraphQlResponse,
};
use crate::xcomic::helpers::{
    Target, TargetView, absolute_url, absolute_url_spec, chapter_count_range,
    chapter_count_range_spec, chapter_from_data, chapter_from_data_spec, chapter_live, comic_key,
    manga_from_data, manga_from_data_spec, parse_link, parse_link_spec, parse_range,
    parse_range_spec,
};
use crate::xcomic::settings::Preferences;

verus! {

/// The mirror the source talks to unless the reader picked another.
pub const DEFAULT_BASE_URL: &'static str = "https://xcomic.me";

/// The mirror to use: the stored one, unless it is unset or empty.
pub fn base_url(stored: Option<String>) -> (r: String)
    ensures
        r@ == match stored {
            Some(u) => if u@.len() > 0 {
                u@
            } else {
                "https://xcomic.me"@
            },
            None => "https://xcomic.me"@,
        },
{
    match stored {
        Some(u) => if u.as_str().is_empty() {
            String::from_str(DEFAULT_BASE_URL)
        } else {
            u
        },
        None => String::from_str(DEFAULT_BASE_URL),
    }
}

/// What one filter of a search does to the query.
pub open spec fn apply_filter_spec(p: BrowseParamsView, filter: FilterValue) -> BrowseParamsView {
    match filter {
        FilterValue::Sort { id, index, .. } => if id@ == "sort"@ && 0 <= index < sort_ids().len() {
            BrowseParamsView { sortby: sort_ids()[index as int], ..p }
        } else {
            p
        },
        FilterValue::Select { id, value } => if id@ == "original_status"@ {
            BrowseParamsView { original_status: value@, ..p }
        } else if id@ == "include_mode"@ {
            BrowseParamsView { include_mode: value@, ..p }
        } else if id@ == "exclude_mode"@ {
            BrowseParamsView { exclude_mode: value@, ..p }
        } else if id@ == "chapter_count"@ {
            BrowseParamsView { chapter_count: value@, ..p }
        } else {
            p
        },
        FilterValue::Text { id, value } => if id@ == "chapter_count_custom"@ && trim(value@).len()
            > 0 {
            BrowseParamsView { chapter_count: chapter_count_range_spec(value@), ..p }
        } else if id@ == "year"@ {
            BrowseParamsView {
                year_min: parse_range_spec(value@).0,
                year_max: parse_range_spec(value@).1,
                ..p
            }
        } else {
            p
        },
        FilterValue::MultiSelect { id, included, excluded } => if id@ == "genres"@ {
            BrowseParamsView {
                included_genres: included.deep_view(),
                excluded_genres: p.excluded_genres + excluded.deep_view(),
                ..p
            }
        } else if id@ == "demographics"@ {
            BrowseParamsView { demographics: included.deep_view(), ..p }
        } else if id@ == "original_languages"@ {
            BrowseParamsView { original_languages: included.deep_view(), ..p }
        } else if id@ == "types"@ && included@.len() > 0 {
            BrowseParamsView { types: included.deep_view(), ..p }
        } else {
            p
        },
        FilterValue::Range { .. } => p,
    }
}

/// Applies one filter of a search to the query. An empty selection of types means
/// the reader narrowed nothing, so the settings' types survive it; excluded genres
/// add to those the settings exclude.
pub fn apply_filter(params: &mut BrowseParams, filter: FilterValue)
    ensures
        final(params)@ == apply_filter_spec(old(params)@, filter),
{
    match filter {
        FilterValue::Sort { id, index, .. } => {
            if str_eq(id.as_str(), "sort") {
                if let Some(sort) = sort_id(index) {
                    params.sortby = sort;
                }
            }
        },
        FilterValue::Select { id, value } => {
            if str_eq(id.as_str(), "original_status") {
                params.original_status = value;
            } else if str_eq(id.as_str(), "include_mode") {
                params.include_mode = value;
            } else if str_eq(id.as_str(), "exclude_mode") {
                params.exclude_mode = value;
            } else if str_eq(id.as_str(), "chapter_count") {
                params.chapter_count = value;
            }
        },
        FilterValue::Text { id, value } => {
            let v = chars_of(value.as_str());
            if str_eq(id.as_str(), "chapter_count_custom") && trim_exec(&v).len() > 0 {
                params.chapter_count = chapter_count_range(value.as_str());
            } else if str_eq(id.as_str(), "year") {
                let (minimum, maximum) = parse_range(value.as_str());
                params.year_min = minimum;
                params.year_max = maximum;
            }
        },
        FilterValue::MultiSelect { id, included, excluded } => {
            if str_eq(id.as_str(), "genres") {
                params.included_genres = included;
                append_strings(&mut params.excluded_genres, excluded);
            } else if str_eq(id.as_str(), "demographics") {
                params.demographics = included;
            } else if str_eq(id.as_str(), "original_languages") {
                params.original_languages = included;
            } else if str_eq(id.as_str(), "types") && included.len() > 0 {
                params.types = included;
            }
        },
        FilterValue::Range { .. } => {},
    }
}

/// What each multi-select filter of a search does: `types` narrows the query to the
/// types picked, unless none is, when the settings' types stay; `genres` includes the
/// genres picked and adds those excluded to the settings' exclusions; `demographics`
/// and `original_languages` set theirs; any other id changes nothing.
pub proof fn law_multi_select_filters(
    p: BrowseParamsView,
    id: String,
    included: Vec<String>,
    excluded: Vec<String>,
)
    ensures
        ({
            let r = apply_filter_spec(p, FilterValue::MultiSelect { id, included, excluded });
            &&& id@ == "types"@ && included@.len() > 0 ==> r.types == included.deep_view()
            &&& id@ == "types"@ && included@.len() == 0 ==> r == p
            &&& id@ == "genres"@ ==> r.included_genres == included.deep_view()
                && r.excluded_genres == p.excluded_genres + excluded.deep_view()
                && r.types == p.types
            &&& id@ == "demographics"@ ==> r.demographics == included.deep_view()
            &&& id@ == "original_languages"@ ==> r.original_languages == included.deep_view()
            &&& id@ != "types"@ ==> r.types == p.types
            &&& r.sortby == p.sortby && r.word == p.word && r.page == p.page
            &&& id@ != "types"@ && id@ != "genres"@ && id@ != "demographics"@ && id@
                != "original_languages"@ ==> r == p
        }),
{
    reveal_strlit("types");
    reveal_strlit("genres");
    reveal_strlit("demographics");
    reveal_strlit("original_languages");
    assert(("types"@).len() != ("genres"@).len());
    assert(("types"@).len() != ("demographics"@).len());
    assert(("types"@).len() != ("original_languages"@).len());
    assert(("genres"@).len() != ("demographics"@).len());
    assert(("genres"@).len() != ("original_languages"@).len());
    assert(("demographics"@).len() != ("original_languages"@).len());
}

/// What the sort and select filters of a search do: a sort with id `sort` picks the
/// site's order at its index, when there is one; the selects set the original
/// status, the genre modes and the chapter count; neither touches the types.
pub proof fn law_sort_and_select_filters(p: BrowseParamsView, id: String, index: i32, ascending: bool, value: String)
    ensures
        ({
            let r = apply_filter_spec(p, FilterValue::Sort { id, index, ascending });
            &&& id@ == "sort"@ && 0 <= index < 9 ==> r.sortby == sort_ids()[index as int]
                && r.types == p.types
            &&& !(id@ == "sort"@ && 0 <= index < 9) ==> r == p
        }),
        id@ == "sort"@ ==> apply_filter_spec(
            p,
            FilterValue::Sort { id, index: 1, ascending },
        ).sortby == "field_update"@,
        ({
            let r = apply_filter_spec(p, FilterValue::Select { id, value });
            &&& id@ == "original_status"@ ==> r.original_status == value@ && r.types == p.types
            &&& id@ == "include_mode"@ ==> r.include_mode == value@
            &&& id@ == "exclude_mode"@ ==> r.exclude_mode == value@
            &&& id@ == "chapter_count"@ ==> r.chapter_count == value@
            &&& r.types == p.types && r.sortby == p.sortby
        }),
{
    reveal_strlit("original_status");
    reveal_strlit("include_mode");
    reveal_strlit("exclude_mode");
    reveal_strlit("chapter_count");
    assert(("original_status"@).len() != ("include_mode"@).len());
    assert(("original_status"@).len() != ("exclude_mode"@).len());
    assert(("original_status"@).len() != ("chapter_count"@).len());
    assert(("include_mode"@)[0] != ("exclude_mode"@)[0]);
    assert(("include_mode"@).len() != ("chapter_count"@).len());
    assert(("exclude_mode"@).len() != ("chapter_count"@).len());
}

/// The filters applied in order.
pub open spec fn filters_applied(p: BrowseParamsView, filters: Seq<FilterValue>) -> BrowseParamsView
    decreases filters.len(),
{
    if filters.len() == 0 {
        p
    } else {
        apply_filter_spec(filters_applied(p, filters.drop_last()), filters.last())
    }
}

/// No filter of a search changes its page, its size, its text, or the reader's
/// content ratings and languages: the reader's settings survive any filters.
pub proof fn law_filters_keep_settings(p: BrowseParamsView, filters: Seq<FilterValue>)
    ensures
        filters_applied(p, filters).page == p.page,
        filters_applied(p, filters).size == p.size,
        filters_applied(p, filters).word == p.word,
        filters_applied(p, filters).content_ratings == p.content_ratings,
        filters_applied(p, filters).translated_languages == p.translated_languages,
    decreases filters.len(),
{
    if filters.len() > 0 {
        law_filters_keep_settings(p, filters.drop_last());
    }
}

/// A search's query: by score, the reader's settings, the query text as its word,
/// then the filters in order.
pub open spec fn search_params_spec(
    query: Option<Seq<char>>,
    page: i32,
    filters: Seq<FilterValue>,
    preferences: Preferences,
) -> BrowseParamsView {
    let fresh = fresh_params("field_score"@, page, PAGE_SIZE, preferences);
    filters_applied(
        BrowseParamsView {
            word: match query {
                Some(q) => q,
                None => Seq::empty(),
            },
            ..fresh
        },
        filters,
    )
}

/// The query a search with text `query` and `filters` sends for page `page`.
pub fn search_params(
    query: Option<String>,
    page: i32,
    filters: Vec<FilterValue>,
    preferences: &Preferences,
) -> (r: BrowseParams)
    ensures
        r@ == search_params_spec(query.deep_view(), page, filters@, *preferences),
{
    let mut params = BrowseParams::new("field_score", page, PAGE_SIZE, preferences);
    params.word = match query {
        Some(q) => q,
        None => String::new(),
    };
    let ghost start = params@;
    let ghost fv = filters@;
    let mut rest = filters;
    let n = rest.len();
    let mut i: usize = 0;
    assert(fv.skip(0) =~= fv);
    while i < n
        invariant
            n == fv.len(),
            i <= n,
            rest@ == fv.skip(i as int),
            params@ == filters_applied(start, fv.take(i as int)),
        decreases n - i,
    {
        let filter = rest.remove(0);
        assert(filter == fv[i as int]);
        assert(rest@ =~= fv.skip(i + 1));
        assert(fv.take(i + 1).drop_last() =~= fv.take(i as int));
        apply_filter(&mut params, filter);
        i += 1;
    }
    assert(fv.take(n as int) =~= fv);
    params
}

/// The comics the app shows for records of the API, in order.
pub fn mangas_from(comics: Vec<ComicData>, base_url: &str, show_source_in_title: bool) -> (r: Vec<
    Manga,
>)
    ensures
        r@.len() == comics@.len(),
        forall|i: int|
            0 <= i < r@.len() ==> (#[trigger] r@[i])@ == manga_from_data_spec(
                comics@[i],
                base_url@,
                show_source_in_title,
            ),
{
    let ghost cv = comics@;
    let mut rest = comics;
    let mut out: Vec<Manga> = Vec::new();
    let n = rest.len();
    let mut i: usize = 0;
    assert(cv.skip(0) =~= cv);
    while i < n
        invariant
            n == cv.len(),
            i <= n,
            rest@ == cv.skip(i as int),
            out@.len() == i,
            forall|q: int|
                0 <= q < i ==> (#[trigger] out@[q])@ == manga_from_data_spec(
                    cv[q],
                    base_url@,
                    show_source_in_title,
                ),
        decreases n - i,
    {
        let comic = rest.remove(0);
        assert(comic == cv[i as int]);
        assert(rest@ =~= cv.skip(i + 1));
        out.push(manga_from_data(comic, base_url, show_source_in_title));
        i += 1;
    }
    out
}

/// A page of a browse listing: its comics as the app shows them, and whether another
/// page follows.
pub fn browse_page(
    response: GraphQlResponse<BrowseResponse>,
    params: &BrowseParams,
    base_url: &str,
    show_source_in_title: bool,
) -> (r: Result<MangaPageResult, String>)
    ensures
        match response.data {
            Some(d) => r matches Ok(page) && page.has_next_page == (browse_titles(d).len()
                >= params.size) && shows_listed(
                page.entries@,
                listed_pairs(
                    browse_titles(d),
                    params.translated_languages.deep_view(),
                    params.word@.len() > 0,
                ),
                base_url@,
                show_source_in_title,
            ),
            None => r matches Err(m) && m@ == graphql_error(response.errors@),
        },
{
    match parse_browse(response, params) {
        Ok((comics, has_next_page)) => {
            let entries = mangas_from(comics, base_url, show_source_in_title);
            Ok(MangaPageResult { entries, has_next_page })
        },
        Err(m) => Err(m),
    }
}

/// `entries` shows each edition of `pairs` as listed under its title, in order.
pub open spec fn shows_listed(
    entries: Seq<Manga>,
    pairs: Seq<(ComicData, ComicData)>,
    base_url: Seq<char>,
    show_source: bool,
) -> bool {
    exists|comics: Seq<ComicData>|
        lists(comics, pairs) && entries.len() == comics.len() && forall|i: int|
            0 <= i < entries.len() ==> (#[trigger] entries[i])@ == manga_from_data_spec(
                comics[i],
                base_url,
                show_source,
            )
}

/// The image urls of a chapter, made absolute against the mirror; blanks are
/// dropped, and a chapter with none left is an error.
pub open spec fn page_urls_spec(base_url: Seq<char>, urls: Seq<Seq<char>>) -> Seq<Seq<char>>
    decreases urls.len(),
{
    if urls.len() == 0 {
        Seq::empty()
    } else {
        let rest = page_urls_spec(base_url, urls.drop_last());
        let u = absolute_url_spec(base_url, urls.last());
        if u.len() > 0 {
            rest.push(u)
        } else {
            rest
        }
    }
}

/// The page images of a chapter, from the urls its record names.
pub fn pages_from_urls(base_url: &str, urls: Vec<String>) -> (r: Result<Vec<String>, String>)
    ensures
        if page_urls_spec(base_url@, urls.deep_view()).len() > 0 {
            r matches Ok(v) && v.deep_view() == page_urls_spec(base_url@, urls.deep_view())
        } else {
            r matches Err(m) && m@ == "No pages found for this chapter"@
        },
{
    let ghost uv = urls.deep_view();
    let mut out: Vec<String> = Vec::new();
    let mut i: usize = 0;
    while i < urls.len()
        invariant
            i <= urls@.len(),
            uv == urls.deep_view(),
            out.deep_view() == page_urls_spec(base_url@, uv.take(i as int)),
        decreases urls.len() - i,
    {
        assert(uv.take(i + 1).drop_last() =~= uv.take(i as int));
        assert(uv.take(i + 1).last() == urls@[i as int]@);
        let u = absolute_url(base_url, urls[i].as_str());
        if !u.as_str().is_empty() {
            push_string(&mut out, u);
        }
        i += 1;
    }
    assert(uv.take(urls@.len() as int) =~= uv);
    if out.len() == 0 {
        return Err(String::from_str("No pages found for this chapter"));
    }
    Ok(out)
}

/// The page images of a chapter, from the API's answer to a chapter pages query.
pub fn page_list(response: GraphQlResponse<ChapterPagesResponse>, base_url: &str) -> (r: Result<
    Vec<String>,
    String,
>)
    ensures
        match response.data {
            Some(d) => {
                let urls = page_urls_spec(
                    base_url@,
                    match d.chapter {
                        Some(node) => match node.data {
                            Some(data) => opt_list(data.image_urls),
                            None => Seq::empty(),
                        },
                        None => Seq::empty(),
                    },
                );
                if urls.len() > 0 {
                    r matches Ok(v) && v.deep_view() == urls
                } else {
                    r matches Err(m) && m@ == "No pages found for this chapter"@
                }
            },
            None => r matches Err(m) && m@ == graphql_error(response.errors@),
        },
{
    match fetch_page_urls(response) {
        Ok(urls) => pages_from_urls(base_url, urls),
        Err(m) => Err(m),
    }
}

/// The chapters the app lists for a comic's chapter records, in order, leaving out
/// those the site took down. `team` is the comic's scanlation team, if known.
pub open spec fn chapters_spec(
    chapters: Seq<ChapterData>,
    base_url: Seq<char>,
    team: Option<Seq<char>>,
) -> Seq<ChapterView>
    decreases chapters.len(),
{
    if chapters.len() == 0 {
        Seq::empty()
    } else {
        let rest = chapters_spec(chapters.drop_last(), base_url, team);
        let c = chapters.last();
        if chapter_live(c) {
            rest.push(chapter_from_data_spec(c, base_url, None, team, false))
        } else {
            rest
        }
    }
}

/// The chapters the app lists for a comic's chapter records.
pub fn chapters_from(chapters: Vec<ChapterData>, base_url: &str, team: Option<&str>) -> (r: Vec<
    Chapter,
>)
    ensures
        r@.map_values(|c: Chapter| c@) == chapters_spec(chapters@, base_url@, opt_str(team)),
{
    let ghost cv = chapters@;
    let mut rest = chapters;
    let mut out: Vec<Chapter> = Vec::new();
    let n = rest.len();
    let mut i: usize = 0;
    assert(cv.skip(0) =~= cv);
    assert(out@.map_values(|c: Chapter| c@) =~= chapters_spec(cv.take(0), base_url@, opt_str(team)));
    while i < n
        invariant
            n == cv.len(),
            i <= n,
            rest@ == cv.skip(i as int),
            out@.map_values(|c: Chapter| c@) == chapters_spec(cv.take(i as int), base_url@, opt_str(team)),
        decreases n - i,
    {
        let c = rest.remove(0);
        assert(c == cv[i as int]);
        assert(rest@ =~= cv.skip(i + 1));
        assert(cv.take(i + 1).drop_last() =~= cv.take(i as int));
        if let Some(chapter) = chapter_from_data(c, base_url, None, team, false) {
            let ghost before = out@;
            out.push(chapter);
            assert(out@.map_values(|c: Chapter| c@) =~= before.map_values(|c: Chapter| c@).push(
                chapter@,
            ));
        }
        i += 1;
    }
    assert(cv.take(n as int) =~= cv);
    out
}

/// What a link into the site opens: a chapter where it names one, else the comic
/// its target stands for. `resolved_edition` is the edition a series page offers,
/// which the caller looks up for a `/title/` link; nothing for a link the source
/// does not read.
pub fn deep_link(url: &str, resolved_edition: Option<String>) -> (r: Result<
    Option<DeepLinkResult>,
    String,
>)
    ensures
        match parse_link_spec(url@) {
            None => r matches Ok(None),
            Some(TargetView::Comic(manga_key, Some(key))) => r matches Ok(
                Some(DeepLinkResult::Chapter { manga_key: m, key: k }),
            ) && m@ == manga_key && k@ == key,
            Some(TargetView::Comic(manga_key, None)) => r matches Ok(
                Some(DeepLinkResult::Manga { key: k }),
            ) && k@ == manga_key,
            Some(TargetView::Title(_)) => match resolved_edition {
                Some(e) => r matches Ok(Some(DeepLinkResult::Manga { key: k })) && k@ == e@,
                None => r matches Err(m) && m@ == "No comics are available for this series"@,
            },
        },
{
    match parse_link(url) {
        None => Ok(None),
        Some(Target::Comic(manga_key, Some(key))) => Ok(
            Some(DeepLinkResult::Chapter { manga_key, key }),
        ),
        Some(target) => match comic_key(target, resolved_edition) {
            Ok(key) => Ok(Some(DeepLinkResult::Manga { key })),
            Err(m) => Err(m),
        },
    }
}

/// The headers an image is fetched with.
pub fn image_headers(base_url: &str) -> (r: Vec<(String, String)>)
    ensures
        r.deep_view() == seq![("Referer"@, base_url@ + "/"@), ("Origin"@, base_url@)],
{
    let r = vec![
        (String::from_str("Referer"), concat_str(base_url, "/")),
        (String::from_str("Origin"), String::from_str(base_url)),
    ];
    assert(r.deep_view() =~= seq![("Referer"@, base_url@ + "/"@), ("Origin"@, base_url@)]);
    r
}

} // verus!
