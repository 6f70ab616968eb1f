//! The chapter and page data batcave embeds in its pages.
use vstd::prelude::*;
use crate::model::{Chapter, ChapterNumber, ChapterView};
use crate::numbers::{decimal, decimal_exec};
use crate::text::{
    chars_of, concat_chars, find, find_from_exec, lemma_find_bound, is_prefix, slice_range, starts_with,
    string_from, strip_prefix, strip_prefix_exec, trim, trim_exec,
};
use crate::batcave::BASE_URL;

verus! {

/// A comic's chapters, as its page embeds them.
#[derive(Debug)]
pub struct ChapterList {
    pub news_id: i32,
    pub chapters: Vec<SingleChapter>,
}

/// One chapter of a [`ChapterList`].
#[derive(Debug)]
pub struct SingleChapter {
    pub date: String,
    pub id: i32,
    pub title: String,
}

/// A chapter's images, as its reader page embeds them, and the comic it belongs to.
#[derive(Debug)]
pub struct ReaderData {
    pub images: Vec<String>,
    pub post_link: String,
}

/// A chapter's images.
#[derive(Debug)]
pub struct PageList {
    pub images: Vec<String>,
}

/// A chapter's key: its reader path.
pub open spec fn reader_key(news_id: i32, id: i32) -> Seq<char> {
    "/reader/"@ + decimal(news_id as int) + "/"@ + decimal(id as int)
}

/// A chapter's title without the comic's title it starts with, trimmed.
pub open spec fn chapter_title_text(title: Seq<char>, manga_title: Seq<char>) -> Seq<char> {
    trim(
        match strip_prefix(title, manga_title) {
            Some(t) => t,
            None => title,
        },
    )
}

/// The text after the first `#` of a title, which reads as the issue number.
pub open spec fn issue_text(title: Seq<char>) -> Option<Seq<char>> {
    match find(title, "#"@) {
        Some(i) => Some(title.skip(i + 1)),
        None => None,
    }
}

/// `c` is the chapter with reader ids `news_id` and `id` and title `title`, given
/// the number the issue text reads as and the date the date text reads as. A title
/// that is only the issue number, like `#17`, already shows as "Chapter 17", so it
/// is left out.
pub open spec fn is_chapter(
    c: ChapterView,
    news_id: i32,
    id: i32,
    title: Seq<char>,
    number: Option<u64>,
    date_uploaded: Option<i64>,
) -> bool {
    let key = reader_key(news_id, id);
    &&& c.key == key
    &&& c.url == Some(BASE_URL@ + key)
    &&& c.chapter_number == match number {
        Some(n) => Some(ChapterNumber::Bits(n)),
        None => None,
    }
    &&& c.title == if is_prefix("#"@, title) && number is Some {
        None
    } else {
        Some(title)
    }
    &&& c.date_uploaded == date_uploaded
    &&& c.volume_number is None
    &&& c.scanlators is None
    &&& c.language is None
    &&& c.thumbnail is None
}

/// `c` is the chapter with reader ids `news_id` and `id`, date text `date` and title
/// `title`, of a comic titled `manga_title`: its date is one `parse_date` gives for
/// the date text, and its number one `parse_number` gives for the issue text.
pub open spec fn chapter_of<D: Fn(&str) -> Option<i64>, N: Fn(&str) -> Option<u64>>(
    c: ChapterView,
    news_id: i32,
    id: i32,
    date: Seq<char>,
    title: Seq<char>,
    manga_title: Seq<char>,
    parse_date: D,
    parse_number: N,
) -> bool {
    exists|date_uploaded: Option<i64>, number: Option<u64>|
        {
            &&& is_chapter(c, news_id, id, chapter_title_text(title, manga_title), number, date_uploaded)
            &&& exists|d: &str| d@ == date && #[trigger] parse_date.ensures((d,), date_uploaded)
            &&& match issue_text(chapter_title_text(title, manga_title)) {
                Some(t) => exists|n: &str| n@ == t && #[trigger] parse_number.ensures((n,), number),
                None => number is None,
            }
        }
}

/// The decimal form of a number, as a string.
fn decimal_string(n: i32) -> (r: Vec<char>)
    ensures
        r@ == decimal(n as int),
{
    decimal_exec(n as i64)
}

/// The chapter with reader ids `news_id` and `id`, a `dd.MM.yyyy` date and a title
/// that starts with the comic's title, like `Batman (2016-) #17`. `parse_date` reads
/// the date, and `parse_number` reads the issue number as the bit pattern of a
/// 64-bit float.
pub fn parse_chapter<D: Fn(&str) -> Option<i64>, N: Fn(&str) -> Option<u64>>(
    news_id: i32,
    id: i32,
    date: &str,
    title: &str,
    manga_title: &str,
    parse_date: &D,
    parse_number: &N,
) -> (r: Chapter)
    requires
        forall|s: &str| parse_date.requires((s,)),
        forall|s: &str| parse_number.requires((s,)),
    ensures
        chapter_of(r@, news_id, id, date@, title@, manga_title@, *parse_date, *parse_number),
{
    let key = chars_of("/reader/");
    let a = decimal_string(news_id);
    let b = decimal_string(id);
    let slash = chars_of("/");
    let key1 = concat_chars(&key, &a);
    let key2 = concat_chars(&key1, &slash);
    let key3 = concat_chars(&key2, &b);
    let key_string = string_from(&key3);
    let base = chars_of(BASE_URL);
    let url = string_from(&concat_chars(&base, &key3));
    let all = chars_of(title);
    let mt = chars_of(manga_title);
    let stripped = match strip_prefix_exec(&all, &mt) {
        Some(t) => t,
        None => all,
    };
    let t = trim_exec(&stripped);
    let hash = chars_of("#");
    proof {
        reveal_strlit("#");
    }
    assert(hash@.len() == 1);
    let number: Option<u64> = match find_from_exec(&t, &hash, 0) {
        Some(i) => {
            proof {
                lemma_find_bound(t@, hash@);
                assert(find(t@, hash@) == Some(i as int));
            }
            assert(i < t.len());
            let start: usize = i + 1;
            let rest = slice_range(&t, start, t.len());
            assert(rest@ =~= t@.skip(i + 1));
            let rs = string_from(&rest);
            let n = parse_number(rs.as_str());
            n
        },
        None => None,
    };
    let date_uploaded = parse_date(date);
    let only_number = starts_with(&t, &hash) && number.is_some();
    let c = Chapter {
        key: key_string,
        title: if only_number {
            None
        } else {
            Some(string_from(&t))
        },
        chapter_number: match number {
            Some(n) => Some(ChapterNumber::Bits(n)),
            None => None,
        },
        volume_number: None,
        date_uploaded,
        scanlators: None,
        url: Some(url),
        language: None,
        thumbnail: None,
    };
    assert(is_chapter(c@, news_id, id, chapter_title_text(title@, manga_title@), number, date_uploaded));
    c
}

impl SingleChapter {
    /// This chapter of the comic with reader id `news_id` and title `manga_title`.
    pub fn into_chapter<D: Fn(&str) -> Option<i64>, N: Fn(&str) -> Option<u64>>(
        self,
        news_id: i32,
        manga_title: &str,
        parse_date: &D,
        parse_number: &N,
    ) -> (r: Chapter)
        requires
            forall|s: &str| parse_date.requires((s,)),
            forall|s: &str| parse_number.requires((s,)),
        ensures
            chapter_of(r@, news_id, self.id, self.date@, self.title@, manga_title@, *parse_date, *parse_number),
    {
        parse_chapter(news_id, self.id, self.date.as_str(), self.title.as_str(), manga_title, parse_date, parse_number)
    }
}

/// The chapters of a comic titled `manga_title`, in the order its page lists them.
pub fn chapters_from_list<D: Fn(&str) -> Option<i64>, N: Fn(&str) -> Option<u64>>(
    list: ChapterList,
    manga_title: &str,
    parse_date: &D,
    parse_number: &N,
) -> (r: Vec<Chapter>)
    requires
        forall|s: &str| parse_date.requires((s,)),
        forall|s: &str| parse_number.requires((s,)),
    ensures
        r@.len() == list.chapters@.len(),
        forall|i: int|
            0 <= i < r@.len() ==> chapter_of(
                (#[trigger] r@[i])@,
                list.news_id,
                list.chapters@[i].id,
                list.chapters@[i].date@,
                list.chapters@[i].title@,
                manga_title@,
                *parse_date,
                *parse_number,
            ),
{
    let ChapterList { news_id, chapters } = list;
    let ghost cv = chapters@;
    let mut rest = chapters;
    let mut out: Vec<Chapter> = Vec::new();
    let n = rest.len();
    let mut i: usize = 0;
    assert(cv.skip(0) =~= cv);
    while i < n
        invariant
            n == cv.len(),
            i <= n,
            rest@ == cv.skip(i as int),
            out@.len() == i,
            forall|s: &str| parse_date.requires((s,)),
            forall|s: &str| parse_number.requires((s,)),
            forall|q: int|
                0 <= q < i ==> chapter_of(
                    (#[trigger] out@[q])@,
                    news_id,
                    cv[q].id,
                    cv[q].date@,
                    cv[q].title@,
                    manga_title@,
                    *parse_date,
                    *parse_number,
                ),
        decreases n - i,
    {
        let c = rest.remove(0);
        assert(c == cv[i as int]);
        assert(rest@ =~= cv.skip(i + 1));
        out.push(c.into_chapter(news_id, manga_title, parse_date, parse_number));
        i += 1;
    }
    out
}

} // verus!
