//! The batcave source: a comic site read from its html, behind a browser check.
pub mod helpers;
pub mod home;
pub mod models;

use vstd::prelude::*;
use crate::batcave::helpers::{
    comix_url, comix_url_spec, latest_url, latest_url_spec, sort_body, sort_body_spec,
};
use crate::batcave::models::{ChapterList, ReaderData, chapter_of, chapters_from_list, reader_key};
use crate::model::{
    Chapter, ContentRating, DeepLinkResult, FilterValue, Manga, MangaPageResult, MangaStatus, MangaView,
    MangaWithChapter, PageRequest, Viewer,
};
use crate::numbers::{
    all_digits, decimal, decimal_exec, is_digit, lemma_decimal_chars, lemma_parse_i32_decimal,
    parse_i32, parse_i32_exec,
};
use crate::text::{
    chars_of, eq_ignore_ascii_case, eq_ignore_ascii_case_exec, join, join_strings, push_string,
    str_eq, string_from, strip_prefix, strip_prefix_exec, is_prefix, starts_with, concat_str,
    contains, str_contains, slice_range, split_once, split_once_exec, strip_suffix,
    strip_suffix_exec, lacks, lemma_split_once_char,
};

verus! {

/// The site.
pub const BASE_URL: &'static str = "https://batcave.biz";

/// The referer every request and image of the site is sent with.
pub const REFERER: &'static str = "https://batcave.biz/";

/// The user agent requests are sent with until the browser check hands out another.
pub const USER_AGENT: &'static str = "Mozilla/5.0 (iPhone; CPU iPhone OS 18_5 like Mac OS X) AppleWebKit/605.1.15 (KHTML, like Gecko) Version/18.5 Mobile/15E148 Safari/604.1";

/// How many seconds a web view is given to pass the browser check, polled once a
/// second.
pub const GUARD_TIMEOUT_SECS: i32 = 20;

/// The cookie the site's guard sets once a browser passes its check.
pub const TRUST_COOKIE_KEY: &'static str = "__guard_trust";

/// The site's names for the sort options, in the order the sort filter lists them.
pub open spec fn sort_options() -> Seq<Seq<char>> {
    seq!["date"@, "editdate"@, "rating"@, "news_read"@, "comm_num"@, "title"@]
}

/// The site's name for sort option `index`; newest first for one it does not know.
pub open spec fn sort_option_spec(index: i32) -> Seq<char> {
    if 0 <= index < sort_options().len() {
        sort_options()[index as int]
    } else {
        "date"@
    }
}

/// The site's name for sort option `index`.
pub fn sort_option(index: i32) -> (r: &'static str)
    ensures
        r@ == sort_option_spec(index),
{
    proof {
        reveal_strlit("date");
        reveal_strlit("editdate");
        reveal_strlit("rating");
        reveal_strlit("news_read");
        reveal_strlit("comm_num");
        reveal_strlit("title");
    }
    if index == 1 {
        "editdate"
    } else if index == 2 {
        "rating"
    } else if index == 3 {
        "news_read"
    } else if index == 4 {
        "comm_num"
    } else if index == 5 {
        "title"
    } else {
        "date"
    }
}

/// The path parts one filter adds to a filtered list.
pub open spec fn filter_parts(filter: FilterValue) -> Seq<Seq<char>> {
    match filter {
        FilterValue::Range { from, to, .. } => (match from {
            Some(f) => seq!["y[from]="@ + f@],
            None => Seq::empty(),
        }) + (match to {
            Some(t) => seq!["y[to]="@ + t@],
            None => Seq::empty(),
        }),
        FilterValue::MultiSelect { id, included, .. } => if included@.len() > 0 {
            seq![
                (if id@ == "publisher"@ {
                    "p"@
                } else {
                    "g"@
                }) + "="@ + join(included.deep_view(), ","@),
            ]
        } else {
            Seq::empty()
        },
        FilterValue::Text { id, value } => if value@.len() > 0 {
            seq![
                (if id@ == "artist"@ {
                    "a"@
                } else {
                    "w"@
                }) + "="@ + value@,
            ]
        } else {
            Seq::empty()
        },
        _ => Seq::empty(),
    }
}

/// The path parts the filters add, in order.
pub open spec fn filters_parts(filters: Seq<FilterValue>) -> Seq<Seq<char>>
    decreases filters.len(),
{
    if filters.len() == 0 {
        Seq::empty()
    } else {
        filters_parts(filters.drop_last()) + filter_parts(filters.last())
    }
}

/// The last sort among the filters: its option and direction.
pub open spec fn last_sort(filters: Seq<FilterValue>) -> Option<(i32, bool)>
    decreases filters.len(),
{
    if filters.len() == 0 {
        None
    } else {
        match filters.last() {
            FilterValue::Sort { index, ascending, .. } => Some((index, ascending)),
            _ => last_sort(filters.drop_last()),
        }
    }
}

/// The request a search sends. With a query it searches; otherwise it lists the
/// comics, under the filters where there are any, sorted as the last sort says.
/// Newest first is the site's default, so only other sorts are sent, as a form; the
/// site takes the sort under another name for a filtered list.
pub open spec fn search_request_spec(query: Option<Seq<char>>, page: i32, filters: Seq<FilterValue>) -> (
    Seq<char>,
    Option<Seq<char>>,
) {
    match query {
        Some(q) => (BASE_URL@ + "/search/"@ + q + "/page/"@ + decimal(page as int) + "/"@, None),
        None => {
            let parts = filters_parts(filters);
            let (url, list) = if parts.len() == 0 {
                (comix_url_spec(page), "cat_1"@)
            } else {
                (
                    BASE_URL@ + "/ComicList/"@ + join(parts, "/"@) + "/page/"@ + decimal(
                        page as int,
                    ) + "/"@,
                    "xfilter"@,
                )
            };
            match last_sort(filters) {
                Some((index, ascending)) => if index > 0 || ascending {
                    (url, Some(sort_body_spec(sort_option_spec(index), ascending, list)))
                } else {
                    (url, None)
                },
                None => (url, None),
            }
        },
    }
}

/// The path parts one filter adds to a filtered list.
fn push_filter_parts(parts: &mut Vec<String>, filter: &FilterValue)
    ensures
        final(parts).deep_view() == old(parts).deep_view() + filter_parts(*filter),
{
    let ghost start = parts.deep_view();
    match filter {
        FilterValue::Range { from, to, .. } => {
            if let Some(f) = from {
                let mut p = String::from_str("y[from]=");
                p.append(f.as_str());
                push_string(parts, p);
            }
            if let Some(t) = to {
                let mut p = String::from_str("y[to]=");
                p.append(t.as_str());
                push_string(parts, p);
            }
            assert(parts.deep_view() =~= start + filter_parts(*filter));
        },
        FilterValue::MultiSelect { id, included, .. } => {
            if included.len() > 0 {
                let mut p = if str_eq(id.as_str(), "publisher") {
                    String::from_str("p")
                } else {
                    String::from_str("g")
                };
                p.append("=");
                let ins = included.as_slice();
                assert(ins.deep_view() =~= included.deep_view());
                let joined = join_strings(ins, ",");
                p.append(joined.as_str());
                push_string(parts, p);
                assert(parts.deep_view() =~= start + filter_parts(*filter));
            } else {
                assert(parts.deep_view() =~= start + filter_parts(*filter));
            }
        },
        FilterValue::Text { id, value } => {
            if value.unicode_len() > 0 {
                let mut p = if str_eq(id.as_str(), "artist") {
                    String::from_str("a")
                } else {
                    String::from_str("w")
                };
                p.append("=");
                p.append(value.as_str());
                push_string(parts, p);
                assert(parts.deep_view() =~= start + filter_parts(*filter));
            } else {
                assert(parts.deep_view() =~= start + filter_parts(*filter));
            }
        },
        _ => {
            assert(parts.deep_view() =~= start + filter_parts(*filter));
        },
    }
}

/// The decimal form of a page number.
fn page_number(page: i32) -> (r: String)
    ensures
        r@ == decimal(page as int),
{
    string_from(&decimal_exec(page as i64))
}

/// The request a search sends for page `page`. The query and the text filters'
/// values come URI-component encoded, as they go into the url.
pub fn search_request(query: Option<String>, page: i32, filters: Vec<FilterValue>) -> (r:
    PageRequest)
    ensures
        (r.url@, r.form_body.deep_view()) == search_request_spec(query.deep_view(), page, filters@),
{
    if let Some(q) = query {
        let mut url = String::from_str(BASE_URL);
        url.append("/search/");
        url.append(q.as_str());
        url.append("/page/");
        url.append(page_number(page).as_str());
        url.append("/");
        return PageRequest { url, form_body: None };
    }
    let mut parts: Vec<String> = Vec::new();
    let mut sort: Option<(i32, bool)> = None;
    let mut i: usize = 0;
    assert(parts.deep_view() =~= filters_parts(filters@.take(0)));
    while i < filters.len()
        invariant
            i <= filters@.len(),
            parts.deep_view() == filters_parts(filters@.take(i as int)),
            sort == last_sort(filters@.take(i as int)),
        decreases filters.len() - i,
    {
        assert(filters@.take(i + 1).drop_last() =~= filters@.take(i as int));
        assert(filters@.take(i + 1).last() == filters@[i as int]);
        push_filter_parts(&mut parts, &filters[i]);
        if let FilterValue::Sort { index, ascending, .. } = &filters[i] {
            sort = Some((*index, *ascending));
        }
        i += 1;
    }
    assert(filters@.take(filters@.len() as int) =~= filters@);
    let (url, list) = if parts.len() == 0 {
        (comix_url(page), "cat_1")
    } else {
        let ps = parts.as_slice();
        assert(ps.deep_view() =~= parts.deep_view());
        let mut url = String::from_str(BASE_URL);
        url.append("/ComicList/");
        url.append(join_strings(ps, "/").as_str());
        url.append("/page/");
        url.append(page_number(page).as_str());
        url.append("/");
        (url, "xfilter")
    };
    let form_body = match sort {
        Some((index, ascending)) => if index > 0 || ascending {
            Some(sort_body(sort_option(index), ascending, list))
        } else {
            None
        },
        None => None,
    };
    PageRequest { url, form_body }
}

/// What the app read off a comic's page.
#[derive(Debug)]
pub struct MangaPage {
    /// The heading's text.
    pub title: Option<String>,
    /// The synopsis.
    pub description: Option<String>,
    /// The absolute source of the poster.
    pub cover: Option<String>,
    /// The text of the list item about the artist, like `Artist: Name`.
    pub artist: Option<String>,
    /// The text of the list item about the writer, like `Writer: Name`.
    pub writer: Option<String>,
    /// The texts of the tag links, where the page has a tag list.
    pub tags: Option<Vec<String>>,
    /// The text of the list item about the release type, like `Release type: Ongoing`.
    pub release: Option<String>,
}

/// The name a labelled list item gives, as a list of one.
pub open spec fn labelled(text: Option<Seq<char>>, label: Seq<char>) -> Option<Seq<Seq<char>>> {
    match text {
        Some(t) => match strip_prefix(t, label) {
            Some(name) => Some(seq![name]),
            None => None,
        },
        None => None,
    }
}

/// Some tag is `name`, whatever its ASCII case.
pub open spec fn has_tag(tags: Option<Seq<Seq<char>>>, name: Seq<char>) -> bool {
    match tags {
        Some(ts) => any_tag(ts, name),
        None => false,
    }
}

/// Some tag of `tags` is `name`, whatever its ASCII case.
pub open spec fn any_tag(tags: Seq<Seq<char>>, name: Seq<char>) -> bool {
    exists|i: int| 0 <= i < tags.len() && eq_ignore_ascii_case(#[trigger] tags[i], name)
}

/// The status a release type names.
pub open spec fn release_status(release: Option<Seq<char>>) -> MangaStatus {
    let text = match release {
        Some(t) => t,
        None => Seq::empty(),
    };
    let kind = match strip_prefix(text, "Release type: "@) {
        Some(k) => k,
        None => Seq::empty(),
    };
    if kind == "Completed"@ || kind == "Complete"@ {
        MangaStatus::Completed
    } else if kind == "Ongoing"@ {
        MangaStatus::Ongoing
    } else {
        MangaStatus::Unknown
    }
}

/// A comic with the details of its page: mature comics are suggestive, and comics
/// read left to right where manga may not, so those keep the app's default.
pub open spec fn with_details_spec(manga: MangaView, page: MangaPage) -> MangaView {
    let tags = page.tags.deep_view();
    MangaView {
        title: match page.title {
            Some(t) => t@,
            None => Seq::empty(),
        },
        description: page.description.deep_view(),
        cover: page.cover.deep_view(),
        artists: labelled(page.artist.deep_view(), "Artist: "@),
        authors: labelled(page.writer.deep_view(), "Writer: "@),
        tags,
        content_rating: if has_tag(tags, "mature"@) {
            ContentRating::Suggestive
        } else {
            ContentRating::Safe
        },
        viewer: if has_tag(tags, "manga"@) {
            Viewer::Unknown
        } else {
            Viewer::LeftToRight
        },
        status: release_status(page.release.deep_view()),
        ..manga
    }
}

/// The name a labelled list item gives, as a list of one.
fn labelled_exec(text: Option<String>, label: &str) -> (r: Option<Vec<String>>)
    ensures
        r.deep_view() == labelled(text.deep_view(), label@),
{
    match text {
        Some(t) => {
            let tc = chars_of(t.as_str());
            let lc = chars_of(label);
            match strip_prefix_exec(&tc, &lc) {
                Some(name) => {
                    let v = vec![string_from(&name)];
                    assert(v.deep_view() =~= seq![name@]);
                    Some(v)
                },
                None => None,
            }
        },
        None => None,
    }
}

/// Some tag is `name`, whatever its ASCII case.
fn has_tag_exec(tags: &Option<Vec<String>>, name: &str) -> (r: bool)
    ensures
        r == has_tag(tags.deep_view(), name@),
{
    match tags {
        Some(ts) => {
            let n = chars_of(name);
            let mut i: usize = 0;
            assert(tags.deep_view() == Some(ts.deep_view()));
            while i < ts.len()
                invariant
                    tags.deep_view() == Some(ts.deep_view()),
                    i <= ts@.len(),
                    n@ == name@,
                    forall|j: int| 0 <= j < i ==> !eq_ignore_ascii_case(#[trigger] ts.deep_view()[j], name@),
                decreases ts.len() - i,
            {
                let t = chars_of(ts[i].as_str());
                assert(ts.deep_view()[i as int] == t@);
                if eq_ignore_ascii_case_exec(&t, &n) {
                    assert(tags.deep_view() == Some(ts.deep_view()));
                    assert(eq_ignore_ascii_case(ts.deep_view()[i as int], name@));
                    return true;
                }
                i += 1;
            }
            assert(tags.deep_view() == Some(ts.deep_view()));
            false
        },
        None => false,
    }
}

/// The status a release type names.
fn release_status_exec(release: &Option<String>) -> (r: MangaStatus)
    ensures
        r == release_status(release.deep_view()),
{
    let text = match release {
        Some(t) => chars_of(t.as_str()),
        None => Vec::new(),
    };
    let label = chars_of("Release type: ");
    let kind = match strip_prefix_exec(&text, &label) {
        Some(k) => k,
        None => Vec::new(),
    };
    let ks = string_from(&kind);
    if str_eq(ks.as_str(), "Completed") || str_eq(ks.as_str(), "Complete") {
        MangaStatus::Completed
    } else if str_eq(ks.as_str(), "Ongoing") {
        MangaStatus::Ongoing
    } else {
        MangaStatus::Unknown
    }
}

/// A comic with the details of its page; its key and url stay.
pub fn with_details(manga: Manga, page: MangaPage) -> (r: Manga)
    ensures
        r@ == with_details_spec(manga@, page),
{
    let is_mature = has_tag_exec(&page.tags, "mature");
    let is_manga = has_tag_exec(&page.tags, "manga");
    let status = release_status_exec(&page.release);
    let MangaPage { title, description, cover, artist, writer, tags, release: _ } = page;
    Manga {
        key: manga.key,
        title: match title {
            Some(t) => t,
            None => String::new(),
        },
        cover,
        url: manga.url,
        authors: labelled_exec(writer, "Writer: "),
        artists: labelled_exec(artist, "Artist: "),
        description,
        tags,
        status,
        content_rating: if is_mature {
            ContentRating::Suggestive
        } else {
            ContentRating::Safe
        },
        viewer: if is_manga {
            Viewer::Unknown
        } else {
            Viewer::LeftToRight
        },
    }
}

/// The chapters of a comic titled `manga_title`, from the chapter data its page
/// embeds; an error where the page embeds none.
pub fn manga_chapters<D: Fn(&str) -> Option<i64>, N: Fn(&str) -> Option<u64>>(
    list: Option<ChapterList>,
    manga_title: &str,
    parse_date: &D,
    parse_number: &N,
) -> (r: Result<Vec<Chapter>, String>)
    requires
        forall|s: &str| parse_date.requires((s,)),
        forall|s: &str| parse_number.requires((s,)),
    ensures
        match list {
            Some(l) => r matches Ok(v) && v@.len() == l.chapters@.len() && forall|i: int|
                0 <= i < v@.len() ==> chapter_of(
                    (#[trigger] v@[i])@,
                    l.news_id,
                    l.chapters@[i].id,
                    l.chapters@[i].date@,
                    l.chapters@[i].title@,
                    manga_title@,
                    *parse_date,
                    *parse_number,
                ),
            None => r matches Err(m) && m@ == "No chapter data"@,
        },
{
    match list {
        Some(l) => Ok(chapters_from_list(l, manga_title, parse_date, parse_number)),
        None => Err(String::from_str("No chapter data")),
    }
}

/// An image url of a reader page, made absolute where it is a path.
pub open spec fn image_url_spec(image: Seq<char>) -> Seq<char> {
    if is_prefix("/"@, image) {
        BASE_URL@ + image
    } else {
        image
    }
}

/// The page images of a chapter, from the data its reader page embeds; an error
/// where it embeds none.
pub fn page_list(data: Option<ReaderData>) -> (r: Result<Vec<String>, String>)
    ensures
        match data {
            Some(d) => r matches Ok(v) && v.deep_view() == d.images.deep_view().map_values(
                |i: Seq<char>| image_url_spec(i),
            ),
            None => r matches Err(m) && m@ == "No page data"@,
        },
{
    match data {
        Some(d) => {
            let images = d.images;
            let ghost iv = images.deep_view();
            let slash = chars_of("/");
            let mut out: Vec<String> = Vec::new();
            let mut i: usize = 0;
            while i < images.len()
                invariant
                    i <= images@.len(),
                    iv == images.deep_view(),
                    slash@ == "/"@,
                    out.deep_view() == iv.take(i as int).map_values(|i: Seq<char>| image_url_spec(i)),
                decreases images.len() - i,
            {
                let img = chars_of(images[i].as_str());
                assert(img@ == iv[i as int]);
                let u = if starts_with(&img, &slash) {
                    concat_str(BASE_URL, images[i].as_str())
                } else {
                    images[i].clone()
                };
                push_string(&mut out, u);
                assert(out.deep_view() =~= iv.take(i + 1).map_values(|i: Seq<char>| image_url_spec(i)));
                i += 1;
            }
            assert(iv.take(images@.len() as int) =~= iv);
            Ok(out)
        },
        None => Err(String::from_str("No page data")),
    }
}

/// The listing of the newest releases.
pub const LATEST_LISTING: &'static str = "latest";

/// The listing of the top rated comics.
pub const TOP_RATED_LISTING: &'static str = "top-rated";

/// The listing of the comics added last.
pub const JUST_ADDED_LISTING: &'static str = "just-added";

/// How a page of a listing is had.
#[derive(Debug)]
pub enum ListingRequest {
    /// A page of the newest releases, read as the home page's latest section is.
    Latest(String),
    /// A page of the comic list.
    List(PageRequest),
}

/// How page `page` of listing `id` is had: the newest releases; the comic list sorted
/// by rating; the comic list as it is, which lists the comics added last; or an
/// error for a listing the source does not have.
pub fn listing_request(id: &str, page: i32) -> (r: Result<ListingRequest, String>)
    ensures
        if id@ == "latest"@ {
            r matches Ok(ListingRequest::Latest(u)) && u@ == latest_url_spec(page)
        } else if id@ == "top-rated"@ {
            r matches Ok(ListingRequest::List(p)) && p.url@ == comix_url_spec(page)
                && p.form_body.deep_view() == Some(sort_body_spec("rating"@, false, "cat_1"@))
        } else if id@ == "just-added"@ {
            r matches Ok(ListingRequest::List(p)) && p.url@ == comix_url_spec(page)
                && p.form_body is None
        } else {
            r matches Err(m) && m@ == "Unknown listing: "@ + id@
        },
{
    if str_eq(id, LATEST_LISTING) {
        Ok(ListingRequest::Latest(latest_url(page)))
    } else if str_eq(id, TOP_RATED_LISTING) {
        Ok(
            ListingRequest::List(
                PageRequest {
                    url: comix_url(page),
                    form_body: Some(sort_body("rating", false, "cat_1")),
                },
            ),
        )
    } else if str_eq(id, JUST_ADDED_LISTING) {
        Ok(ListingRequest::List(PageRequest { url: comix_url(page), form_body: None }))
    } else {
        Err(concat_str("Unknown listing: ", id))
    }
}

/// A page of the newest releases as a listing: the comics alone.
pub fn latest_listing_page(entries: Vec<MangaWithChapter>, has_next_page: bool) -> (r:
    MangaPageResult)
    ensures
        r.entries@.len() == entries@.len(),
        forall|i: int| 0 <= i < r.entries@.len() ==> (#[trigger] r.entries@[i])@ == entries@[i].manga@,
        r.has_next_page == has_next_page,
{
    let ghost ev = entries@;
    let mut rest = entries;
    let mut out: Vec<Manga> = Vec::new();
    let n = rest.len();
    let mut i: usize = 0;
    assert(ev.skip(0) =~= ev);
    while i < n
        invariant
            n == ev.len(),
            i <= n,
            rest@ == ev.skip(i as int),
            out@.len() == i,
            forall|q: int| 0 <= q < i ==> (#[trigger] out@[q])@ == ev[q].manga@,
        decreases n - i,
    {
        let e = rest.remove(0);
        assert(e == ev[i as int]);
        assert(rest@ =~= ev.skip(i + 1));
        out.push(e.manga);
        i += 1;
    }
    MangaPageResult { entries: out, has_next_page }
}

/// The referer an image is fetched with: the site's for its own images, none for
/// others.
pub fn image_referer(url: &str) -> (r: Option<String>)
    ensures
        r.deep_view() == if contains(url@, "batcave.biz"@) {
            Some(REFERER@)
        } else {
            None::<Seq<char>>
        },
{
    if str_contains(url, "batcave.biz") {
        Some(String::from_str(REFERER))
    } else {
        None
    }
}

/// What a link into the site names.
#[derive(Debug)]
pub enum LinkTarget {
    /// A chapter, by its key; the comic it belongs to is on its reader page.
    Chapter(String),
    /// A comic, by its key.
    Manga(String),
}

/// The mathematical content of a [`LinkTarget`].
pub enum LinkTargetView {
    Chapter(Seq<char>),
    Manga(Seq<char>),
}

impl View for LinkTarget {
    type V = LinkTargetView;

    open spec fn view(&self) -> LinkTargetView {
        match self {
            LinkTarget::Chapter(k) => LinkTargetView::Chapter(k@),
            LinkTarget::Manga(k) => LinkTargetView::Manga(k@),
        }
    }
}

/// A character that ends the id in a reader path.
pub open spec fn is_id_end(c: char) -> bool {
    c == '/' || c == '?' || c == '#'
}

/// `s` up to its first `/`, `?` or `#`.
pub open spec fn leading_id(s: Seq<char>) -> Seq<char>
    decreases s.len(),
{
    if s.len() == 0 {
        s
    } else if is_id_end(s[0]) {
        Seq::empty()
    } else {
        seq![s[0]] + leading_id(s.drop_first())
    }
}

/// A character of a comic's slug: an ASCII letter or digit, `_` or `-`.
pub open spec fn is_slug_char(c: char) -> bool {
    ('a' <= c && c <= 'z') || ('A' <= c && c <= 'Z') || ('0' <= c && c <= '9') || c == '_' || c
        == '-'
}

/// Every character of `s` is one of a slug.
pub open spec fn is_slug(s: Seq<char>) -> bool {
    forall|i: int| 0 <= i < s.len() ==> is_slug_char(#[trigger] s[i])
}

/// Whether every character is an ASCII digit.
fn all_digits_exec(s: &[char]) -> (r: bool)
    ensures
        r == all_digits(s@),
{
    let mut i: usize = 0;
    while i < s.len()
        invariant
            i <= s@.len(),
            forall|j: int| 0 <= j < i ==> is_digit(#[trigger] s@[j]),
        decreases s.len() - i,
    {
        if !('0' <= s[i] && s[i] <= '9') {
            assert(!is_digit(s@[i as int]));
            return false;
        }
        i += 1;
    }
    true
}

/// Whether every character is one of a slug.
fn is_slug_exec(s: &[char]) -> (r: bool)
    ensures
        r == is_slug(s@),
{
    let mut k: usize = 0;
    while k < s.len()
        invariant
            k <= s@.len(),
            forall|j: int| 0 <= j < k ==> is_slug_char(#[trigger] s@[j]),
        decreases s.len() - k,
    {
        let c = s[k];
        if !(('a' <= c && c <= 'z') || ('A' <= c && c <= 'Z') || ('0' <= c && c <= '9') || c == '_'
            || c == '-') {
            assert(!is_slug_char(s@[k as int]));
            return false;
        }
        k += 1;
    }
    true
}

/// A comic's key, `/{id}-{slug}.html` with a numeric id and a plain slug.
pub open spec fn is_comic_key(key: Seq<char>) -> bool {
    match strip_prefix(key, "/"@) {
        Some(path) => match split_once(path, "-"@) {
            Some((id, rest)) => match strip_suffix(rest, ".html"@) {
                Some(slug) => id.len() > 0 && slug.len() > 0 && all_digits(id) && is_slug(slug),
                None => false,
            },
            None => false,
        },
        None => false,
    }
}

/// What a link into the site names: a chapter, by reader ids that read as numbers,
/// or a comic, by a key of its form; nothing for another link.
pub open spec fn deep_link_spec(url: Seq<char>) -> Option<LinkTargetView> {
    match strip_prefix(url, BASE_URL@) {
        Some(key) => match strip_prefix(key, "/reader/"@) {
            Some(ids) if split_once(ids, "/"@) is Some => {
                let (news_id, rest) = split_once(ids, "/"@).unwrap();
                match (parse_i32(news_id), parse_i32(leading_id(rest))) {
                    (Some(a), Some(b)) => Some(LinkTargetView::Chapter(reader_key(a, b))),
                    _ => None,
                }
            },
            _ => if is_comic_key(key) {
                Some(LinkTargetView::Manga(key))
            } else {
                None
            },
        },
        None => None,
    }
}

/// `s` up to its first `/`, `?` or `#`.
fn leading_id_exec(s: &[char]) -> (r: Vec<char>)
    ensures
        r@ == leading_id(s@),
{
    let mut i: usize = 0;
    while i < s.len() && !(s[i] == '/' || s[i] == '?' || s[i] == '#')
        invariant
            i <= s@.len(),
            forall|j: int| 0 <= j < i ==> !is_id_end(#[trigger] s@[j]),
        decreases s.len() - i,
    {
        i += 1;
    }
    let r = slice_range(s, 0, i);
    proof {
        lemma_leading_id(s@, i as int);
    }
    r
}

/// The id ends at the first end character.
proof fn lemma_leading_id(s: Seq<char>, i: int)
    requires
        0 <= i <= s.len(),
        forall|j: int| 0 <= j < i ==> !is_id_end(#[trigger] s[j]),
        i == s.len() || is_id_end(s[i]),
    ensures
        leading_id(s) == s.take(i),
    decreases s.len(),
{
    if s.len() > 0 {
        if i == 0 {
            assert(s.take(0) =~= Seq::<char>::empty());
        } else {
            let t = s.drop_first();
            assert forall|j: int| 0 <= j < i - 1 implies !is_id_end(#[trigger] t[j]) by {
                assert(t[j] == s[j + 1]);
            }
            if i < s.len() {
                assert(t[i - 1] == s[i]);
            }
            lemma_leading_id(t, i - 1);
            assert(seq![s[0]] + t.take(i - 1) =~= s.take(i));
        }
    } else {
        assert(s.take(0) =~= s);
    }
}

/// Whether a key has the form of a comic's key.
fn is_comic_key_exec(key: &[char]) -> (r: bool)
    ensures
        r == is_comic_key(key@),
{
    let slash = chars_of("/");
    let dash = chars_of("-");
    let html = chars_of(".html");
    let path = match strip_prefix_exec(key, &slash) {
        Some(p) => p,
        None => return false,
    };
    let (id, rest) = match split_once_exec(&path, &dash) {
        Some(parts) => parts,
        None => return false,
    };
    let slug = match strip_suffix_exec(&rest, &html) {
        Some(sl) => sl,
        None => return false,
    };
    id.len() > 0 && slug.len() > 0 && all_digits_exec(&id) && is_slug_exec(&slug)
}

/// What a link into the site names.
pub fn deep_link(url: &str) -> (r: Option<LinkTarget>)
    ensures
        match r {
            Some(t) => deep_link_spec(url@) == Some(t@),
            None => deep_link_spec(url@) is None,
        },
{
    let all = chars_of(url);
    let base = chars_of(BASE_URL);
    let reader = chars_of("/reader/");
    let slash = chars_of("/");
    let key = match strip_prefix_exec(&all, &base) {
        Some(k) => k,
        None => return None,
    };
    if let Some(ids) = strip_prefix_exec(&key, &reader) {
        if let Some((news_id, rest)) = split_once_exec(&ids, &slash) {
            let id = leading_id_exec(&rest);
            return match (parse_i32_exec(&news_id), parse_i32_exec(&id)) {
                (Some(a), Some(b)) => {
                    let r = reader_key_exec(a, b);
                    Some(LinkTarget::Chapter(r))
                },
                _ => None,
            };
        }
    }
    if is_comic_key_exec(&key) {
        Some(LinkTarget::Manga(string_from(&key)))
    } else {
        None
    }
}

/// A chapter's key: its reader path.
fn reader_key_exec(news_id: i32, id: i32) -> (r: String)
    ensures
        r@ == reader_key(news_id, id),
{
    let mut r = String::from_str("/reader/");
    r.append(string_from(&decimal_exec(news_id as i64)).as_str());
    r.append("/");
    r.append(string_from(&decimal_exec(id as i64)).as_str());
    r
}

/// What a chapter link opens: the chapter, in the comic its reader page links back
/// to, where that is a comic of the site.
pub fn chapter_link(key: String, data: Option<ReaderData>) -> (r: Option<DeepLinkResult>)
    ensures
        match data {
            Some(d) => match strip_prefix(d.post_link@, BASE_URL@) {
                Some(manga_key) => r matches Some(DeepLinkResult::Chapter { manga_key: m, key: k })
                    && m@ == manga_key && k@ == key@,
                None => r is None,
            },
            None => r is None,
        },
{
    match data {
        Some(d) => {
            let link = chars_of(d.post_link.as_str());
            let base = chars_of(BASE_URL);
            match strip_prefix_exec(&link, &base) {
                Some(m) => Some(DeepLinkResult::Chapter { manga_key: string_from(&m), key }),
                None => None,
            }
        },
        None => None,
    }
}

/// A publisher the site's filter data names.
#[derive(Debug)]
pub struct Publisher {
    pub id: i64,
    pub value: String,
}

/// The ids and names of the publisher filter, in the order the site lists them: the
/// site has about 1,800 publishers, so they come from its own filter data.
pub fn publisher_filter(publishers: Vec<Publisher>) -> (r: (Vec<String>, Vec<String>))
    ensures
        r.0.deep_view() == publishers@.map_values(|p: Publisher| decimal(p.id as int)),
        r.1.deep_view() == publishers@.map_values(|p: Publisher| p.value@),
{
    let ghost pv = publishers@;
    let mut rest = publishers;
    let mut ids: Vec<String> = Vec::new();
    let mut names: Vec<String> = Vec::new();
    let n = rest.len();
    let mut i: usize = 0;
    assert(pv.skip(0) =~= pv);
    while i < n
        invariant
            n == pv.len(),
            i <= n,
            rest@ == pv.skip(i as int),
            ids.deep_view() == pv.take(i as int).map_values(|p: Publisher| decimal(p.id as int)),
            names.deep_view() == pv.take(i as int).map_values(|p: Publisher| p.value@),
        decreases n - i,
    {
        let p = rest.remove(0);
        assert(p == pv[i as int]);
        assert(rest@ =~= pv.skip(i + 1));
        push_string(&mut ids, string_from(&decimal_exec(p.id)));
        push_string(&mut names, p.value);
        assert(ids.deep_view() =~= pv.take(i + 1).map_values(|p: Publisher| decimal(p.id as int)));
        assert(names.deep_view() =~= pv.take(i + 1).map_values(|p: Publisher| p.value@));
        i += 1;
    }
    assert(pv.take(n as int) =~= pv);
    (ids, names)
}

/// `s` with `p` before it starts with `p`, and stripping it gives `s` back.
proof fn lemma_strip_prepended(p: Seq<char>, s: Seq<char>)
    ensures
        strip_prefix(p + s, p) == Some(s),
{
    assert((p + s).take(p.len() as int) =~= p);
    assert((p + s).skip(p.len() as int) =~= s);
}

/// A chapter's url opens that chapter: the link to a chapter's key names it again.
pub proof fn law_chapter_link_roundtrip(news_id: i32, id: i32)
    ensures
        deep_link_spec(BASE_URL@ + reader_key(news_id, id)) == Some(
            LinkTargetView::Chapter(reader_key(news_id, id)),
        ),
{
    let da = decimal(news_id as int);
    let db = decimal(id as int);
    let key = reader_key(news_id, id);
    reveal_strlit("/reader/");
    reveal_strlit("/");
    assert("/"@ =~= seq!['/']);
    lemma_strip_prepended(BASE_URL@, key);
    assert(key =~= "/reader/"@ + (da + seq!['/'] + db));
    lemma_strip_prepended("/reader/"@, da + seq!['/'] + db);
    lemma_decimal_chars(news_id as int);
    lemma_decimal_chars(id as int);
    assert(lacks(da, '/')) by {
        assert forall|i: int| 0 <= i < da.len() implies da[i] != '/' by {
            assert(is_digit(da[i]) || da[i] == '-');
        }
    }
    lemma_split_once_char(da, '/', db);
    assert forall|j: int| 0 <= j < db.len() implies !is_id_end(#[trigger] db[j]) by {
        assert(is_digit(db[j]) || db[j] == '-');
    }
    lemma_leading_id(db, db.len() as int);
    assert(db.take(db.len() as int) =~= db);
    lemma_parse_i32_decimal(news_id);
    lemma_parse_i32_decimal(id);
}

/// How a comic-list request sorts: any sort but the site's default (date, newest
/// first) is sent as a form naming the option and its direction, under the list's
/// name (`cat_1` unfiltered, `xfilter` filtered); the default and no sort send no
/// form; a search by query sends none either; and the sort never changes the url.
pub proof fn law_sort_sent(query: Option<Seq<char>>, page: i32, filters: Seq<FilterValue>, index: i32, ascending: bool)
    ensures
        ({
            let list = if filters_parts(filters).len() == 0 {
                "cat_1"@
            } else {
                "xfilter"@
            };
            let r = search_request_spec(None, page, filters);
            &&& last_sort(filters) == Some((index, ascending)) && ascending ==> r.1 == Some(
                sort_body_spec(sort_option_spec(index), true, list),
            )
            &&& last_sort(filters) == Some((index, ascending)) && index > 0 ==> r.1 == Some(
                sort_body_spec(sort_option_spec(index), ascending, list),
            )
            &&& last_sort(filters) == Some((0i32, false)) ==> r.1 is None
            &&& last_sort(filters) is None ==> r.1 is None
            &&& r.0 == if filters_parts(filters).len() == 0 {
                comix_url_spec(page)
            } else {
                BASE_URL@ + "/ComicList/"@ + join(filters_parts(filters), "/"@) + "/page/"@ + decimal(
                    page as int,
                ) + "/"@
            }
        }),
        query is Some ==> search_request_spec(query, page, filters).1 is None,
        sort_option_spec(0) == "date"@,
        sort_option_spec(1) == "editdate"@,
        sort_option_spec(2) == "rating"@,
        sort_option_spec(3) == "news_read"@,
        sort_option_spec(4) == "comm_num"@,
        sort_option_spec(5) == "title"@,
        !(0 <= index < 6) ==> sort_option_spec(index) == "date"@,
{
}

/// The last sort of the filters is the one that counts.
pub proof fn law_last_sort_wins(filters: Seq<FilterValue>, id: String, index: i32, ascending: bool)
    ensures
        last_sort(filters.push(FilterValue::Sort { id, index, ascending })) == Some((index, ascending)),
        filters.len() > 0 && !(filters.last() matches FilterValue::Sort { .. }) ==> last_sort(filters)
            == last_sort(filters.drop_last()),
{
    assert(filters.push(FilterValue::Sort { id, index, ascending }).drop_last() =~= filters);
}

/// What a comic's page says of it: a `mature` tag, in any case, makes it Suggestive
/// and its absence Safe; a `manga` tag leaves the reading mode to the app, and its
/// absence reads left to right; the release types `Completed` and `Complete` are
/// completed, `Ongoing` is ongoing, and anything else unknown; the key and url stay.
pub proof fn law_details(manga: MangaView, page: MangaPage, kind: Seq<char>)
    ensures
        ({
            let r = with_details_spec(manga, page);
            &&& has_tag(page.tags.deep_view(), "mature"@) ==> r.content_rating == ContentRating::Suggestive
            &&& !has_tag(page.tags.deep_view(), "mature"@) ==> r.content_rating == ContentRating::Safe
            &&& has_tag(page.tags.deep_view(), "manga"@) ==> r.viewer == Viewer::Unknown
            &&& !has_tag(page.tags.deep_view(), "manga"@) ==> r.viewer == Viewer::LeftToRight
            &&& r.key == manga.key && r.url == manga.url
            &&& r.tags == page.tags.deep_view()
            &&& page.release.deep_view() == Some("Release type: "@ + kind) ==> r.status == if kind
                == "Completed"@ || kind == "Complete"@ {
                MangaStatus::Completed
            } else if kind == "Ongoing"@ {
                MangaStatus::Ongoing
            } else {
                MangaStatus::Unknown
            }
            &&& page.release is None ==> r.status == MangaStatus::Unknown
        }),
        page.tags.deep_view() matches Some(ts) ==> (forall|i: int|
            0 <= i < ts.len() && eq_ignore_ascii_case(ts[i], "mature"@) ==> has_tag(
                page.tags.deep_view(),
                "mature"@,
            )),
{
    reveal_strlit("Release type: ");
    reveal_strlit("Completed");
    reveal_strlit("Complete");
    reveal_strlit("Ongoing");
    let label = "Release type: "@;
    assert(("Release type: "@ + kind).take(label.len() as int) =~= label);
    assert(("Release type: "@ + kind).skip(label.len() as int) =~= kind);
    assert(("Completed"@).len() != ("Ongoing"@).len());
    assert(("Complete"@).len() != ("Ongoing"@).len());
    let e = Seq::<char>::empty();
    assert(!is_prefix(label, e));
    assert(e != "Completed"@ && e != "Complete"@ && e != "Ongoing"@);
}

/// The listings the source has and their names; any other id is refused.
pub proof fn law_listings(id: Seq<char>)
    ensures
        crate::batcave::home::listing_name("latest"@) == "Newest Releases"@,
        crate::batcave::home::listing_name("top-rated"@) == "Top Rated"@,
        crate::batcave::home::listing_name("just-added"@) == "Just Added"@,
        id != "latest"@ && id != "top-rated"@ && id != "just-added"@ ==> crate::batcave::home::listing_name(id) == id,
{
    reveal_strlit("latest");
    reveal_strlit("top-rated");
    reveal_strlit("just-added");
    assert(("latest"@).len() != ("top-rated"@).len() && ("latest"@).len() != ("just-added"@).len());
    assert(("top-rated"@).len() != ("just-added"@).len());
}

} // verus!
