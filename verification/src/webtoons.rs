//! The webtoons source: english originals and canvas series, read from the site's
//! html and its mobile episode api.
pub mod models;

use vstd::prelude::*;
use crate::model::{ContentRating, DeepLinkResult, DeepLinkView, FilterValue, Manga, MangaStatus, MangaView, Viewer, listed_manga};
use crate::numbers::{decimal, decimal_exec};
use crate::webtoons::models::div_toward_zero;
use crate::text::{
    chars_of, concat_str, split_once, split_once_exec, str_eq, string_from, strip_prefix,
    strip_prefix_exec, opt_chars, contains, is_prefix, starts_with, rsplit_once, rsplit_once_exec,
    strip_suffix, strip_suffix_exec, string_all, lacks, lemma_split_once_char,
    lemma_split_once_head, lemma_split_once_none, lemma_split_once_none_lacks, lemma_rfind_upto, push_string, str_contains, trim, trim_exec,
};

verus! {

/// The site.
pub const BASE_URL: &'static str = "https://www.webtoons.com";

/// The mobile site, which serves the episode api.
pub const MOBILE_URL: &'static str = "https://m.webtoons.com";

/// The image host: the same images as webtoon-phinf, which load without a referer.
pub const IMAGE_URL: &'static str = "https://swebtoon-phinf.pstatic.net";

/// The referer pages and images are fetched with; images are blocked without one.
pub const REFERER: &'static str = "https://www.webtoons.com/";

/// The referer the episode api is asked with.
pub const MOBILE_REFERER: &'static str = "https://m.webtoons.com/";

/// The cookie that skips the age gate and the GDPR prompts.
pub const COOKIE: &'static str = "ageGatePass=true; locale=en; needGDPR=false";

/// An image url on the image host that needs no referer.
pub open spec fn image_url_spec(url: Seq<char>) -> Seq<char> {
    match strip_prefix(url, "https://webtoon-phinf.pstatic.net"@) {
        Some(path) => IMAGE_URL@ + path,
        None => url,
    }
}

/// An image url on the image host that needs no referer.
pub fn image_url(url: String) -> (r: String)
    ensures
        r@ == image_url_spec(url@),
{
    let u = chars_of(url.as_str());
    let host = chars_of("https://webtoon-phinf.pstatic.net");
    match strip_prefix_exec(&u, &host) {
        Some(path) => {
            let mut r = String::from_str(IMAGE_URL);
            r.append(string_from(&path).as_str());
            r
        },
        None => url,
    }
}

/// What the app read off one entry of a title list.
#[derive(Debug)]
pub struct TitleCard {
    /// The entry link's absolute target.
    pub url: Option<String>,
    /// The text of the entry's title; nothing where it has none.
    pub title: Option<String>,
    /// The absolute source of the entry's image.
    pub cover: Option<String>,
}

/// The series an entry shows, where it links a series of the site and has a title.
pub open spec fn card_manga(card: TitleCard) -> Option<MangaView> {
    match (card.url, card.title) {
        (Some(url), Some(title)) => match strip_prefix(url@, BASE_URL@) {
            Some(key) => Some(
                listed_manga(
                    key,
                    title@,
                    match card.cover {
                        Some(c) => Some(image_url_spec(c@)),
                        None => None,
                    },
                    Some(url@),
                ),
            ),
            None => None,
        },
        _ => None,
    }
}

/// The series the entries show, in order.
pub open spec fn card_mangas(cards: Seq<TitleCard>) -> Seq<MangaView>
    decreases cards.len(),
{
    if cards.len() == 0 {
        Seq::empty()
    } else {
        let rest = card_mangas(cards.drop_last());
        match card_manga(cards.last()) {
            Some(m) => rest.push(m),
            None => rest,
        }
    }
}

/// The series of a title list.
pub fn parse_manga_list(cards: Vec<TitleCard>) -> (r: Vec<Manga>)
    ensures
        r@.map_values(|m: Manga| m@) == card_mangas(cards@),
{
    let ghost cv = cards@;
    let mut rest = cards;
    let mut out: Vec<Manga> = Vec::new();
    let n = rest.len();
    let mut i: usize = 0;
    let base = chars_of(BASE_URL);
    assert(cv.skip(0) =~= cv);
    assert(out@.map_values(|m: Manga| m@) =~= card_mangas(cv.take(0)));
    while i < n
        invariant
            n == cv.len(),
            i <= n,
            rest@ == cv.skip(i as int),
            base@ == BASE_URL@,
            out@.map_values(|m: Manga| m@) == card_mangas(cv.take(i as int)),
        decreases n - i,
    {
        let card = rest.remove(0);
        assert(card == cv[i as int]);
        assert(rest@ =~= cv.skip(i + 1));
        assert(cv.take(i + 1).drop_last() =~= cv.take(i as int));
        let ghost before = out@;
        let TitleCard { url, title, cover } = card;
        if let (Some(url), Some(title)) = (url, title) {
            let uc = chars_of(url.as_str());
            if let Some(key) = strip_prefix_exec(&uc, &base) {
                let cover = match cover {
                    Some(c) => Some(image_url(c)),
                    None => None,
                };
                let m = Manga::listed(string_from(&key), title, cover, Some(url));
                out.push(m);
                assert(out@.map_values(|m: Manga| m@) =~= before.map_values(|m: Manga| m@).push(m@));
            }
        }
        i += 1;
    }
    assert(cv.take(n as int) =~= cv);
    out
}

/// The value of parameter `name` in one `name=value` pair.
pub open spec fn pair_value(pair: Seq<char>, name: Seq<char>) -> Option<Seq<char>> {
    match strip_prefix(pair, name) {
        Some(rest) => strip_prefix(rest, "="@),
        None => None,
    }
}

/// The value of the first parameter `name` of a query string, whose parameters
/// are separated by `&`. What follows a separator is always shorter than the whole,
/// which the test on lengths says to the prover.
pub open spec fn query_param_spec(query: Seq<char>, name: Seq<char>) -> Option<Seq<char>>
    decreases query.len(),
{
    match split_once(query, "&"@) {
        Some((pair, rest)) => match pair_value(pair, name) {
            Some(v) => Some(v),
            None => if rest.len() < query.len() {
                query_param_spec(rest, name)
            } else {
                None
            },
        },
        None => pair_value(query, name),
    }
}

/// The value of one `name=value` pair's parameter, if it is `name`.
fn pair_value_exec(pair: &[char], name: &[char]) -> (r: Option<Vec<char>>)
    ensures
        opt_chars(r) == pair_value(pair@, name@),
{
    let eq = chars_of("=");
    match strip_prefix_exec(pair, name) {
        Some(rest) => strip_prefix_exec(&rest, &eq),
        None => None,
    }
}

/// The value of the first parameter `name` of a query string.
pub fn query_param(query: &str, name: &str) -> (r: Option<String>)
    ensures
        r.deep_view() == query_param_spec(query@, name@),
{
    let n = chars_of(name);
    let amp = chars_of("&");
    let mut q = chars_of(query);
    loop
        invariant
            n@ == name@,
            amp@ == "&"@,
            query_param_spec(q@, name@) == query_param_spec(query@, name@),
        decreases q@.len(),
    {
        match split_once_exec(&q, &amp) {
            Some((pair, rest)) => {
                if let Some(v) = pair_value_exec(&pair, &n) {
                    return Some(string_from(&v));
                }
                if rest.len() >= q.len() {
                    return None;
                }
                q = rest;
            },
            None => {
                return match pair_value_exec(&q, &n) {
                    Some(v) => Some(string_from(&v)),
                    None => None,
                };
            },
        }
    }
}

/// A search request: a url, and the parameters its query string encodes, if any.
#[derive(Debug)]
pub struct SearchRequest {
    pub url: String,
    pub params: Vec<(String, String)>,
}

/// What the filters of a search pick: the search type, the genre and the genre
/// order, each as the last filter that sets it leaves it.
pub open spec fn search_choices(filters: Seq<FilterValue>) -> (Seq<char>, Seq<char>, Seq<char>)
    decreases filters.len(),
{
    if filters.len() == 0 {
        (Seq::empty(), Seq::empty(), "MANA"@)
    } else {
        let (search_type, genre, sort) = search_choices(filters.drop_last());
        match filters.last() {
            FilterValue::Select { id, value } => if id@ == "type"@ {
                (value@, genre, sort)
            } else if id@ == "genre"@ {
                (search_type, value@, sort)
            } else {
                (search_type, genre, sort)
            },
            FilterValue::Sort { index, .. } => (
                search_type,
                genre,
                if index == 1 {
                    "LIKEIT"@
                } else if index == 2 {
                    "UPDATE"@
                } else {
                    "MANA"@
                },
            ),
            _ => (search_type, genre, sort),
        }
    }
}

/// The request a search sends: a keyword search, of one type and paged, or of all
/// types, which shows a few results of each without pages; else the genre's page,
/// which lists every title at once; else the popular ranking.
pub open spec fn search_request_spec(query: Option<Seq<char>>, page: i32, filters: Seq<FilterValue>) -> (
    Seq<char>,
    Seq<(Seq<char>, Seq<char>)>,
) {
    let (search_type, genre, sort) = search_choices(filters);
    match query {
        Some(q) if q.len() > 0 => if search_type.len() == 0 {
            (BASE_URL@ + "/en/search"@, seq![("keyword"@, q)])
        } else {
            (
                BASE_URL@ + "/en/search/"@ + search_type,
                seq![("keyword"@, q), ("page"@, decimal(page as int))],
            )
        },
        _ => if genre.len() > 0 {
            (BASE_URL@ + "/en/genres/"@ + genre + "?sortOrder="@ + sort, Seq::empty())
        } else {
            (BASE_URL@ + "/en/ranking/popular"@, Seq::empty())
        },
    }
}

/// The request a search with text `query` and `filters` sends for page `page`.
pub fn search_request(query: Option<String>, page: i32, filters: &Vec<FilterValue>) -> (r:
    SearchRequest)
    ensures
        (r.url@, r.params.deep_view()) == search_request_spec(query.deep_view(), page, filters@),
{
    let mut search_type = String::new();
    let mut genre = String::new();
    let mut sort: &str = "MANA";
    let mut i: usize = 0;
    proof {
        reveal_strlit("MANA");
        reveal_strlit("LIKEIT");
        reveal_strlit("UPDATE");
    }
    while i < filters.len()
        invariant
            i <= filters@.len(),
            (search_type@, genre@, sort@) == search_choices(filters@.take(i as int)),
        decreases filters.len() - i,
    {
        assert(filters@.take(i + 1).drop_last() =~= filters@.take(i as int));
        assert(filters@.take(i + 1).last() == filters@[i as int]);
        match &filters[i] {
            FilterValue::Select { id, value } => {
                if str_eq(id.as_str(), "type") {
                    search_type = value.clone();
                } else if str_eq(id.as_str(), "genre") {
                    genre = value.clone();
                }
            },
            FilterValue::Sort { index, .. } => {
                sort = if *index == 1 {
                    "LIKEIT"
                } else if *index == 2 {
                    "UPDATE"
                } else {
                    "MANA"
                };
            },
            _ => {},
        }
        i += 1;
    }
    assert(filters@.take(filters@.len() as int) =~= filters@);
    if let Some(q) = query {
        if q.unicode_len() > 0 {
            if search_type.unicode_len() == 0 {
                let params = vec![(String::from_str("keyword"), q)];
                let r = SearchRequest { url: concat_str(BASE_URL, "/en/search"), params };
                assert(r.params.deep_view() =~= seq![("keyword"@, q@)]);
                return r;
            } else {
                let mut url = concat_str(BASE_URL, "/en/search/");
                url.append(search_type.as_str());
                let params = vec![
                    (String::from_str("keyword"), q),
                    (String::from_str("page"), string_from(&decimal_exec(page as i64))),
                ];
                let r = SearchRequest { url, params };
                assert(r.params.deep_view() =~= seq![("keyword"@, q@), ("page"@, decimal(page as int))]);
                return r;
            }
        }
    }
    let params: Vec<(String, String)> = Vec::new();
    assert(params.deep_view() =~= Seq::<(Seq<char>, Seq<char>)>::empty());
    if genre.unicode_len() > 0 {
        let mut url = concat_str(BASE_URL, "/en/genres/");
        url.append(genre.as_str());
        url.append("?sortOrder=");
        url.append(sort);
        SearchRequest { url, params }
    } else {
        SearchRequest { url: concat_str(BASE_URL, "/en/ranking/popular"), params }
    }
}

/// What the app read off a series' page.
#[derive(Debug)]
pub struct DetailsPage {
    /// The heading's text.
    pub title: Option<String>,
    /// Whether the page has its info block, which holds the authors and genres.
    pub has_info: bool,
    /// The texts of the info block's author links, which canvas pages have.
    pub author_links: Vec<Option<String>>,
    /// The own text of the info block's author area, which originals have instead.
    pub author_area: Option<String>,
    /// The texts of the info block's genres, where it lists them.
    pub genres: Option<Vec<Option<String>>>,
    /// The synopsis.
    pub summary: Option<String>,
    /// The text that says when new episodes come out.
    pub day_info: Option<String>,
    /// The page's `og:image`, a square crop of the cover.
    pub og_image: Option<String>,
}

/// The texts that are there, in order.
pub open spec fn present(texts: Seq<Option<String>>) -> Seq<Seq<char>>
    decreases texts.len(),
{
    if texts.len() == 0 {
        Seq::empty()
    } else {
        let rest = present(texts.drop_last());
        match texts.last() {
            Some(t) => rest.push(t@),
            None => rest,
        }
    }
}

/// The names an author area lists between slashes, trimmed, blanks left out. What
/// follows a slash is always shorter than the whole, which the test on lengths says
/// to the prover.
pub open spec fn slash_names(text: Seq<char>) -> Seq<Seq<char>>
    decreases text.len(),
{
    match split_once(text, "/"@) {
        Some((first, rest)) => {
            let head = if trim(first).len() > 0 {
                seq![trim(first)]
            } else {
                Seq::empty()
            };
            if rest.len() < text.len() {
                head + slash_names(rest)
            } else {
                head
            }
        },
        None => if trim(text).len() > 0 {
            seq![trim(text)]
        } else {
            Seq::empty()
        },
    }
}

/// A series' authors: canvas pages link each author, originals list them as text.
pub open spec fn authors_spec(page: DetailsPage) -> Option<Seq<Seq<char>>> {
    if !page.has_info {
        None
    } else {
        let names = if page.author_links@.len() > 0 {
            present(page.author_links@)
        } else {
            match page.author_area {
                Some(t) => slash_names(t@),
                None => Seq::empty(),
            }
        };
        if names.len() > 0 {
            Some(names)
        } else {
            None
        }
    }
}

/// The status the episode schedule names.
pub open spec fn day_status(day_info: Option<Seq<char>>) -> MangaStatus {
    match day_info {
        Some(t) => if contains(t, "COMPLETED"@) {
            MangaStatus::Completed
        } else if contains(t, "UP"@) || contains(t, "EVERY"@) {
            MangaStatus::Ongoing
        } else {
            MangaStatus::Unknown
        },
        None => MangaStatus::Unknown,
    }
}

/// A series with the details of its page. A cover it has stays, since list covers
/// are portrait posters where the page's image is a square crop.
pub open spec fn with_details_spec(manga: MangaView, page: DetailsPage) -> MangaView {
    MangaView {
        title: match page.title {
            Some(t) => t@,
            None => manga.title,
        },
        authors: authors_spec(page),
        tags: match page.genres {
            Some(g) => Some(present(g@)),
            None => None,
        },
        description: page.summary.deep_view(),
        status: day_status(page.day_info.deep_view()),
        cover: match manga.cover {
            Some(c) => Some(c),
            None => page.og_image.deep_view(),
        },
        content_rating: ContentRating::Safe,
        viewer: Viewer::Webtoon,
        url: Some(BASE_URL@ + manga.key),
        ..manga
    }
}

/// The texts that are there, in order.
fn present_exec(texts: &Vec<Option<String>>) -> (r: Vec<String>)
    ensures
        r.deep_view() == present(texts@),
{
    let mut out: Vec<String> = Vec::new();
    let mut i: usize = 0;
    while i < texts.len()
        invariant
            i <= texts@.len(),
            out.deep_view() == present(texts@.take(i as int)),
        decreases texts.len() - i,
    {
        assert(texts@.take(i + 1).drop_last() =~= texts@.take(i as int));
        assert(texts@.take(i + 1).last() == texts@[i as int]);
        if let Some(t) = &texts[i] {
            push_string(&mut out, t.clone());
        }
        i += 1;
    }
    assert(texts@.take(texts@.len() as int) =~= texts@);
    out
}

/// The names an author area lists between slashes.
fn slash_names_exec(text: &str) -> (r: Vec<String>)
    ensures
        r.deep_view() == slash_names(text@),
{
    let slash = chars_of("/");
    let mut rest = chars_of(text);
    let mut out: Vec<String> = Vec::new();
    loop
        invariant
            slash@ == "/"@,
            out.deep_view() + slash_names(rest@) == slash_names(text@),
        decreases rest@.len(),
    {
        match split_once_exec(&rest, &slash) {
            Some((first, tail)) => {
                let t = trim_exec(&first);
                let ghost before = out.deep_view();
                if t.len() > 0 {
                    push_string(&mut out, string_from(&t));
                }
                if tail.len() >= rest.len() {
                    assert(out.deep_view() =~= slash_names(text@));
                    return out;
                }
                assert(out.deep_view() + slash_names(tail@) =~= before + slash_names(rest@));
                rest = tail;
            },
            None => {
                let t = trim_exec(&rest);
                if t.len() > 0 {
                    push_string(&mut out, string_from(&t));
                }
                assert(out.deep_view() =~= slash_names(text@));
                return out;
            },
        }
    }
}

/// A series' authors.
fn authors_exec(page: &DetailsPage) -> (r: Option<Vec<String>>)
    ensures
        r.deep_view() == authors_spec(*page),
{
    if !page.has_info {
        return None;
    }
    let names = if page.author_links.len() > 0 {
        present_exec(&page.author_links)
    } else {
        match &page.author_area {
            Some(t) => slash_names_exec(t.as_str()),
            None => {
                let v: Vec<String> = Vec::new();
                assert(v.deep_view() =~= Seq::<Seq<char>>::empty());
                v
            },
        }
    };
    if names.len() > 0 {
        Some(names)
    } else {
        None
    }
}

/// The status the episode schedule names.
fn day_status_exec(day_info: &Option<String>) -> (r: MangaStatus)
    ensures
        r == day_status(day_info.deep_view()),
{
    match day_info {
        Some(t) => if str_contains(t.as_str(), "COMPLETED") {
            MangaStatus::Completed
        } else if str_contains(t.as_str(), "UP") || str_contains(t.as_str(), "EVERY") {
            MangaStatus::Ongoing
        } else {
            MangaStatus::Unknown
        },
        None => MangaStatus::Unknown,
    }
}

/// A series with the details of its page.
pub fn with_details(manga: Manga, page: DetailsPage) -> (r: Manga)
    ensures
        r@ == with_details_spec(manga@, page),
{
    let authors = authors_exec(&page);
    let status = day_status_exec(&page.day_info);
    let tags = match &page.genres {
        Some(g) => Some(present_exec(g)),
        None => None,
    };
    let DetailsPage { title, summary, og_image, .. } = page;
    let url = concat_str(BASE_URL, manga.key.as_str());
    Manga {
        key: manga.key,
        title: match title {
            Some(t) => t,
            None => manga.title,
        },
        cover: match manga.cover {
            Some(c) => Some(c),
            None => og_image,
        },
        url: Some(url),
        authors,
        artists: manga.artists,
        description: summary,
        tags,
        status,
        content_rating: ContentRating::Safe,
        viewer: Viewer::Webtoon,
    }
}

/// The title number a series key names in its query string.
pub open spec fn title_number(key: Seq<char>) -> Option<Seq<char>> {
    match split_once(key, "?"@) {
        Some((_, query)) => query_param_spec(query, "title_no"@),
        None => None,
    }
}

/// The episode api's url for a series: canvas series ask for their reading language.
pub open spec fn episodes_url_spec(key: Seq<char>, title_no: Seq<char>) -> Seq<char> {
    if is_prefix("/en/canvas/"@, key) {
        MOBILE_URL@ + "/api/v1/canvas/"@ + title_no + "/episodes?pageSize=99999&readingLanguageCode=en"@
    } else {
        MOBILE_URL@ + "/api/v1/webtoon/"@ + title_no + "/episodes?pageSize=99999"@
    }
}

/// The episode api's url for the series with key `key`, or an error for a key that
/// names no title number.
pub fn episodes_url(key: &str) -> (r: Result<String, String>)
    ensures
        match title_number(key@) {
            Some(t) => r matches Ok(u) && u@ == episodes_url_spec(key@, t),
            None => r matches Err(m) && m@ == "Missing title number"@,
        },
{
    let k = chars_of(key);
    let q = chars_of("?");
    let title_no = match split_once_exec(&k, &q) {
        Some((_, query)) => query_param(string_from(&query).as_str(), "title_no"),
        None => None,
    };
    match title_no {
        Some(t) => {
            let canvas = chars_of("/en/canvas/");
            let mut url = String::from_str(MOBILE_URL);
            if starts_with(&k, &canvas) {
                url.append("/api/v1/canvas/");
                url.append(t.as_str());
                url.append("/episodes?pageSize=99999&readingLanguageCode=en");
            } else {
                url.append("/api/v1/webtoon/");
                url.append(t.as_str());
                url.append("/episodes?pageSize=99999");
            }
            Ok(url)
        },
        None => Err(String::from_str("Missing title number")),
    }
}

/// The images of an episode's page, from the `data-url` of each image, in order;
/// an image without one is left out.
pub fn page_images(urls: Vec<Option<String>>) -> (r: Vec<String>)
    ensures
        r.deep_view() == present(urls@).map_values(|u: Seq<char>| image_url_spec(u)),
{
    let ghost uv = urls@;
    let mut rest = urls;
    let mut out: Vec<String> = Vec::new();
    let n = rest.len();
    let mut i: usize = 0;
    assert(uv.skip(0) =~= uv);
    assert(out.deep_view() =~= present(uv.take(0)).map_values(|u: Seq<char>| image_url_spec(u)));
    while i < n
        invariant
            n == uv.len(),
            i <= n,
            rest@ == uv.skip(i as int),
            out.deep_view() == present(uv.take(i as int)).map_values(|u: Seq<char>| image_url_spec(u)),
        decreases n - i,
    {
        let u = rest.remove(0);
        assert(u == uv[i as int]);
        assert(rest@ =~= uv.skip(i + 1));
        assert(uv.take(i + 1).drop_last() =~= uv.take(i as int));
        if let Some(url) = u {
            push_string(&mut out, image_url(url));
            assert(out.deep_view() =~= present(uv.take(i + 1)).map_values(|u: Seq<char>| image_url_spec(u)));
        }
        i += 1;
    }
    assert(uv.take(n as int) =~= uv);
    out
}

/// The days of the week, from the one 1970-01-01 fell on, a thursday.
pub open spec fn days() -> Seq<Seq<char>> {
    seq!["thursday"@, "friday"@, "saturday"@, "sunday"@, "monday"@, "tuesday"@, "wednesday"@]
}

/// The week day `now`, seconds since 1970, falls on, counted from thursday, with
/// Rust's division, which rounds toward zero. Before 1970 that count can be
/// negative, and no day has it.
pub open spec fn day_index(now: i64) -> int {
    let day = div_toward_zero(now as int, 86400);
    if day >= 0 {
        day % 7
    } else {
        -((-day) % 7)
    }
}

/// The page listing `id` shows: the originals that update on today's week day, or a
/// ranking.
pub open spec fn listing_url_spec(id: Seq<char>, now: i64) -> Seq<char> {
    if id == "latest"@ {
        BASE_URL@ + "/en/originals/"@ + days()[day_index(now)] + "?sortOrder=UPDATE"@
    } else {
        BASE_URL@ + "/en/ranking/"@ + id
    }
}

/// The page listing `id` shows, `now` seconds since 1970.
pub fn listing_url(id: &str, now: i64) -> (r: String)
    requires
        id@ == "latest"@ ==> 0 <= day_index(now),
    ensures
        r@ == listing_url_spec(id@, now),
{
    if str_eq(id, "latest") {
        let n = now as i128;
        let day: i128 = if n >= 0 {
            n / 86400
        } else {
            -((-n) / 86400)
        };
        let index: i128 = if day >= 0 {
            day % 7
        } else {
            -((-day) % 7)
        };
        assert(index == day_index(now));
        let name = if index == 0 {
            "thursday"
        } else if index == 1 {
            "friday"
        } else if index == 2 {
            "saturday"
        } else if index == 3 {
            "sunday"
        } else if index == 4 {
            "monday"
        } else if index == 5 {
            "tuesday"
        } else {
            "wednesday"
        };
        proof {
            reveal_strlit("thursday");
            reveal_strlit("friday");
            reveal_strlit("saturday");
            reveal_strlit("sunday");
            reveal_strlit("monday");
            reveal_strlit("tuesday");
            reveal_strlit("wednesday");
        }
        assert(name@ == days()[day_index(now)]);
        let mut url = concat_str(BASE_URL, "/en/originals/");
        url.append(name);
        url.append("?sortOrder=UPDATE");
        url
    } else {
        concat_str(concat_str(BASE_URL, "/en/ranking/").as_str(), id)
    }
}

/// The path a link to the site names, after the first of the site's hosts it starts
/// with.
pub open spec fn site_path(url: Seq<char>) -> Option<Seq<char>> {
    match strip_prefix(url, BASE_URL@) {
        Some(p) => Some(p),
        None => match strip_prefix(url, MOBILE_URL@) {
            Some(p) => Some(p),
            None => strip_prefix(url, "https://webtoons.com"@),
        },
    }
}

/// The key of the series with path `series_path` and title number `title_no`.
pub open spec fn series_key(series_path: Seq<char>, title_no: Seq<char>) -> Seq<char> {
    series_path + "/list?title_no="@ + title_no
}

/// What a link into the site opens: a series' list page opens the series; an
/// episode's viewer opens the episode, in the series its path sits under.
pub open spec fn deep_link_spec(url: Seq<char>) -> Option<DeepLinkView> {
    match site_path(url) {
        Some(full) => match split_once(full, "?"@) {
            Some((path, query)) => match query_param_spec(query, "title_no"@) {
                Some(title_no) => match strip_suffix(path, "/list"@) {
                    Some(series_path) => Some(DeepLinkView::Manga(series_key(series_path, title_no))),
                    None => match (strip_suffix(path, "/viewer"@), query_param_spec(query, "episode_no"@)) {
                        (Some(episode_path), Some(episode_no)) => match rsplit_once(episode_path, "/"@) {
                            Some((series_path, _)) => Some(
                                DeepLinkView::Chapter(
                                    series_key(series_path, title_no),
                                    episode_path + "/viewer?title_no="@ + title_no + "&episode_no="@
                                        + episode_no,
                                ),
                            ),
                            None => None,
                        },
                        _ => None,
                    },
                },
                None => None,
            },
            None => None,
        },
        None => None,
    }
}

/// The path a link to the site names.
fn site_path_exec(url: &[char]) -> (r: Option<Vec<char>>)
    ensures
        opt_chars(r) == site_path(url@),
{
    let a = chars_of(BASE_URL);
    let b = chars_of(MOBILE_URL);
    let c = chars_of("https://webtoons.com");
    match strip_prefix_exec(url, &a) {
        Some(p) => Some(p),
        None => match strip_prefix_exec(url, &b) {
            Some(p) => Some(p),
            None => strip_prefix_exec(url, &c),
        },
    }
}

/// The key of the series with path `series_path` and title number `title_no`.
fn series_key_exec(series_path: &[char], title_no: &str) -> (r: String)
    ensures
        r@ == series_key(series_path@, title_no@),
{
    let mut r = string_all(series_path);
    r.append("/list?title_no=");
    r.append(title_no);
    r
}

/// What a link into the site opens, if it is a series or an episode.
pub fn deep_link(url: &str) -> (r: Option<DeepLinkResult>)
    ensures
        match r {
            Some(d) => deep_link_spec(url@) == Some(d@),
            None => deep_link_spec(url@) is None,
        },
{
    let u = chars_of(url);
    let full = match site_path_exec(&u) {
        Some(p) => p,
        None => return None,
    };
    let q = chars_of("?");
    let (path, query_chars) = match split_once_exec(&full, &q) {
        Some(parts) => parts,
        None => return None,
    };
    let query = string_from(&query_chars);
    let title_no = match query_param(query.as_str(), "title_no") {
        Some(t) => t,
        None => return None,
    };
    let list = chars_of("/list");
    if let Some(series_path) = strip_suffix_exec(&path, &list) {
        return Some(DeepLinkResult::Manga { key: series_key_exec(&series_path, title_no.as_str()) });
    }
    let viewer = chars_of("/viewer");
    let (episode_path, episode_no) = match (
        strip_suffix_exec(&path, &viewer),
        query_param(query.as_str(), "episode_no"),
    ) {
        (Some(e), Some(n)) => (e, n),
        _ => return None,
    };
    let slash = chars_of("/");
    match rsplit_once_exec(&episode_path, &slash) {
        Some((series_path, _)) => {
            let manga_key = series_key_exec(&series_path, title_no.as_str());
            let mut key = string_from(&episode_path);
            key.append("/viewer?title_no=");
            key.append(title_no.as_str());
            key.append("&episode_no=");
            key.append(episode_no.as_str());
            Some(DeepLinkResult::Chapter { manga_key, key })
        },
        None => None,
    }
}

/// The title number the query string of a link to the site names.
pub open spec fn link_title_number(url: Seq<char>) -> Option<Seq<char>> {
    match site_path(url) {
        Some(full) => match split_once(full, "?"@) {
            Some((_, query)) => query_param_spec(query, "title_no"@),
            None => None,
        },
        None => None,
    }
}

/// What is left of a string that lacks `c` after a prefix lacks it too.
proof fn lemma_lacks_skip(s: Seq<char>, c: char, n: int)
    requires
        lacks(s, c),
        0 <= n <= s.len(),
    ensures
        lacks(s.skip(n), c),
{
    assert forall|i: int| 0 <= i < s.skip(n).len() implies s.skip(n)[i] != c by {
        assert(s.skip(n)[i] == s[i + n]);
    }
}

/// A prefix of a string that lacks `c` lacks it too.
proof fn lemma_lacks_take(s: Seq<char>, c: char, n: int)
    requires
        lacks(s, c),
        0 <= n <= s.len(),
    ensures
        lacks(s.take(n), c),
{
    assert forall|i: int| 0 <= i < s.take(n).len() implies s.take(n)[i] != c by {
        assert(s.take(n)[i] == s[i]);
    }
}

/// A parameter's value holds no `&`, which separates the parameters.
proof fn lemma_query_param_lacks_amp(query: Seq<char>, name: Seq<char>)
    ensures
        query_param_spec(query, name) matches Some(v) ==> lacks(v, '&'),
    decreases query.len(),
{
    reveal_strlit("&");
    reveal_strlit("=");
    assert("&"@ =~= seq!['&']);
    match split_once(query, "&"@) {
        Some((pair, rest)) => {
            lemma_split_once_head(query, '&');
            match pair_value(pair, name) {
                Some(v) => {
                    if is_prefix(name, pair) {
                        lemma_lacks_skip(pair, '&', name.len() as int);
                        let after = pair.skip(name.len() as int);
                        if is_prefix("="@, after) {
                            lemma_lacks_skip(after, '&', 1);
                        }
                    }
                },
                None => {
                    if rest.len() < query.len() {
                        lemma_query_param_lacks_amp(rest, name);
                    }
                },
            }
        },
        None => {
            lemma_split_once_none_lacks(query, '&');
            if is_prefix(name, query) {
                lemma_lacks_skip(query, '&', name.len() as int);
                let after = query.skip(name.len() as int);
                if is_prefix("="@, after) {
                    lemma_lacks_skip(after, '&', 1);
                }
            }
        },
    }
}

/// A series key names its title number again.
proof fn lemma_series_key_title_number(series_path: Seq<char>, title_no: Seq<char>)
    requires
        lacks(series_path, '?'),
        lacks(title_no, '&'),
    ensures
        title_number(series_key(series_path, title_no)) == Some(title_no),
{
    reveal_strlit("/list?title_no=");
    reveal_strlit("/list");
    reveal_strlit("title_no=");
    reveal_strlit("title_no");
    reveal_strlit("?");
    reveal_strlit("&");
    reveal_strlit("=");
    let head = series_path + "/list"@;
    let query = "title_no="@ + title_no;
    assert(lacks(head, '?')) by {
        assert forall|i: int| 0 <= i < head.len() implies head[i] != '?' by {
            if i >= series_path.len() {
                assert(head[i] == "/list"@[i - series_path.len()]);
            }
        }
    }
    assert(series_key(series_path, title_no) =~= head + seq!['?'] + query);
    assert("?"@ =~= seq!['?']);
    assert("&"@ =~= seq!['&']);
    lemma_split_once_char(head, '?', query);
    assert(lacks(query, '&')) by {
        assert forall|i: int| 0 <= i < query.len() implies query[i] != '&' by {
            if i >= 9 {
                assert(query[i] == title_no[i - 9]);
            }
        }
    }
    lemma_split_once_none(query, '&');
    assert(query.take(8) =~= "title_no"@);
    assert(query.skip(8).take(1) =~= "="@);
    assert(query.skip(8).skip(1) =~= title_no);
}

/// A series or an episode a link opens has the title number the link names, so its
/// episodes can be listed.
pub proof fn law_link_keeps_title_number(url: Seq<char>)
    ensures
        deep_link_spec(url) matches Some(DeepLinkView::Manga(key)) ==> title_number(key)
            == link_title_number(url),
        deep_link_spec(url) matches Some(DeepLinkView::Chapter(key, _)) ==> title_number(key)
            == link_title_number(url),
{
    reveal_strlit("?");
    reveal_strlit("/");
    assert("?"@ =~= seq!['?']);
    assert("/"@ =~= seq!['/']);
    if let Some(full) = site_path(url) {
        if let Some((path, query)) = split_once(full, "?"@) {
            lemma_split_once_head(full, '?');
            if let Some(title_no) = query_param_spec(query, "title_no"@) {
                lemma_query_param_lacks_amp(query, "title_no"@);
                if let Some(series_path) = strip_suffix(path, "/list"@) {
                    lemma_lacks_take(path, '?', series_path.len() as int);
                    lemma_series_key_title_number(series_path, title_no);
                } else if let Some(episode_path) = strip_suffix(path, "/viewer"@) {
                    lemma_lacks_take(path, '?', episode_path.len() as int);
                    if let Some((series_path, _)) = rsplit_once(episode_path, "/"@) {
                        lemma_rfind_upto(episode_path, "/"@, episode_path.len() - 1);
                        lemma_lacks_take(episode_path, '?', series_path.len() as int);
                        lemma_series_key_title_number(series_path, title_no);
                    }
                }
            }
        }
    }
}

/// The genre order a sort filter picks: by likes for option 1, by update for option 2,
/// and by popularity otherwise; a later sort replaces an earlier one and leaves the
/// type and genre as they were; a genre page is asked for in that order.
pub proof fn law_genre_order(filters: Seq<FilterValue>, id: String, index: i32, ascending: bool, page: i32)
    ensures
        ({
            let before = search_choices(filters);
            let after = search_choices(filters.push(FilterValue::Sort { id, index, ascending }));
            &&& after.0 == before.0 && after.1 == before.1
            &&& index == 0 ==> after.2 == "MANA"@
            &&& index == 1 ==> after.2 == "LIKEIT"@
            &&& index == 2 ==> after.2 == "UPDATE"@
            &&& !(0 <= index <= 2) ==> after.2 == "MANA"@
        }),
        search_choices(Seq::<FilterValue>::empty()).2 == "MANA"@,
        "MANA"@ != "LIKEIT"@ && "LIKEIT"@ != "UPDATE"@ && "MANA"@ != "UPDATE"@,
        search_choices(filters).1.len() > 0 ==> search_request_spec(None, page, filters) == (
            BASE_URL@ + "/en/genres/"@ + search_choices(filters).1 + "?sortOrder="@
                + search_choices(filters).2,
            Seq::<(Seq<char>, Seq<char>)>::empty(),
        ),
        search_choices(filters).1.len() == 0 ==> search_request_spec(None, page, filters) == (
            BASE_URL@ + "/en/ranking/popular"@,
            Seq::<(Seq<char>, Seq<char>)>::empty(),
        ),
{
    reveal_strlit("MANA");
    reveal_strlit("LIKEIT");
    reveal_strlit("UPDATE");
    assert(("MANA"@).len() != ("LIKEIT"@).len());
    assert(("MANA"@).len() != ("UPDATE"@).len());
    assert(("LIKEIT"@)[0] != ("UPDATE"@)[0]);
    assert(filters.push(FilterValue::Sort { id, index, ascending }).drop_last() =~= filters);
}

/// The type and genre a select filter picks: the last select of each wins, and a
/// keyword search of one type is paged where a search of all types is not.
pub proof fn law_search_selects(filters: Seq<FilterValue>, id: String, value: String, q: Seq<char>, page: i32)
    ensures
        ({
            let before = search_choices(filters);
            let after = search_choices(filters.push(FilterValue::Select { id, value }));
            &&& id@ == "type"@ ==> after == (value@, before.1, before.2)
            &&& id@ == "genre"@ ==> after == (before.0, value@, before.2)
            &&& id@ != "type"@ && id@ != "genre"@ ==> after == before
        }),
        q.len() > 0 && search_choices(filters).0.len() == 0 ==> search_request_spec(Some(q), page, filters)
            == (BASE_URL@ + "/en/search"@, seq![("keyword"@, q)]),
        q.len() > 0 && search_choices(filters).0.len() > 0 ==> search_request_spec(Some(q), page, filters)
            == (
            BASE_URL@ + "/en/search/"@ + search_choices(filters).0,
            seq![("keyword"@, q), ("page"@, decimal(page as int))],
        ),
{
    reveal_strlit("type");
    reveal_strlit("genre");
    assert(("type"@).len() != ("genre"@).len());
    assert(filters.push(FilterValue::Select { id, value }).drop_last() =~= filters);
}

/// A series' schedule text decides its status: `COMPLETED` anywhere is completed,
/// else `UP` or `EVERY` is ongoing, else unknown, as is a page without one.
pub proof fn law_day_status(text: Seq<char>)
    ensures
        contains(text, "COMPLETED"@) ==> day_status(Some(text)) == MangaStatus::Completed,
        !contains(text, "COMPLETED"@) && (contains(text, "UP"@) || contains(text, "EVERY"@))
            ==> day_status(Some(text)) == MangaStatus::Ongoing,
        !contains(text, "COMPLETED"@) && !contains(text, "UP"@) && !contains(text, "EVERY"@)
            ==> day_status(Some(text)) == MangaStatus::Unknown,
        day_status(None) == MangaStatus::Unknown,
{
}

/// The latest listing follows the week: 1970-01-01 was a thursday, and each day
/// after names the next week day, seven of them in turn; other listings are
/// rankings.
pub proof fn law_weekday(now: i64, id: Seq<char>)
    ensures
        day_index(0) == 0 && days()[0] == "thursday"@,
        0 <= now <= i64::MAX - 86400 ==> day_index((now + 86400) as i64) == (day_index(now) + 1) % 7,
        0 <= now ==> 0 <= day_index(now) < 7,
        0 <= now < 86400 ==> day_index(now) == 0,
        days().len() == 7,
        forall|a: int, b: int| 0 <= a < b < 7 ==> days()[a] != days()[b],
        id != "latest"@ ==> listing_url_spec(id, now) == BASE_URL@ + "/en/ranking/"@ + id,
{
    reveal_strlit("thursday");
    reveal_strlit("friday");
    reveal_strlit("saturday");
    reveal_strlit("sunday");
    reveal_strlit("monday");
    reveal_strlit("tuesday");
    reveal_strlit("wednesday");
    if 0 <= now <= i64::MAX - 86400 {
        let d = now as int / 86400;
        assert((now as int + 86400) / 86400 == d + 1) by (nonlinear_arith)
            requires
                now >= 0,
                d == now as int / 86400,
        ;
    }
    assert forall|a: int, b: int| 0 <= a < b < 7 implies days()[a] != days()[b] by {
        let x = days()[a];
        let y = days()[b];
        if x.len() == y.len() {
            assert(x[0] != y[0]);
        }
    }
}

} // verus!
