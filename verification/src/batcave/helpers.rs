//! How batcave is asked for pages, how its browser check is told apart and passed,
//! and how its lists read.
use vstd::prelude::*;
use crate::batcave::{BASE_URL, REFERER, TRUST_COOKIE_KEY, USER_AGENT};
use crate::batcave::models::{chapter_of, parse_chapter};
use crate::model::{Manga, MangaPageResult, MangaView, MangaWithChapter, listed_manga};
use crate::numbers::{decimal, decimal_exec, parse_i32, parse_i32_exec};
use crate::text::{
    chars_of, concat_str, contains, ends_with, is_suffix, str_contains,
    str_eq, string_from, strip_prefix, strip_prefix_exec, trim, trim_end_char,
    trim_end_char_exec, trim_exec, trim_start, trim_start_char, trim_start_char_exec,
    trim_start_exec, opt_str, join, join_strings, push_string, split_once,
    split_once_exec,
};

verus! {

/// The decimal form of a page number.
fn page_text(page: i32) -> (r: String)
    ensures
        r@ == decimal(page as int),
{
    string_from(&decimal_exec(page as i64))
}

/// A page of the comic list.
pub open spec fn comix_url_spec(page: i32) -> Seq<char> {
    if page > 1 {
        BASE_URL@ + "/comix/page/"@ + decimal(page as int) + "/"@
    } else {
        BASE_URL@ + "/comix/"@
    }
}

/// A page of the comic list.
pub fn comix_url(page: i32) -> (r: String)
    ensures
        r@ == comix_url_spec(page),
{
    if page > 1 {
        let mut r = concat_str(BASE_URL, "/comix/page/");
        r.append(page_text(page).as_str());
        r.append("/");
        r
    } else {
        concat_str(BASE_URL, "/comix/")
    }
}

/// A page of the newest releases.
pub open spec fn latest_url_spec(page: i32) -> Seq<char> {
    if page > 1 {
        BASE_URL@ + "/page/"@ + decimal(page as int) + "/"@
    } else {
        BASE_URL@ + "/"@
    }
}

/// A page of the newest releases.
pub fn latest_url(page: i32) -> (r: String)
    ensures
        r@ == latest_url_spec(page),
{
    if page > 1 {
        let mut r = concat_str(BASE_URL, "/page/");
        r.append(page_text(page).as_str());
        r.append("/");
        r
    } else {
        concat_str(BASE_URL, "/")
    }
}

/// The form body that sorts a list by `sort_by`.
pub open spec fn sort_body_spec(sort_by: Seq<char>, ascending: bool, list: Seq<char>) -> Seq<char> {
    "dlenewssortby="@ + sort_by + "&dledirection="@ + (if ascending {
        "asc"@
    } else {
        "desc"@
    }) + "&set_new_sort=dle_sort_"@ + list + "&set_direction_sort=dle_direction_"@ + list
}

/// The form body that sorts a list, where `list` is `cat_1` for the comic list and
/// `xfilter` for filtered lists.
pub fn sort_body(sort_by: &str, ascending: bool, list: &str) -> (r: String)
    ensures
        r@ == sort_body_spec(sort_by@, ascending, list@),
{
    let mut r = String::from_str("dlenewssortby=");
    r.append(sort_by);
    r.append("&dledirection=");
    r.append(if ascending {
        "asc"
    } else {
        "desc"
    });
    r.append("&set_new_sort=dle_sort_");
    r.append(list);
    r.append("&set_direction_sort=dle_direction_");
    r.append(list);
    r
}

/// The object text an inline script assigns to `variable`, as in
/// `window.__DATA__ = {...};`; the trailing semicolon is optional.
pub open spec fn script_json_spec(data: Seq<char>, variable: Seq<char>) -> Option<Seq<char>> {
    match strip_prefix(trim(data), variable) {
        Some(rest) => match strip_prefix(trim_start(rest), "="@) {
            Some(value) => Some(trim_end_char(trim(value), ';')),
            None => None,
        },
        None => None,
    }
}

/// The object text an inline script assigns to `variable`, if it assigns one.
pub fn script_json_text(data: &str, variable: &str) -> (r: Option<String>)
    ensures
        r.deep_view() == script_json_spec(data@, variable@),
{
    let all = chars_of(data);
    let t = trim_exec(&all);
    let v = chars_of(variable);
    match strip_prefix_exec(&t, &v) {
        Some(rest) => {
            let rs = trim_start_exec(&rest);
            let eq = chars_of("=");
            match strip_prefix_exec(&rs, &eq) {
                Some(value) => {
                    let tv = trim_exec(&value);
                    let r = trim_end_char_exec(&tv, ';');
                    Some(string_from(&r))
                },
                None => None,
            }
        },
        None => None,
    }
}

/// The headers every request to the site carries: the referer, the user agent the
/// browser check was passed with (or the default one), and the saved cookies.
pub open spec fn request_headers_spec(user_agent: Option<Seq<char>>, cookie: Option<Seq<char>>) -> Seq<
    (Seq<char>, Seq<char>),
> {
    let base = seq![
        ("Referer"@, REFERER@),
        (
            "User-Agent"@,
            match user_agent {
                Some(u) => u,
                None => USER_AGENT@,
            },
        ),
    ];
    match cookie {
        Some(c) => base.push(("Cookie"@, c)),
        None => base,
    }
}

/// The headers a request to the site carries, from the saved user agent and cookies.
pub fn request_headers(user_agent: Option<String>, cookie: Option<String>) -> (r: Vec<
    (String, String),
>)
    ensures
        r.deep_view() == request_headers_spec(user_agent.deep_view(), cookie.deep_view()),
{
    let agent = match user_agent {
        Some(u) => u,
        None => String::from_str(USER_AGENT),
    };
    let mut r = vec![
        (String::from_str("Referer"), String::from_str(REFERER)),
        (String::from_str("User-Agent"), agent),
    ];
    let ghost base = r.deep_view();
    assert(base =~= seq![
        ("Referer"@, REFERER@),
        (
            "User-Agent"@,
            match user_agent.deep_view() {
                Some(u) => u,
                None => USER_AGENT@,
            },
        ),
    ]);
    if let Some(c) = cookie {
        r.push((String::from_str("Cookie"), c));
        assert(r.deep_view() =~= request_headers_spec(user_agent.deep_view(), cookie.deep_view()));
    }
    r
}

/// Whether a response is the guard's or Cloudflare's instead of the page: it was
/// redirected to the guard, Cloudflare marked it a challenge, or its title is
/// missing or empty.
pub open spec fn is_blocked_spec(
    final_url: Option<Seq<char>>,
    cf_mitigated: Option<Seq<char>>,
    title: Option<Seq<char>>,
) -> bool {
    (match final_url {
        Some(u) => contains(u, "/_c?"@),
        None => false,
    }) || cf_mitigated == Some("challenge"@) || match title {
        Some(t) => t.len() == 0,
        None => true,
    }
}

/// Whether a response is the guard's or Cloudflare's instead of the page.
pub fn is_blocked(final_url: Option<&str>, cf_mitigated: Option<&str>, title: Option<&str>) -> (r:
    bool)
    ensures
        r == is_blocked_spec(opt_str(final_url), opt_str(cf_mitigated), opt_str(title)),
{
    let redirected = match final_url {
        Some(u) => str_contains(u, "/_c?"),
        None => false,
    };
    let challenged = match cf_mitigated {
        Some(v) => str_eq(v, "challenge"),
        None => false,
    };
    let untitled = match title {
        Some(t) => t.unicode_len() == 0,
        None => true,
    };
    redirected || challenged || untitled
}

/// How a request to the site went.
#[derive(Clone, Copy, Debug, PartialEq, Eq, Structural)]
pub enum SendOutcome {
    /// The page came back.
    Page,
    /// The guard or Cloudflare answered instead.
    Blocked,
    /// The request failed.
    Failed,
}

/// What to do after a request.
#[derive(Clone, Copy, Debug, PartialEq, Eq, Structural)]
pub enum FetchStep {
    /// Use the page.
    Use,
    /// Hand on the request's error.
    PassError,
    /// Pass the browser check in a web view, then ask again.
    SolveGuard,
    /// Give up: the check was passed and the site still refused.
    GiveUp,
}

/// The step after the first try. With no saved cookies, a failed request is not
/// something the guard caused; blocked, or failed while sending saved cookies that
/// may have gone stale, the check is passed again.
pub fn after_first_send(outcome: SendOutcome, has_saved_cookie: bool) -> (r: FetchStep)
    ensures
        r == match outcome {
            SendOutcome::Page => FetchStep::Use,
            SendOutcome::Failed => if has_saved_cookie {
                FetchStep::SolveGuard
            } else {
                FetchStep::PassError
            },
            SendOutcome::Blocked => FetchStep::SolveGuard,
        },
{
    match outcome {
        SendOutcome::Page => FetchStep::Use,
        SendOutcome::Failed => if has_saved_cookie {
            FetchStep::SolveGuard
        } else {
            FetchStep::PassError
        },
        SendOutcome::Blocked => FetchStep::SolveGuard,
    }
}

/// The step after the try that follows passing the check.
pub fn after_retry(outcome: SendOutcome) -> (r: FetchStep)
    ensures
        r == match outcome {
            SendOutcome::Page => FetchStep::Use,
            SendOutcome::Failed => FetchStep::PassError,
            SendOutcome::Blocked => FetchStep::GiveUp,
        },
{
    match outcome {
        SendOutcome::Page => FetchStep::Use,
        SendOutcome::Failed => FetchStep::PassError,
        SendOutcome::Blocked => FetchStep::GiveUp,
    }
}

/// The error a fetch gives up with.
pub fn give_up_message() -> (r: String)
    ensures
        r@ == "Failed to pass BatCave's browser check"@,
{
    String::from_str("Failed to pass BatCave's browser check")
}

/// The error when the browser check is not passed in time.
pub fn guard_timeout_message() -> (r: String)
    ensures
        r@ == "Timed out waiting for BatCave's browser check"@,
{
    String::from_str("Timed out waiting for BatCave's browser check")
}

/// A cookie of the web view.
#[derive(Debug)]
pub struct Cookie {
    pub name: String,
    pub value: String,
    pub domain: String,
}

/// Whether a cookie domain is the site's or one of its subdomains'.
pub open spec fn is_site_domain(domain: Seq<char>) -> bool {
    let d = trim_start_char(domain, '.');
    d == "batcave.biz"@ || is_suffix(".batcave.biz"@, d)
}

/// Whether a cookie domain is the site's or one of its subdomains'.
pub fn is_site_cookie(domain: &str) -> (r: bool)
    ensures
        r == is_site_domain(domain@),
{
    let all = chars_of(domain);
    let d = trim_start_char_exec(&all, '.');
    let sub = chars_of(".batcave.biz");
    let ds = string_from(&d);
    str_eq(ds.as_str(), "batcave.biz") || ends_with(&d, &sub)
}

/// Whether a cookie is the guard's trust cookie, which marks a passed check.
pub fn is_trust_cookie(cookie: &Cookie) -> (r: bool)
    ensures
        r == (cookie.name@ == TRUST_COOKIE_KEY@),
{
    str_eq(cookie.name.as_str(), TRUST_COOKIE_KEY)
}

/// The cookies of the site's domains, in order.
pub open spec fn site_cookies(cookies: Seq<Cookie>) -> Seq<Cookie>
    decreases cookies.len(),
{
    if cookies.len() == 0 {
        Seq::empty()
    } else {
        let rest = site_cookies(cookies.drop_last());
        if is_site_domain(cookies.last().domain@) {
            rest.push(cookies.last())
        } else {
            rest
        }
    }
}

/// A `Cookie` header for the cookies: `name=value` pairs joined by `; `.
pub open spec fn cookie_header(cookies: Seq<Cookie>) -> Seq<char> {
    join(cookies.map_values(|c: Cookie| c.name@ + "="@ + c.value@), "; "@)
}

/// The site's cookies hold the trust cookie.
pub open spec fn has_trust(cookies: Seq<Cookie>) -> bool {
    exists|i: int| 0 <= i < cookies.len() && (#[trigger] cookies[i]).name@ == TRUST_COOKIE_KEY@
}

/// Once the web view holds the site's trust cookie, the `Cookie` header of all the
/// site's cookies, which later requests send; nothing while the check is not passed.
pub fn guard_cookie(cookies: &[Cookie]) -> (r: Option<String>)
    ensures
        match r {
            Some(h) => has_trust(site_cookies(cookies@)) && h@ == cookie_header(site_cookies(cookies@)),
            None => !has_trust(site_cookies(cookies@)),
        },
{
    let ghost cv = cookies@;
    let mut pairs: Vec<String> = Vec::new();
    let mut trusted = false;
    let mut i: usize = 0;
    while i < cookies.len()
        invariant
            i <= cookies@.len(),
            cv == cookies@,
            pairs.deep_view() == site_cookies(cv.take(i as int)).map_values(
                |c: Cookie| c.name@ + "="@ + c.value@,
            ),
            trusted == has_trust(site_cookies(cv.take(i as int))),
        decreases cookies.len() - i,
    {
        let ghost before = site_cookies(cv.take(i as int));
        assert(cv.take(i + 1).drop_last() =~= cv.take(i as int));
        assert(cv.take(i + 1).last() == cv[i as int]);
        let c = &cookies[i];
        if is_site_cookie(c.domain.as_str()) {
            let mut pair = c.name.clone();
            pair.append("=");
            pair.append(c.value.as_str());
            push_string(&mut pairs, pair);
            let ghost after = site_cookies(cv.take(i + 1));
            assert(after == before.push(cv[i as int]));
            assert(pairs.deep_view() =~= after.map_values(|c: Cookie| c.name@ + "="@ + c.value@));
            if is_trust_cookie(c) {
                trusted = true;
                assert(after[before.len() as int] == cv[i as int]);
            } else {
                proof {
                if has_trust(after) {
                    let k = choose|k: int| 0 <= k < after.len() && (#[trigger] after[k]).name@ == TRUST_COOKIE_KEY@;
                    if k < before.len() {
                        assert(before[k] == after[k]);
                    }
                }
                if has_trust(before) {
                    let k = choose|k: int| 0 <= k < before.len() && (#[trigger] before[k]).name@ == TRUST_COOKIE_KEY@;
                    assert(before[k] == after[k]);
                }
                }
            }
        }
        i += 1;
    }
    assert(cv.take(cookies@.len() as int) =~= cv);
    if trusted {
        let ps = pairs.as_slice();
        assert(ps.deep_view() =~= pairs.deep_view());
        let h = join_strings(ps, "; ");
        Some(h)
    } else {
        None
    }
}

/// What the app read off one card of the comic list.
#[derive(Debug)]
pub struct ListCard {
    /// The absolute target of the card's title link; nothing where the link or its
    /// target is missing.
    pub url: Option<String>,
    /// The title link's own text.
    pub title: Option<String>,
    /// Nothing where the card has no image; else the image's absolute `data-src`.
    pub image: Option<Option<String>>,
}

/// The comic a list card shows: one on the site, with a title and an image.
pub open spec fn list_card_manga(card: ListCard) -> Option<MangaView> {
    match (card.url, card.title, card.image) {
        (Some(url), Some(title), Some(cover)) => match strip_prefix(url@, BASE_URL@) {
            Some(key) => Some(listed_manga(key, title@, cover.deep_view(), Some(url@))),
            None => None,
        },
        _ => None,
    }
}

/// The comics the cards show, in order.
pub open spec fn list_mangas(cards: Seq<ListCard>) -> Seq<MangaView>
    decreases cards.len(),
{
    if cards.len() == 0 {
        Seq::empty()
    } else {
        let rest = list_mangas(cards.drop_last());
        match list_card_manga(cards.last()) {
            Some(m) => rest.push(m),
            None => rest,
        }
    }
}

/// A page of the comic list, which search and filtering also use, from its cards and
/// the tag of the last child of its pagination: a link there means another page.
pub fn parse_manga_list(cards: Vec<ListCard>, last_pagination_tag: Option<String>) -> (r:
    MangaPageResult)
    ensures
        r.entries@.map_values(|m: Manga| m@) == list_mangas(cards@),
        r.has_next_page == (last_pagination_tag.deep_view() == Some("a"@)),
{
    let ghost cv = cards@;
    let mut rest = cards;
    let mut out: Vec<Manga> = Vec::new();
    let n = rest.len();
    let mut i: usize = 0;
    let base = chars_of(BASE_URL);
    assert(cv.skip(0) =~= cv);
    assert(out@.map_values(|m: Manga| m@) =~= list_mangas(cv.take(0)));
    while i < n
        invariant
            n == cv.len(),
            i <= n,
            rest@ == cv.skip(i as int),
            base@ == BASE_URL@,
            out@.map_values(|m: Manga| m@) == list_mangas(cv.take(i as int)),
        decreases n - i,
    {
        let card = rest.remove(0);
        assert(card == cv[i as int]);
        assert(rest@ =~= cv.skip(i + 1));
        assert(cv.take(i + 1).drop_last() =~= cv.take(i as int));
        let ghost before = out@;
        let ListCard { url, title, image } = card;
        if let (Some(url), Some(title), Some(cover)) = (url, title, image) {
            let uc = chars_of(url.as_str());
            if let Some(key) = strip_prefix_exec(&uc, &base) {
                let m = Manga::listed(string_from(&key), title, cover, Some(url));
                out.push(m);
                assert(out@.map_values(|m: Manga| m@) =~= before.map_values(|m: Manga| m@).push(m@));
            }
        }
        i += 1;
    }
    assert(cv.take(n as int) =~= cv);
    let has_next_page = match &last_pagination_tag {
        Some(t) => str_eq(t.as_str(), "a"),
        None => false,
    };
    MangaPageResult { entries: out, has_next_page }
}

/// What the app read off one card of the newest releases.
#[derive(Debug)]
pub struct LatestCard {
    /// The absolute target of the card's title link.
    pub url: Option<String>,
    /// The title link's text.
    pub title: Option<String>,
    /// The absolute target of the card's chapter link, like `/reader/33516/275180`.
    pub chapter_url: Option<String>,
    /// The chapter link's text, like `15.09.2026 - Title #17`.
    pub chapter_text: Option<String>,
    /// The absolute source of the card's image.
    pub cover: Option<String>,
}

/// The reader ids a chapter url names.
pub open spec fn reader_ids(chapter_url: Seq<char>) -> Option<(i32, i32)> {
    match strip_prefix(chapter_url, BASE_URL@) {
        Some(path) => match strip_prefix(path, "/reader/"@) {
            Some(ids) => match split_once(ids, "/"@) {
                Some((news_id, id)) => match (parse_i32(news_id), parse_i32(id)) {
                    (Some(a), Some(b)) => Some((a, b)),
                    _ => None,
                },
                None => None,
            },
            None => None,
        },
        None => None,
    }
}

/// What a card of the newest releases lists, where it lists a comic on the site and
/// a chapter with reader ids, a date and a title: the comic's key, title and url,
/// the chapter's ids, and its date and title text.
pub open spec fn latest_card_parts(card: LatestCard) -> Option<
    (Seq<char>, Seq<char>, Seq<char>, i32, i32, Seq<char>, Seq<char>),
> {
    match (card.url, card.title, card.chapter_url, card.chapter_text) {
        (Some(url), Some(title), Some(chapter_url), Some(text)) => match (
            strip_prefix(url@, BASE_URL@),
            reader_ids(chapter_url@),
            split_once(text@, " - "@),
        ) {
            (Some(key), Some((news_id, id)), Some((date, chapter_title))) => Some(
                (key, title@, url@, news_id, id, date, chapter_title),
            ),
            _ => None,
        },
        _ => None,
    }
}

/// The cards of the newest releases that list a comic and a chapter, in order.
pub open spec fn latest_cards(cards: Seq<LatestCard>) -> Seq<LatestCard>
    decreases cards.len(),
{
    if cards.len() == 0 {
        Seq::empty()
    } else {
        let rest = latest_cards(cards.drop_last());
        if latest_card_parts(cards.last()) is Some {
            rest.push(cards.last())
        } else {
            rest
        }
    }
}

/// `e` is the entry a card of the newest releases lists.
pub open spec fn latest_entry<D: Fn(&str) -> Option<i64>, N: Fn(&str) -> Option<u64>>(
    e: MangaWithChapter,
    card: LatestCard,
    parse_date: D,
    parse_number: N,
) -> bool {
    match latest_card_parts(card) {
        Some((key, title, url, news_id, id, date, chapter_title)) => {
            &&& e.manga@ == listed_manga(key, title, card.cover.deep_view(), Some(url))
            &&& chapter_of(e.chapter@, news_id, id, date, chapter_title, title, parse_date, parse_number)
        },
        None => false,
    }
}

/// The reader ids a chapter url names.
fn reader_ids_exec(chapter_url: &[char]) -> (r: Option<(i32, i32)>)
    ensures
        r == reader_ids(chapter_url@),
{
    let base = chars_of(BASE_URL);
    let reader = chars_of("/reader/");
    let slash = chars_of("/");
    match strip_prefix_exec(chapter_url, &base) {
        Some(path) => match strip_prefix_exec(&path, &reader) {
            Some(ids) => match split_once_exec(&ids, &slash) {
                Some((a, b)) => match (parse_i32_exec(&a), parse_i32_exec(&b)) {
                    (Some(x), Some(y)) => Some((x, y)),
                    _ => None,
                },
                None => None,
            },
            None => None,
        },
        None => None,
    }
}

/// The newest releases on the home page, each comic with its newest chapter, and
/// whether the pagination links another page. `parse_date` reads a `dd.MM.yyyy`
/// date, and `parse_number` an issue number as the bit pattern of a 64-bit float.
pub fn parse_latest<D: Fn(&str) -> Option<i64>, N: Fn(&str) -> Option<u64>>(
    cards: Vec<LatestCard>,
    has_pagination_link: bool,
    parse_date: &D,
    parse_number: &N,
) -> (r: (Vec<MangaWithChapter>, bool))
    requires
        forall|s: &str| parse_date.requires((s,)),
        forall|s: &str| parse_number.requires((s,)),
    ensures
        r.0@.len() == latest_cards(cards@).len(),
        forall|i: int|
            0 <= i < r.0@.len() ==> latest_entry(
                #[trigger] r.0@[i],
                latest_cards(cards@)[i],
                *parse_date,
                *parse_number,
            ),
        r.1 == has_pagination_link,
{
    let ghost cv = cards@;
    let mut rest = cards;
    let mut out: Vec<MangaWithChapter> = Vec::new();
    let n = rest.len();
    let mut i: usize = 0;
    let base = chars_of(BASE_URL);
    let sep = chars_of(" - ");
    assert(cv.skip(0) =~= cv);
    while i < n
        invariant
            n == cv.len(),
            i <= n,
            rest@ == cv.skip(i as int),
            base@ == BASE_URL@,
            sep@ == " - "@,
            forall|s: &str| parse_date.requires((s,)),
            forall|s: &str| parse_number.requires((s,)),
            out@.len() == latest_cards(cv.take(i as int)).len(),
            forall|q: int|
                0 <= q < out@.len() ==> latest_entry(
                    #[trigger] out@[q],
                    latest_cards(cv.take(i as int))[q],
                    *parse_date,
                    *parse_number,
                ),
        decreases n - i,
    {
        let card = rest.remove(0);
        assert(card == cv[i as int]);
        assert(rest@ =~= cv.skip(i + 1));
        assert(cv.take(i + 1).drop_last() =~= cv.take(i as int));
        let ghost kept = latest_cards(cv.take(i as int));
        let ghost c0 = card;
        let ghost before = out@;
        let LatestCard { url, title, chapter_url, chapter_text, cover } = card;
        if let (Some(url), Some(title), Some(chapter_url), Some(text)) = (
            url,
            title,
            chapter_url,
            chapter_text,
        ) {
            let uc = chars_of(url.as_str());
            let cc = chars_of(chapter_url.as_str());
            let tc = chars_of(text.as_str());
            if let (Some(key), Some((news_id, id)), Some((date, chapter_title))) = (
                strip_prefix_exec(&uc, &base),
                reader_ids_exec(&cc),
                split_once_exec(&tc, &sep),
            ) {
                let date_s = string_from(&date);
                let chapter_title_s = string_from(&chapter_title);
                let chapter = parse_chapter(
                    news_id,
                    id,
                    date_s.as_str(),
                    chapter_title_s.as_str(),
                    title.as_str(),
                    parse_date,
                    parse_number,
                );
                let manga = Manga::listed(string_from(&key), title, cover, Some(url));
                let e = MangaWithChapter { manga, chapter };
                assert(latest_card_parts(c0) is Some);
                assert(latest_cards(cv.take(i + 1)) == kept.push(c0));
                assert(latest_entry(e, c0, *parse_date, *parse_number));
                out.push(e);
                assert forall|q: int| 0 <= q < out@.len() implies latest_entry(
                    #[trigger] out@[q],
                    latest_cards(cv.take(i + 1))[q],
                    *parse_date,
                    *parse_number,
                ) by {
                    if q < before.len() {
                        assert(out@[q] == before[q]);
                    }
                }
            }
        }
        i += 1;
    }
    assert(cv.take(n as int) =~= cv);
    (out, has_pagination_link)
}

} // verus!
