use comic_sources::batcave::helpers::{
    after_first_send, after_retry, comix_url, give_up_message, guard_timeout_message, guard_cookie, is_blocked, is_site_cookie,
    is_trust_cookie, latest_url, parse_latest, parse_manga_list, request_headers,
    script_json_text, sort_body, Cookie, FetchStep, LatestCard, ListCard, SendOutcome,
};
use comic_sources::batcave::home::{genre_name, listing, parse_poster, PosterCard};
use comic_sources::batcave::models::{
    chapters_from_list, parse_chapter, ChapterList, ReaderData, SingleChapter,
};
use comic_sources::batcave::{
    chapter_link, deep_link, image_referer, latest_listing_page, listing_request, manga_chapters,
    page_list, publisher_filter, search_request, sort_option, with_details, LinkTarget,
    ListingRequest, MangaPage, Publisher, USER_AGENT,
};
use comic_sources::model::{
    ChapterNumber, ContentRating, DeepLinkResult, FilterValue, Manga, MangaStatus, Viewer,
};

fn s(text: &str) -> String {
    text.to_string()
}

fn strings(texts: &[&str]) -> Vec<String> {
    texts.iter().map(|t| t.to_string()).collect()
}

fn read_date(text: &str) -> Option<i64> {
    let parts: Vec<&str> = text.split('.').collect();
    if parts.len() != 3 {
        return None;
    }
    let day: i64 = parts[0].parse().ok()?;
    let month: i64 = parts[1].parse().ok()?;
    let year: i64 = parts[2].parse().ok()?;
    Some(year * 10000 + month * 100 + day)
}

fn read_number(text: &str) -> Option<u64> {
    text.parse::<f32>().ok().map(|n| (n as f64).to_bits())
}

#[test]
fn list_urls() {
    assert_eq!(comix_url(1), "https://batcave.biz/comix/");
    assert_eq!(comix_url(0), "https://batcave.biz/comix/");
    assert_eq!(comix_url(3), "https://batcave.biz/comix/page/3/");
    assert_eq!(latest_url(1), "https://batcave.biz/");
    assert_eq!(latest_url(12), "https://batcave.biz/page/12/");
}

#[test]
fn sort_form_body() {
    assert_eq!(
        sort_body("rating", false, "cat_1"),
        "dlenewssortby=rating&dledirection=desc&set_new_sort=dle_sort_cat_1&set_direction_sort=dle_direction_cat_1"
    );
    assert_eq!(
        sort_body("title", true, "xfilter"),
        "dlenewssortby=title&dledirection=asc&set_new_sort=dle_sort_xfilter&set_direction_sort=dle_direction_xfilter"
    );
}

#[test]
fn script_objects() {
    assert_eq!(
        script_json_text("  window.__DATA__ = {\"a\":1};  ", "window.__DATA__"),
        Some(s("{\"a\":1}"))
    );
    assert_eq!(
        script_json_text("window.__XFILTER__={\"b\":2}", "window.__XFILTER__"),
        Some(s("{\"b\":2}"))
    );
    assert_eq!(script_json_text("var x = 1;", "window.__DATA__"), None);
    assert_eq!(script_json_text("window.__DATA__ 5", "window.__DATA__"), None);
}

#[test]
fn request_headers_from_saved_values() {
    assert_eq!(
        request_headers(None, None),
        vec![(s("Referer"), s("https://batcave.biz/")), (s("User-Agent"), s(USER_AGENT))]
    );
    assert_eq!(
        request_headers(Some(s("UA")), Some(s("a=1"))),
        vec![(s("Referer"), s("https://batcave.biz/")), (s("User-Agent"), s("UA")), (s("Cookie"), s("a=1"))]
    );
}

#[test]
fn blocked_responses() {
    assert!(is_blocked(Some("https://batcave.biz/_c?x=1"), None, Some("Page")));
    assert!(is_blocked(None, Some("challenge"), Some("Page")));
    assert!(is_blocked(None, None, Some("")));
    assert!(is_blocked(None, None, None));
    assert!(!is_blocked(Some("https://batcave.biz/"), Some("no"), Some("BatCave")));
}

#[test]
fn fetch_steps() {
    assert_eq!(after_first_send(SendOutcome::Page, true), FetchStep::Use);
    assert_eq!(after_first_send(SendOutcome::Failed, false), FetchStep::PassError);
    assert_eq!(after_first_send(SendOutcome::Failed, true), FetchStep::SolveGuard);
    assert_eq!(after_first_send(SendOutcome::Blocked, false), FetchStep::SolveGuard);
    assert_eq!(after_retry(SendOutcome::Page), FetchStep::Use);
    assert_eq!(after_retry(SendOutcome::Failed), FetchStep::PassError);
    assert_eq!(after_retry(SendOutcome::Blocked), FetchStep::GiveUp);
    assert_eq!(give_up_message(), "Failed to pass BatCave's browser check");
    assert_eq!(guard_timeout_message(), "Timed out waiting for BatCave's browser check");
}

fn cookie(name: &str, value: &str, domain: &str) -> Cookie {
    Cookie { name: s(name), value: s(value), domain: s(domain) }
}

#[test]
fn guard_cookies() {
    assert!(is_site_cookie(".batcave.biz"));
    assert!(is_site_cookie("www.batcave.biz"));
    assert!(!is_site_cookie("notbatcave.biz"));
    assert!(is_trust_cookie(&cookie("__guard_trust", "1", "batcave.biz")));
    let passed = vec![
        cookie("a", "1", ".batcave.biz"),
        cookie("x", "9", "other.com"),
        cookie("__guard_trust", "t", "batcave.biz"),
    ];
    assert_eq!(guard_cookie(&passed), Some(s("a=1; __guard_trust=t")));
    let pending = vec![cookie("a", "1", ".batcave.biz"), cookie("__guard_trust", "t", "other.com")];
    assert_eq!(guard_cookie(&pending), None);
}

#[test]
fn chapters_from_titles() {
    let c = parse_chapter(33516, 275180, "15.09.2026", "Batman (2016-) #17", "Batman (2016-)", &read_date, &read_number);
    assert_eq!(c.key, "/reader/33516/275180");
    assert_eq!(c.url, Some(s("https://batcave.biz/reader/33516/275180")));
    assert_eq!(c.title, None);
    assert_eq!(c.chapter_number, Some(ChapterNumber::Bits(17.0f64.to_bits())));
    assert_eq!(c.date_uploaded, Some(20260915));

    let c = parse_chapter(1, -2, "bad", "Batman Annual #1.5", "Batman", &read_date, &read_number);
    assert_eq!(c.key, "/reader/1/-2");
    assert_eq!(c.title, Some(s("Annual #1.5")));
    assert_eq!(c.chapter_number, Some(ChapterNumber::Bits(1.5f64.to_bits())));
    assert_eq!(c.date_uploaded, None);

    let c = parse_chapter(1, 2, "01.01.2020", "Special", "Other", &read_date, &read_number);
    assert_eq!(c.title, Some(s("Special")));
    assert_eq!(c.chapter_number, None);

    let c = parse_chapter(1, 2, "01.01.2020", "#x", "", &read_date, &read_number);
    assert_eq!(c.title, Some(s("#x")));
    assert_eq!(c.chapter_number, None);
}

#[test]
fn chapter_lists() {
    let list = ChapterList {
        news_id: 7,
        chapters: vec![
            SingleChapter { date: s("02.03.2024"), id: 2, title: s("Hero #2") },
            SingleChapter { date: s("01.03.2024"), id: 1, title: s("Hero #1") },
        ],
    };
    let chapters = chapters_from_list(list, "Hero", &read_date, &read_number);
    assert_eq!(chapters.len(), 2);
    assert_eq!(chapters[0].key, "/reader/7/2");
    assert_eq!(chapters[1].date_uploaded, Some(20240301));
    assert_eq!(
        manga_chapters(None, "Hero", &read_date, &read_number).map(|v| v.len()),
        Err(s("No chapter data"))
    );
}

#[test]
fn comic_list_cards() {
    let cards = vec![
        ListCard { url: Some(s("https://batcave.biz/1-a.html")), title: Some(s("A")), image: Some(Some(s("https://batcave.biz/a.jpg"))) },
        ListCard { url: Some(s("https://other.site/2-b.html")), title: Some(s("B")), image: Some(None) },
        ListCard { url: Some(s("https://batcave.biz/3-c.html")), title: Some(s("C")), image: None },
        ListCard { url: Some(s("https://batcave.biz/4-d.html")), title: Some(s("D")), image: Some(None) },
    ];
    let page = parse_manga_list(cards, Some(s("a")));
    assert!(page.has_next_page);
    let keys: Vec<&str> = page.entries.iter().map(|m| m.key.as_str()).collect();
    assert_eq!(keys, vec!["/1-a.html", "/4-d.html"]);
    assert_eq!(page.entries[0].cover, Some(s("https://batcave.biz/a.jpg")));
    assert_eq!(page.entries[1].url, Some(s("https://batcave.biz/4-d.html")));
    assert!(!parse_manga_list(Vec::new(), Some(s("span"))).has_next_page);
}

#[test]
fn latest_cards() {
    let good = LatestCard {
        url: Some(s("https://batcave.biz/5-hero.html")),
        title: Some(s("Hero")),
        chapter_url: Some(s("https://batcave.biz/reader/5/50")),
        chapter_text: Some(s("15.09.2026 - Hero #17")),
        cover: Some(s("https://batcave.biz/h.jpg")),
    };
    let no_date = LatestCard {
        url: Some(s("https://batcave.biz/6-x.html")),
        title: Some(s("X")),
        chapter_url: Some(s("https://batcave.biz/reader/6/60")),
        chapter_text: Some(s("X #1")),
        cover: None,
    };
    let bad_ids = LatestCard {
        url: Some(s("https://batcave.biz/7-y.html")),
        title: Some(s("Y")),
        chapter_url: Some(s("https://batcave.biz/reader/seven/70")),
        chapter_text: Some(s("01.01.2020 - Y #1")),
        cover: None,
    };
    let (entries, more) = parse_latest(vec![good, no_date, bad_ids], true, &read_date, &read_number);
    assert!(more);
    assert_eq!(entries.len(), 1);
    assert_eq!(entries[0].manga.key, "/5-hero.html");
    assert_eq!(entries[0].manga.cover, Some(s("https://batcave.biz/h.jpg")));
    assert_eq!(entries[0].chapter.key, "/reader/5/50");
    assert_eq!(entries[0].chapter.title, None);
    assert_eq!(entries[0].chapter.date_uploaded, Some(20260915));
    let page = latest_listing_page(entries, false);
    assert_eq!(page.entries.len(), 1);
    assert!(!page.has_next_page);
}

#[test]
fn search_requests() {
    let r = search_request(Some(s("bat%20man")), 2, Vec::new());
    assert_eq!(r.url, "https://batcave.biz/search/bat%20man/page/2/");
    assert_eq!(r.form_body, None);

    let r = search_request(None, 1, vec![FilterValue::Sort { id: s("sort"), index: 0, ascending: false }]);
    assert_eq!(r.url, "https://batcave.biz/comix/");
    assert_eq!(r.form_body, None);

    let r = search_request(None, 3, vec![FilterValue::Sort { id: s("sort"), index: 2, ascending: false }]);
    assert_eq!(r.url, "https://batcave.biz/comix/page/3/");
    assert_eq!(r.form_body, Some(sort_body("rating", false, "cat_1")));

    let filters = vec![
        FilterValue::Range { id: s("year"), from: Some(s("1990")), to: None },
        FilterValue::MultiSelect { id: s("publisher"), included: strings(&["1", "2"]), excluded: Vec::new() },
        FilterValue::MultiSelect { id: s("genre"), included: Vec::new(), excluded: Vec::new() },
        FilterValue::Text { id: s("artist"), value: s("Jim%20Lee") },
        FilterValue::Text { id: s("writer"), value: s("") },
        FilterValue::Sort { id: s("sort"), index: 9, ascending: true },
    ];
    let r = search_request(None, 1, filters);
    assert_eq!(r.url, "https://batcave.biz/ComicList/y[from]=1990/p=1,2/a=Jim%20Lee/page/1/");
    assert_eq!(r.form_body, Some(sort_body("date", true, "xfilter")));
    assert_eq!(sort_option(5), "title");
    assert_eq!(sort_option(-1), "date");
}

fn listed(key: &str) -> Manga {
    Manga::listed(s(key), s("Old"), Some(s("old.jpg")), Some(s("url")))
}

#[test]
fn comic_details() {
    let page = MangaPage {
        title: Some(s("Hero")),
        description: Some(s("About")),
        cover: None,
        artist: Some(s("Artist: Jim Lee")),
        writer: Some(s("Author: X")),
        tags: Some(strings(&["Action", "MATURE"])),
        release: Some(s("Release type: Complete")),
    };
    let m = with_details(listed("/1-hero.html"), page);
    assert_eq!(m.key, "/1-hero.html");
    assert_eq!(m.title, "Hero");
    assert_eq!(m.cover, None);
    assert_eq!(m.artists, Some(strings(&["Jim Lee"])));
    assert_eq!(m.authors, None);
    assert_eq!(m.content_rating, ContentRating::Suggestive);
    assert_eq!(m.viewer, Viewer::LeftToRight);
    assert_eq!(m.status, MangaStatus::Completed);
    assert_eq!(m.url, Some(s("url")));

    let page = MangaPage {
        title: None,
        description: None,
        cover: Some(s("c.jpg")),
        artist: None,
        writer: Some(s("Writer: Ann")),
        tags: Some(strings(&["manga"])),
        release: Some(s("Release type: Ongoing")),
    };
    let m = with_details(listed("/2-x.html"), page);
    assert_eq!(m.title, "");
    assert_eq!(m.authors, Some(strings(&["Ann"])));
    assert_eq!(m.content_rating, ContentRating::Safe);
    assert_eq!(m.viewer, Viewer::Unknown);
    assert_eq!(m.status, MangaStatus::Ongoing);
}

#[test]
fn reader_pages() {
    let data = ReaderData { images: strings(&["/img/1.jpg", "https://cdn/2.jpg"]), post_link: s("https://batcave.biz/5-x.html") };
    assert_eq!(page_list(Some(data)), Ok(strings(&["https://batcave.biz/img/1.jpg", "https://cdn/2.jpg"])));
    assert_eq!(page_list(None), Err(s("No page data")));
}

#[test]
fn listings() {
    match listing_request("latest", 2) {
        Ok(ListingRequest::Latest(url)) => assert_eq!(url, "https://batcave.biz/page/2/"),
        other => panic!("unexpected {:?}", other),
    }
    match listing_request("top-rated", 1) {
        Ok(ListingRequest::List(r)) => {
            assert_eq!(r.url, "https://batcave.biz/comix/");
            assert_eq!(r.form_body, Some(sort_body("rating", false, "cat_1")));
        },
        other => panic!("unexpected {:?}", other),
    }
    match listing_request("just-added", 4) {
        Ok(ListingRequest::List(r)) => {
            assert_eq!(r.url, "https://batcave.biz/comix/page/4/");
            assert_eq!(r.form_body, None);
        },
        other => panic!("unexpected {:?}", other),
    }
    match listing_request("popular", 1) {
        Err(m) => assert_eq!(m, "Unknown listing: popular"),
        other => panic!("unexpected {:?}", other),
    }
    assert_eq!(listing("top-rated").name, "Top Rated");
    assert_eq!(listing("latest").name, "Newest Releases");
    assert_eq!(listing("misc").name, "misc");
}

#[test]
fn image_referers() {
    assert_eq!(image_referer("https://batcave.biz/a.jpg"), Some(s("https://batcave.biz/")));
    assert_eq!(image_referer("https://cdn.example/a.jpg"), None);
}

#[test]
fn batcave_deep_links() {
    match deep_link("https://batcave.biz/reader/33408/238878?page=2") {
        Some(LinkTarget::Chapter(key)) => assert_eq!(key, "/reader/33408/238878"),
        other => panic!("unexpected {:?}", other),
    }
    match deep_link("https://batcave.biz/reader/+012/7#top") {
        Some(LinkTarget::Chapter(key)) => assert_eq!(key, "/reader/12/7"),
        other => panic!("unexpected {:?}", other),
    }
    assert!(deep_link("https://batcave.biz/reader/x/7").is_none());
    match deep_link("https://batcave.biz/123-some_slug-2.html") {
        Some(LinkTarget::Manga(key)) => assert_eq!(key, "/123-some_slug-2.html"),
        other => panic!("unexpected {:?}", other),
    }
    assert!(deep_link("https://batcave.biz/12a-slug.html").is_none());
    assert!(deep_link("https://batcave.biz/12-sl ug.html").is_none());
    assert!(deep_link("https://batcave.biz/12-.html").is_none());
    assert!(deep_link("https://batcave.biz/12-slug").is_none());
    assert!(deep_link("https://example.com/12-slug.html").is_none());
}

#[test]
fn chapter_urls_link_back() {
    for (news_id, id) in [(1, 2), (33408, 238878), (-5, 0), (i32::MAX, i32::MIN)] {
        let c = parse_chapter(news_id, id, "", "t", "", &read_date, &read_number);
        match deep_link(c.url.as_deref().unwrap()) {
            Some(LinkTarget::Chapter(key)) => assert_eq!(key, c.key),
            other => panic!("unexpected {:?}", other),
        }
    }
}

#[test]
fn reader_pages_name_their_comic() {
    let data = ReaderData { images: Vec::new(), post_link: s("https://batcave.biz/5-x.html") };
    match chapter_link(s("/reader/5/6"), Some(data)) {
        Some(DeepLinkResult::Chapter { manga_key, key }) => {
            assert_eq!(manga_key, "/5-x.html");
            assert_eq!(key, "/reader/5/6");
        },
        other => panic!("unexpected {:?}", other),
    }
    let elsewhere = ReaderData { images: Vec::new(), post_link: s("https://x.y/5") };
    assert!(chapter_link(s("/reader/5/6"), Some(elsewhere)).is_none());
    assert!(chapter_link(s("/reader/5/6"), None).is_none());
}

#[test]
fn home_pieces() {
    assert_eq!(genre_name("Horror (2971)"), "Horror");
    assert_eq!(genre_name("Sci (Fi) (12)"), "Sci (Fi)");
    assert_eq!(genre_name("Drama"), "Drama");
    let poster = PosterCard { url: Some(s("https://batcave.biz/9-z.html")), title: Some(s("Z")), cover: None };
    let m = parse_poster(poster).unwrap();
    assert_eq!(m.key, "/9-z.html");
    assert_eq!(m.title, "Z");
    let untitled = PosterCard { url: Some(s("https://batcave.biz/9-z.html")), title: None, cover: None };
    assert!(parse_poster(untitled).is_none());
}

#[test]
fn publishers() {
    let (ids, names) = publisher_filter(vec![
        Publisher { id: 12, value: s("DC") },
        Publisher { id: -3, value: s("Marvel") },
    ]);
    assert_eq!(ids, strings(&["12", "-3"]));
    assert_eq!(names, strings(&["DC", "Marvel"]));
}
