use comic_sources::model::{ChapterNumber, ContentRating, DeepLinkResult, FilterValue, Manga, MangaStatus, Viewer};
use comic_sources::webtoons::models::{chapters_from_episodes, unescape, Episode};
use comic_sources::webtoons::{
    deep_link, episodes_url, image_url, listing_url, page_images, parse_manga_list, query_param,
    search_request, with_details, DetailsPage, TitleCard,
};

fn s(text: &str) -> String {
    text.to_string()
}

fn strings(texts: &[&str]) -> Vec<String> {
    texts.iter().map(|t| t.to_string()).collect()
}

#[test]
fn image_hosts() {
    assert_eq!(
        image_url(s("https://webtoon-phinf.pstatic.net/2024/a.jpg")),
        "https://swebtoon-phinf.pstatic.net/2024/a.jpg"
    );
    assert_eq!(image_url(s("https://other/a.jpg")), "https://other/a.jpg");
    assert_eq!(
        page_images(vec![Some(s("https://webtoon-phinf.pstatic.net/1.jpg")), None, Some(s("x"))]),
        strings(&["https://swebtoon-phinf.pstatic.net/1.jpg", "x"])
    );
}

#[test]
fn title_list_cards() {
    let cards = vec![
        TitleCard {
            url: Some(s("https://www.webtoons.com/en/fantasy/tower/list?title_no=95")),
            title: Some(s("Tower")),
            cover: Some(s("https://webtoon-phinf.pstatic.net/t.jpg")),
        },
        TitleCard { url: Some(s("https://m.webtoons.com/en/x/list?title_no=1")), title: Some(s("X")), cover: None },
        TitleCard { url: Some(s("https://www.webtoons.com/en/y/list?title_no=2")), title: None, cover: None },
    ];
    let list = parse_manga_list(cards);
    assert_eq!(list.len(), 1);
    assert_eq!(list[0].key, "/en/fantasy/tower/list?title_no=95");
    assert_eq!(list[0].cover, Some(s("https://swebtoon-phinf.pstatic.net/t.jpg")));
}

#[test]
fn query_params() {
    assert_eq!(query_param("a=1&title_no=95&b", "title_no"), Some(s("95")));
    assert_eq!(query_param("title_nox=1&title_no=2", "title_no"), Some(s("2")));
    assert_eq!(query_param("title_no", "title_no"), None);
    assert_eq!(query_param("", "title_no"), None);
    assert_eq!(query_param("title_no=", "title_no"), Some(s("")));
}

#[test]
fn search_urls() {
    let r = search_request(Some(s("tower")), 2, &Vec::new());
    assert_eq!(r.url, "https://www.webtoons.com/en/search");
    assert_eq!(r.params, vec![(s("keyword"), s("tower"))]);
    let filters = vec![
        FilterValue::Select { id: s("type"), value: s("originals") },
        FilterValue::Select { id: s("genre"), value: s("romance") },
        FilterValue::Sort { id: s("sort"), index: 2, ascending: false },
    ];
    let r = search_request(Some(s("tower")), 2, &filters);
    assert_eq!(r.url, "https://www.webtoons.com/en/search/originals");
    assert_eq!(r.params, vec![(s("keyword"), s("tower")), (s("page"), s("2"))]);
    let r = search_request(Some(s("")), 1, &filters);
    assert_eq!(r.url, "https://www.webtoons.com/en/genres/romance?sortOrder=UPDATE");
    assert!(r.params.is_empty());
    let r = search_request(None, 1, &vec![FilterValue::Sort { id: s("sort"), index: 1, ascending: false }]);
    assert_eq!(r.url, "https://www.webtoons.com/en/ranking/popular");
}

fn page() -> DetailsPage {
    DetailsPage {
        title: Some(s("Tower of God")),
        has_info: true,
        author_links: Vec::new(),
        author_area: Some(s(" SIU / Other  / ")),
        genres: Some(vec![Some(s("Fantasy")), None]),
        summary: Some(s("Climb.")),
        day_info: Some(s("UP EVERY SUNDAY")),
        og_image: Some(s("og.jpg")),
    }
}

#[test]
fn series_details() {
    let manga = Manga::listed(s("/en/fantasy/tower/list?title_no=95"), s("Old"), None, None);
    let m = with_details(manga, page());
    assert_eq!(m.title, "Tower of God");
    assert_eq!(m.authors, Some(strings(&["SIU", "Other"])));
    assert_eq!(m.tags, Some(strings(&["Fantasy"])));
    assert_eq!(m.description, Some(s("Climb.")));
    assert_eq!(m.status, MangaStatus::Ongoing);
    assert_eq!(m.cover, Some(s("og.jpg")));
    assert_eq!(m.content_rating, ContentRating::Safe);
    assert_eq!(m.viewer, Viewer::Webtoon);
    assert_eq!(m.url, Some(s("https://www.webtoons.com/en/fantasy/tower/list?title_no=95")));

    let mut canvas = page();
    canvas.author_links = vec![Some(s("A")), None, Some(s("B"))];
    canvas.day_info = Some(s("COMPLETED"));
    canvas.title = None;
    let manga = Manga::listed(s("/en/canvas/x/list?title_no=1"), s("Kept"), Some(s("poster.jpg")), None);
    let m = with_details(manga, canvas);
    assert_eq!(m.title, "Kept");
    assert_eq!(m.authors, Some(strings(&["A", "B"])));
    assert_eq!(m.status, MangaStatus::Completed);
    assert_eq!(m.cover, Some(s("poster.jpg")));

    let mut bare = page();
    bare.has_info = false;
    bare.day_info = None;
    let m = with_details(Manga::listed(s("/k"), s("K"), None, None), bare);
    assert_eq!(m.authors, None);
    assert_eq!(m.status, MangaStatus::Unknown);
}

#[test]
fn episode_api_urls() {
    assert_eq!(
        episodes_url("/en/fantasy/tower/list?title_no=95"),
        Ok(s("https://m.webtoons.com/api/v1/webtoon/95/episodes?pageSize=99999"))
    );
    assert_eq!(
        episodes_url("/en/canvas/x/list?title_no=7&a=b"),
        Ok(s("https://m.webtoons.com/api/v1/canvas/7/episodes?pageSize=99999&readingLanguageCode=en"))
    );
    assert_eq!(episodes_url("/en/x/list"), Err(s("Missing title number")));
}

#[test]
fn unescaped_titles() {
    assert_eq!(unescape("  Tom &amp; Jerry &lt;3 "), "Tom & Jerry <3");
    assert_eq!(unescape("&quot;Hi&quot; &#39;a&#039;"), "\"Hi\" 'a'");
    assert_eq!(unescape("&amp;lt;"), "&lt;");
    assert_eq!(unescape(" plain "), "plain");
}

fn episode(title: &str, link: &str, millis: i64) -> Episode {
    Episode { episode_title: s(title), viewer_link: s(link), exposure_date_millis: millis, thumbnail: Some(s("/t.jpg")) }
}

#[test]
fn episodes_become_chapters() {
    let chapter = episode("Ep &amp; 1", "/en/x/ep1/viewer?title_no=1&episode_no=1&readingLanguageCode=en", -1500)
        .into_chapter(ChapterNumber::Whole(4));
    assert_eq!(chapter.key, "/en/x/ep1/viewer?title_no=1&episode_no=1");
    assert_eq!(chapter.url, Some(s("https://www.webtoons.com/en/x/ep1/viewer?title_no=1&episode_no=1")));
    assert_eq!(chapter.title, Some(s("Ep & 1")));
    assert_eq!(chapter.date_uploaded, Some(-1));
    assert_eq!(chapter.thumbnail, Some(s("https://swebtoon-phinf.pstatic.net/t.jpg")));
    assert_eq!(chapter.chapter_number, Some(ChapterNumber::Whole(4)));

    let chapters = chapters_from_episodes(vec![
        episode("one", "/1", 1_000),
        episode("two", "/2", 2_999),
        episode("three", "/3", 3_000),
    ]);
    let keys: Vec<&str> = chapters.iter().map(|c| c.key.as_str()).collect();
    assert_eq!(keys, vec!["/3", "/2", "/1"]);
    assert_eq!(chapters[0].chapter_number, Some(ChapterNumber::Whole(3)));
    assert_eq!(chapters[2].chapter_number, Some(ChapterNumber::Whole(1)));
    assert_eq!(chapters[1].date_uploaded, Some(2));
}

#[test]
fn listing_urls() {
    assert_eq!(listing_url("latest", 0), "https://www.webtoons.com/en/originals/thursday?sortOrder=UPDATE");
    assert_eq!(listing_url("latest", 86400 * 3 + 5), "https://www.webtoons.com/en/originals/sunday?sortOrder=UPDATE");
    assert_eq!(listing_url("latest", 86400 * 13), "https://www.webtoons.com/en/originals/wednesday?sortOrder=UPDATE");
    assert_eq!(listing_url("latest", -100), "https://www.webtoons.com/en/originals/thursday?sortOrder=UPDATE");
    assert_eq!(listing_url("trending", 0), "https://www.webtoons.com/en/ranking/trending");
}

#[test]
fn webtoons_deep_links() {
    match deep_link("https://www.webtoons.com/en/fantasy/tower-of-god/list?title_no=95") {
        Some(DeepLinkResult::Manga { key }) => assert_eq!(key, "/en/fantasy/tower-of-god/list?title_no=95"),
        other => panic!("unexpected {:?}", other),
    }
    match deep_link("https://m.webtoons.com/en/fantasy/tower-of-god/season-1-ep-0/viewer?title_no=95&episode_no=1") {
        Some(DeepLinkResult::Chapter { manga_key, key }) => {
            assert_eq!(manga_key, "/en/fantasy/tower-of-god/list?title_no=95");
            assert_eq!(key, "/en/fantasy/tower-of-god/season-1-ep-0/viewer?title_no=95&episode_no=1");
        },
        other => panic!("unexpected {:?}", other),
    }
    assert!(deep_link("https://www.webtoons.com/en/x/viewer?title_no=95").is_none());
    assert!(deep_link("https://www.webtoons.com/en/x/list").is_none());
    assert!(deep_link("https://example.com/en/x/list?title_no=1").is_none());
    assert!(deep_link("https://webtoons.com/en/x/other?title_no=1").is_none());
}

#[test]
fn linked_series_keep_title_number() {
    for url in [
        "https://www.webtoons.com/en/fantasy/tower-of-god/list?title_no=95&x=1",
        "https://webtoons.com/en/a/b/ep/viewer?episode_no=3&title_no=12",
    ] {
        let key = match deep_link(url) {
            Some(DeepLinkResult::Manga { key }) => key,
            Some(DeepLinkResult::Chapter { manga_key, .. }) => manga_key,
            None => panic!("no link"),
        };
        assert!(episodes_url(&key).is_ok());
        let query = url.split_once('?').unwrap().1;
        assert_eq!(query_param(key.split_once('?').unwrap().1, "title_no"), query_param(query, "title_no"));
    }
}
