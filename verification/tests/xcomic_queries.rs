use comic_sources::model::{DeepLinkResult, FilterValue};
use comic_sources::xcomic::graphql::{
    accept_language, browse_request, chapters_request, extend_chapters, fetch_chapters,
    fetch_comic, fetch_page_urls, graphql_data, parse_browse, parse_latest_uploads,
    parse_recently_added, parse_titles, random_request, sort_id, BrowseParams, GraphQlQuery,
    GraphQlVariables,
};
use comic_sources::xcomic::home::{home_links, home_queries, latest_entries};
use comic_sources::xcomic::models::{
    BrowseResponse, ChapterData, ChapterListResponse, ChapterListResult, ChapterPageData,
    ChapterPagesResponse, ComicData, ComicNodeResponse, GraphQlError, GraphQlResponse,
    LatestUploadsItem, LatestUploadsResponse, LatestUploadsResult, Node, Paging,
    RecentlyAddedResponse, RecentlyAddedResult, TitleNode,
};
use comic_sources::xcomic::settings::{
    content_ratings, content_types, deduplicate_chapters, excluded_genres, languages,
    normalize_language, show_source_in_title, Preferences,
};
use comic_sources::xcomic::{
    base_url, browse_page, chapters_from, deep_link, image_headers, page_list, pages_from_urls,
    search_params,
};

fn s(text: &str) -> String {
    text.to_string()
}

fn strings(texts: &[&str]) -> Vec<String> {
    texts.iter().map(|t| t.to_string()).collect()
}

fn comic(id: &str) -> ComicData {
    ComicData {
        id: s(id),
        name: s("Name"),
        sub_name: None,
        kind: None,
        demographics: None,
        content_rating: None,
        genres: None,
        tags: None,
        author_nodes: None,
        artist_nodes: None,
        tag_nodes: None,
        summary: None,
        description: None,
        url_path: None,
        url_cover: None,
        original_status: None,
        upload_status: None,
        read_direction: None,
        translated_language: None,
        chapter_count: None,
    }
}

fn chapter(id: &str) -> ChapterData {
    ChapterData {
        id: s(id),
        db_status: None,
        serial: None,
        cha_num: None,
        vol_num: None,
        dname: None,
        title: None,
        url_path: None,
        date_create: None,
        date_modify: None,
        date_public: None,
        src_name: None,
        profile_nodes: None,
        group_nodes: None,
        comic_node: None,
    }
}

fn ok<T>(data: T) -> GraphQlResponse<T> {
    GraphQlResponse { data: Some(data), errors: Vec::new() }
}

fn failed<T>(messages: &[&str]) -> GraphQlResponse<T> {
    GraphQlResponse {
        data: None,
        errors: messages.iter().map(|m| GraphQlError { message: s(m) }).collect(),
    }
}

fn defaults() -> Preferences {
    Preferences::from_stored(None, None, None, None, None, None)
}

const BASE: &str = "https://xcomic.me";

#[test]
fn settings_defaults() {
    assert_eq!(content_types(None).len(), 8);
    assert_eq!(content_ratings(None), strings(&["safe", "suggestive", "erotica", "pornographic"]));
    assert_eq!(content_ratings(Some(Vec::new())), Vec::<String>::new());
    assert_eq!(excluded_genres(None), Vec::<String>::new());
    assert!(show_source_in_title(None));
    assert!(!show_source_in_title(Some(false)));
    assert!(deduplicate_chapters(None));
    assert_eq!(languages(None), strings(&["en"]));
    assert_eq!(languages(Some(Vec::new())), strings(&["en"]));
    assert_eq!(languages(Some(strings(&["pt-BR", "es-419", "fr"]))), strings(&["pt_br", "es_419", "fr"]));
}

#[test]
fn normalize_language_forms() {
    assert_eq!(normalize_language("pt_br"), Some(s("pt-BR")));
    assert_eq!(normalize_language(" es_419 "), Some(s("es-419")));
    assert_eq!(normalize_language("zh_hk"), Some(s("zh-hk")));
    assert_eq!(normalize_language("  "), None);
}

#[test]
fn normalize_inverts_api_codes() {
    for code in ["pt-BR", "es-419", "en", "zh-hk", "fr"] {
        let api = languages(Some(vec![s(code)]));
        assert_eq!(normalize_language(&api[0]), Some(s(code)));
    }
}

#[test]
fn accept_language_forms() {
    assert_eq!(accept_language(&[]), "en");
    assert_eq!(accept_language(&strings(&["pt_br", "en"])), "pt-br,en");
}

#[test]
fn graphql_errors() {
    assert_eq!(graphql_data(ok(5)), Ok(5));
    assert_eq!(graphql_data::<i32>(failed(&["boom", "later"])), Err(s("XCOMIC: boom")));
    assert_eq!(graphql_data::<i32>(failed(&[])), Err(s("XCOMIC returned an empty response")));
}

#[test]
fn sort_ids_by_index() {
    assert_eq!(sort_id(0), Some(s("field_score")));
    assert_eq!(sort_id(8), Some(s("field_chapter")));
    assert_eq!(sort_id(9), None);
    assert_eq!(sort_id(-1), None);
}

#[test]
fn browse_select_defaults() {
    let prefs = Preferences::from_stored(None, None, Some(Vec::new()), None, None, None);
    let mut params = BrowseParams::new("field_score", 2, 48, &prefs);
    let select = params.select();
    assert_eq!(select.content_ratings, strings(&["safe"]));
    assert_eq!(select.types, Vec::<String>::new());
    assert_eq!(select.word, None);
    assert_eq!(select.original_status, None);
    assert_eq!(select.include_mode, "and");
    assert_eq!(select.exclude_mode, "or");
    assert_eq!(select.translated_languages, strings(&["en"]));
    params.word = s("hero");
    params.types = strings(&["manga"]);
    params.chapter_count = s("10-20");
    let select = params.select();
    assert_eq!(select.word, Some(s("hero")));
    assert_eq!(select.types, strings(&["manga"]));
    assert_eq!(select.chapter_count, Some(s("10-20")));
}

#[test]
fn feeds_allow_by_settings() {
    let prefs = Preferences::from_stored(
        Some(strings(&["gore"])),
        Some(strings(&["manga"])),
        Some(strings(&["safe"])),
        Some(strings(&["en"])),
        None,
        None,
    );
    let params = BrowseParams::new("field_update", 1, 48, &prefs);
    let mut c = comic("1");
    c.translated_language = Some(s("en"));
    assert!(params.allows(&c));
    c.kind = Some(s("manhwa"));
    assert!(!params.allows(&c));
    c.kind = Some(s("manga"));
    c.genres = Some(strings(&["gore"]));
    assert!(!params.allows(&c));
    c.genres = Some(strings(&["Hentai"]));
    assert!(!params.allows(&c));
    c.genres = None;
    c.content_rating = Some(s("erotica"));
    assert!(!params.allows(&c));
    c.content_rating = None;
    c.translated_language = Some(s("fr"));
    assert!(!params.allows(&c));
    assert!(!params.allows_pornographic());
}

#[test]
fn requests_carry_headers() {
    let prefs = defaults();
    let params = BrowseParams::new("field_score", 1, 48, &prefs);
    let call = browse_request(BASE, &strings(&["pt_br"]), &params);
    assert_eq!(call.url, "https://xcomic.me/query/");
    assert_eq!(call.query, GraphQlQuery::Browse);
    assert_eq!(
        call.headers,
        vec![
            (s("Content-Type"), s("application/json")),
            (s("Accept"), s("application/json")),
            (s("Accept-Language"), s("pt-br")),
            (s("Referer"), s("https://xcomic.me/")),
            (s("Origin"), s("https://xcomic.me")),
        ]
    );
    let random = random_request(BASE, &[]);
    assert!(matches!(random.variables, GraphQlVariables::Amount(12)));
    let chapters = chapters_request(BASE, &[], false, "77", 3);
    assert_eq!(chapters.query, GraphQlQuery::Chapters);
    match chapters.variables {
        GraphQlVariables::ChapterPage { comic_id, page, size } => {
            assert_eq!(comic_id, "77");
            assert_eq!(page, 3);
            assert_eq!(size, 100);
        },
        other => panic!("unexpected {:?}", other),
    }
    assert_eq!(chapters_request(BASE, &[], true, "77", 1).query, GraphQlQuery::UniqueChapters);
}

fn title(id: &str, editions: &[(&str, &str)]) -> TitleNode {
    let mut data = comic("");
    data.url_cover = Some(s(&format!("/covers/{id}.jpg")));
    TitleNode {
        data,
        comic_nodes: Some(
            editions
                .iter()
                .map(|(eid, lang)| {
                    let mut e = comic(eid);
                    e.translated_language = Some(s(lang));
                    Node { data: Some(e) }
                })
                .collect(),
        ),
    }
}

#[test]
fn browse_pages() {
    let prefs = Preferences::from_stored(None, None, None, Some(strings(&["en", "fr"])), None, None);
    let mut params = BrowseParams::new("field_score", 1, 2, &prefs);
    let response = ok(BrowseResponse {
        items: Some(vec![title("t1", &[("a", "fr"), ("b", "en")]), title("t2", &[("c", "de")])]),
    });
    let (comics, more) = parse_browse(response, &params).unwrap();
    assert!(more);
    let ids: Vec<&str> = comics.iter().map(|c| c.id.as_str()).collect();
    assert_eq!(ids, vec!["b"]);
    params.word = s("x");
    let response = ok(BrowseResponse { items: Some(vec![title("t1", &[("a", "fr"), ("b", "en")])]) });
    let (comics, served) = parse_titles(response, &params).unwrap();
    assert_eq!(served, 1);
    assert_eq!(comics.len(), 2);
    let page = browse_page(
        ok(BrowseResponse { items: Some(vec![title("t1", &[("a", "fr")])]) }),
        &params,
        BASE,
        true,
    )
    .unwrap();
    assert!(!page.has_next_page);
    assert_eq!(page.entries[0].cover, Some(s("https://xcomic.me/covers/t1.jpg")));
    assert_eq!(
        parse_browse(failed(&["bad"]), &params).map(|r| r.1),
        Err(s("XCOMIC: bad"))
    );
}

#[test]
fn recently_added_filters() {
    let prefs = Preferences::from_stored(None, None, Some(strings(&["safe"])), Some(strings(&["en"])), None, None);
    let params = BrowseParams::new("field_update", 1, 48, &prefs);
    let mut porn = title("p", &[("p1", "en")]);
    porn.data.genres = Some(strings(&["Hentai"]));
    let response = ok(RecentlyAddedResponse {
        recently_added: Some(RecentlyAddedResult {
            items: Some(vec![title("t", &[("x", "en"), ("y", "en")]), porn]),
        }),
    });
    let comics = parse_recently_added(response, &params).unwrap();
    let ids: Vec<&str> = comics.iter().map(|c| c.id.as_str()).collect();
    assert_eq!(ids, vec!["x"]);
    let empty = ok(RecentlyAddedResponse { recently_added: None });
    assert!(parse_recently_added(empty, &params).unwrap().is_empty());
}

fn feed_chapter(id: &str, comic_id: &str, date: i64) -> Node<ChapterData> {
    let mut c = chapter(id);
    c.date_public = Some(date);
    let mut owner = comic(comic_id);
    owner.translated_language = Some(s("en"));
    owner.url_cover = Some(s("/c.jpg"));
    c.comic_node = Some(Node { data: Some(owner) });
    Node { data: c }
}

#[test]
fn latest_uploads_newest_per_comic() {
    let params = BrowseParams::new("field_update", 1, 48, &defaults());
    let mut gone = feed_chapter("gone", "z", 999);
    gone.data.db_status = Some(s("deleted"));
    let response = ok(LatestUploadsResponse {
        latest_uploads: Some(LatestUploadsResult {
            items: Some(vec![
                LatestUploadsItem { chapters: Some(vec![feed_chapter("1", "a", 10), feed_chapter("2", "a", 30), gone]) },
                LatestUploadsItem { chapters: None },
                LatestUploadsItem { chapters: Some(vec![feed_chapter("3", "b", 20), feed_chapter("4", "c", 30)]) },
            ]),
        }),
    });
    let picks = parse_latest_uploads(response, &params).unwrap();
    let ids: Vec<(&str, &str)> = picks.iter().map(|(c, ch)| (c.id.as_str(), ch.id.as_str())).collect();
    assert_eq!(ids, vec![("a", "2"), ("c", "4"), ("b", "3")]);
    assert!(picks.iter().all(|(_, ch)| ch.comic_node.is_none()));
    for i in 0..picks.len() {
        for j in (i + 1)..picks.len() {
            assert_ne!(picks[i].0.id, picks[j].0.id);
        }
    }
    let entries = latest_entries(picks, BASE, false);
    assert_eq!(entries.len(), 3);
    assert_eq!(entries[0].chapter.language, Some(s("en")));
    assert_eq!(entries[0].chapter.date_uploaded, Some(30));
}

#[test]
fn comic_and_pages_answers() {
    assert_eq!(fetch_comic(ok(ComicNodeResponse { comic: Some(Node { data: comic("9") }) })).unwrap().id, "9");
    assert_eq!(
        fetch_comic(ok(ComicNodeResponse { comic: None })).map(|c| c.id),
        Err(s("Manga not found"))
    );
    let pages = ok(ChapterPagesResponse {
        chapter: Some(Node { data: Some(ChapterPageData { image_urls: Some(strings(&["/a.jpg", " ", "//cdn/b.jpg"])) }) }),
    });
    assert_eq!(fetch_page_urls(pages).unwrap().len(), 3);
    let pages = ok(ChapterPagesResponse {
        chapter: Some(Node { data: Some(ChapterPageData { image_urls: Some(strings(&["/a.jpg", " ", "//cdn/b.jpg"])) }) }),
    });
    assert_eq!(page_list(pages, BASE).unwrap(), strings(&["https://xcomic.me/a.jpg", "https://cdn/b.jpg"]));
    assert_eq!(pages_from_urls(BASE, strings(&["  "])), Err(s("No pages found for this chapter")));
    assert_eq!(
        page_list(ok(ChapterPagesResponse { chapter: None }), BASE),
        Err(s("No pages found for this chapter"))
    );
}

fn chapter_page(ids: &[&str], next: Option<i64>, total: Option<i64>) -> GraphQlResponse<ChapterListResponse> {
    ok(ChapterListResponse {
        chapter_list: Some(ChapterListResult {
            paging: Some(Paging { next, total }),
            items: Some(ids.iter().map(|id| Node { data: chapter(id) }).collect()),
        }),
    })
}

#[test]
fn chapter_list_pages() {
    let (first, batches) = fetch_chapters(chapter_page(&["1", "2"], Some(2), Some(1000)), false).unwrap();
    assert_eq!(first.len(), 2);
    assert_eq!(batches, vec![vec![2, 3, 4], vec![5, 6, 7], vec![8, 9, 10]]);
    let (_, batches) = fetch_chapters(chapter_page(&["1"], Some(2), Some(1001)), true).unwrap();
    assert_eq!(batches, vec![vec![2]]);
    let (_, batches) = fetch_chapters(chapter_page(&["1"], Some(0), Some(5000)), false).unwrap();
    assert!(batches.is_empty());
    let (_, batches) = fetch_chapters(chapter_page(&["1"], Some(1), Some(100)), false).unwrap();
    assert!(batches.is_empty());
    let (_, batches) = fetch_chapters(chapter_page(&["1"], Some(1), Some(450)), false).unwrap();
    assert_eq!(batches, vec![vec![2, 3, 4], vec![5]]);

    let mut chapters = first;
    assert!(extend_chapters(&mut chapters, chapter_page(&["3"], None, None)).is_ok());
    assert_eq!(chapters.len(), 3);
    assert_eq!(extend_chapters(&mut chapters, failed(&["slow down"])), Err(s("XCOMIC: slow down")));
    assert_eq!(chapters.len(), 3);
    let listed = chapters_from(chapters, BASE, Some("T"));
    assert_eq!(listed.len(), 3);
    assert_eq!(listed[2].key, "3");
    assert_eq!(listed[0].scanlators, Some(strings(&["T"])));
}

#[test]
fn search_filters_apply_in_order() {
    let prefs = Preferences::from_stored(Some(strings(&["gore"])), None, Some(strings(&["safe"])), None, None, None);
    let filters = vec![
        FilterValue::Sort { id: s("sort"), index: 5, ascending: false },
        FilterValue::Sort { id: s("other"), index: 1, ascending: false },
        FilterValue::Select { id: s("original_status"), value: s("ongoing") },
        FilterValue::Text { id: s("chapter_count_custom"), value: s(" 10 - 20 ") },
        FilterValue::Text { id: s("year"), value: s("1990-2000") },
        FilterValue::MultiSelect { id: s("genres"), included: strings(&["action"]), excluded: strings(&["horror"]) },
        FilterValue::MultiSelect { id: s("types"), included: Vec::new(), excluded: Vec::new() },
        FilterValue::MultiSelect { id: s("demographics"), included: strings(&["shounen"]), excluded: Vec::new() },
    ];
    let params = search_params(Some(s("hero")), 3, filters, &prefs);
    assert_eq!(params.sortby, "field_follow");
    assert_eq!(params.page, 3);
    assert_eq!(params.size, 48);
    assert_eq!(params.word, "hero");
    assert_eq!(params.original_status, "ongoing");
    assert_eq!(params.chapter_count, "10-20");
    assert_eq!((params.year_min, params.year_max), (Some(1990), Some(2000)));
    assert_eq!(params.included_genres, strings(&["action"]));
    assert_eq!(params.excluded_genres, strings(&["gore", "horror"]));
    assert_eq!(params.types.len(), 8);
    assert_eq!(params.demographics, strings(&["shounen"]));
    assert_eq!(params.content_ratings, strings(&["safe"]));
    assert_eq!(params.translated_languages, strings(&["en"]));
}

#[test]
fn base_url_and_links() {
    assert_eq!(base_url(None), BASE);
    assert_eq!(base_url(Some(s(""))), BASE);
    assert_eq!(base_url(Some(s("https://mirror.example"))), "https://mirror.example");
    match deep_link("https://xcomic.me/comic/5-en/6-ch", None) {
        Ok(Some(DeepLinkResult::Chapter { manga_key, key })) => {
            assert_eq!(manga_key, "5");
            assert_eq!(key, "6");
        },
        other => panic!("unexpected {:?}", other),
    }
    match deep_link("https://xcomic.me/title/8-x", Some(s("12"))) {
        Ok(Some(DeepLinkResult::Manga { key })) => assert_eq!(key, "12"),
        other => panic!("unexpected {:?}", other),
    }
    assert_eq!(
        deep_link("https://xcomic.me/title/8-x", None).map(|r| r.is_some()),
        Err(s("No comics are available for this series"))
    );
    assert!(matches!(deep_link("https://xcomic.me/", None), Ok(None)));
    assert_eq!(
        image_headers(BASE),
        vec![(s("Referer"), s("https://xcomic.me/")), (s("Origin"), s("https://xcomic.me"))]
    );
}

#[test]
fn home_sections() {
    let queries = home_queries(&defaults());
    assert_eq!(queries.top_rated.size, 10);
    assert_eq!(queries.most_followed.sortby, "field_follow");
    assert_eq!(queries.most_chapters.sortby, "field_chapter");
    assert_eq!(queries.feed.sortby, "field_update");
    let mut with_cover = comic("1");
    with_cover.url_cover = Some(s("/c.jpg"));
    let links = home_links(vec![comic("0"), with_cover], BASE, true);
    assert_eq!(links.len(), 1);
    assert_eq!(links[0].key, "1");
}
