use comic_sources::model::{ContentRating, MangaStatus, Viewer};
use comic_sources::xcomic::helpers::{
    absolute_url, bracketed_suffix, chapter_count_range, chapter_from_data, chapter_title,
    clean_text, comic_key, content_rating, editions_of, is_pornographic, language_from_path,
    machine_tag, manga_from_data, node_names, parse_link, parse_range, site_url, status,
    target_from_query, team_of, title_case_text, title_edition, unix_seconds, viewer, Target,
};
use comic_sources::xcomic::models::{ChapterData, ComicData, NamedData, Node, Summary, TitleNode};

fn s(text: &str) -> String {
    text.to_string()
}

fn strings(texts: &[&str]) -> Vec<String> {
    texts.iter().map(|t| t.to_string()).collect()
}

fn comic(id: &str, name: &str) -> ComicData {
    ComicData {
        id: s(id),
        name: s(name),
        sub_name: None,
        kind: None,
        demographics: None,
        content_rating: None,
        genres: None,
        tags: None,
        author_nodes: None,
        artist_nodes: None,
        tag_nodes: None,
        summary: None,
        description: None,
        url_path: None,
        url_cover: None,
        original_status: None,
        upload_status: None,
        read_direction: None,
        translated_language: None,
        chapter_count: None,
    }
}

fn chapter(id: &str) -> ChapterData {
    ChapterData {
        id: s(id),
        db_status: None,
        serial: None,
        cha_num: None,
        vol_num: None,
        dname: None,
        title: None,
        url_path: None,
        date_create: None,
        date_modify: None,
        date_public: None,
        src_name: None,
        profile_nodes: None,
        group_nodes: None,
        comic_node: None,
    }
}

fn named(name: Option<&str>) -> Node<Option<NamedData>> {
    Node { data: Some(NamedData { name: name.map(s) }) }
}

const BASE: &str = "https://xcomic.me";

#[test]
fn absolute_url_forms() {
    assert_eq!(absolute_url(BASE, "   "), "");
    assert_eq!(absolute_url(BASE, " https://cdn.example/a.jpg "), "https://cdn.example/a.jpg");
    assert_eq!(absolute_url(BASE, "http://x.y/z"), "http://x.y/z");
    assert_eq!(absolute_url(BASE, "//cdn.example/a.jpg"), "https://cdn.example/a.jpg");
    assert_eq!(absolute_url(BASE, "/comic/1"), "https://xcomic.me/comic/1");
    assert_eq!(absolute_url(BASE, "comic/1"), "https://xcomic.me/comic/1");
}

#[test]
fn absolute_url_twice_is_once() {
    for url in ["", " /a ", "b", "//c/d", "https://e/f", "  ht tp "] {
        let once = absolute_url(BASE, url);
        assert_eq!(absolute_url(BASE, &once), once);
    }
}

#[test]
fn site_url_drops_blanks() {
    assert_eq!(site_url(BASE, None), None);
    assert_eq!(site_url(BASE, Some(s("  "))), None);
    assert_eq!(site_url(BASE, Some(s("/p"))), Some(s("https://xcomic.me/p")));
}

#[test]
fn parse_range_forms() {
    assert_eq!(parse_range("1990-2000"), (Some(1990), Some(2000)));
    assert_eq!(parse_range(" 10 - 20 "), (Some(10), Some(20)));
    assert_eq!(parse_range("2001"), (Some(2001), Some(2001)));
    assert_eq!(parse_range("-5"), (None, Some(5)));
    assert_eq!(parse_range("abc"), (None, None));
    assert_eq!(parse_range("+7-x"), (Some(7), None));
}

#[test]
fn chapter_count_range_forms() {
    assert_eq!(chapter_count_range(" 10 - 20 "), "10-20");
    assert_eq!(chapter_count_range("5"), "5");
    assert_eq!(chapter_count_range("5-5"), "5");
    assert_eq!(chapter_count_range("-30"), "30");
    assert_eq!(chapter_count_range("7-"), "7");
    assert_eq!(chapter_count_range("many"), "");
}

#[test]
fn chapter_count_range_twice_is_once() {
    for value in ["10-20", " 3 ", "x-4", "", "100-1"] {
        let once = chapter_count_range(value);
        assert_eq!(chapter_count_range(&once), once);
    }
}

#[test]
fn clean_and_title_case() {
    assert_eq!(clean_text("  a \t b\n\nc  "), "a b c");
    assert_eq!(title_case_text("hello_world foo"), "Hello World Foo");
    assert_eq!(title_case_text("élan 2nd_wind"), "Élan 2nd Wind");
    assert_eq!(title_case_text("straße"), "Straße");
    assert_eq!(title_case_text("ßa"), "SSa");
}

#[test]
fn node_names_keep_nonblank_cleaned() {
    let nodes = vec![named(Some(" Ann  Lee ")), named(None), named(Some("  ")), Node { data: None }, named(Some("Bo"))];
    assert_eq!(node_names(nodes), strings(&["Ann Lee", "Bo"]));
}

#[test]
fn pornographic_by_rating_or_genre() {
    assert!(is_pornographic(Some("pornographic"), None));
    let genres = strings(&[" Hentai ", "action"]);
    assert!(is_pornographic(None, Some(&genres)));
    let clean = strings(&["action"]);
    assert!(!is_pornographic(Some("erotica"), Some(&clean)));
    assert_eq!(content_rating(Some("erotica"), &clean), ContentRating::Suggestive);
    assert_eq!(content_rating(None, &genres), ContentRating::NSFW);
    assert_eq!(content_rating(Some("safe"), &clean), ContentRating::Safe);
}

#[test]
fn status_words() {
    assert_eq!(status(Some("completed"), Some("ongoing")), MangaStatus::Completed);
    assert_eq!(status(None, Some("releasing")), MangaStatus::Ongoing);
    assert_eq!(status(Some("on hiatus"), None), MangaStatus::Hiatus);
    assert_eq!(status(Some("cancelled"), None), MangaStatus::Cancelled);
    assert_eq!(status(None, None), MangaStatus::Unknown);
}

#[test]
fn viewer_choices() {
    let none: Vec<String> = Vec::new();
    assert_eq!(viewer(Some("ttb"), Some("manga"), &none), Viewer::Webtoon);
    assert_eq!(viewer(Some("rtl"), None, &none), Viewer::RightToLeft);
    assert_eq!(viewer(Some("ltr"), None, &none), Viewer::LeftToRight);
    assert_eq!(viewer(None, Some("manhwa"), &none), Viewer::Webtoon);
    assert_eq!(viewer(None, None, &strings(&["longstrip"])), Viewer::Webtoon);
    assert_eq!(viewer(None, Some("manga"), &none), Viewer::RightToLeft);
    assert_eq!(viewer(None, Some("western"), &none), Viewer::Unknown);
}

#[test]
fn machine_tags_and_teams() {
    let tag: Vec<char> = "mangadex:abc-1".chars().collect();
    assert!(machine_tag(&tag));
    let not_tag: Vec<char> = "Team: Name".chars().collect();
    assert!(!machine_tag(&not_tag));
    let name: Vec<char> = "One Piece [ Team X ] ".chars().collect();
    assert_eq!(bracketed_suffix(&name), Some("Team X".chars().collect::<Vec<char>>()));
    let plain: Vec<char> = "One Piece".chars().collect();
    assert_eq!(bracketed_suffix(&plain), None);

    let mut c = comic("1", "One Piece [Team X]");
    assert_eq!(team_of(&c), Some(s("Team X")));
    c.sub_name = Some(s("  Scans  "));
    assert_eq!(team_of(&c), Some(s("Scans")));
    c.sub_name = Some(s("src:123"));
    assert_eq!(team_of(&c), Some(s("Team X")));
    let tagged = comic("2", "Name [src:9]");
    assert_eq!(team_of(&tagged), None);
}

fn edition(id: &str, name: &str, language: Option<&str>, chapters: Option<i64>) -> Node<Option<ComicData>> {
    let mut c = comic(id, name);
    c.translated_language = language.map(s);
    c.chapter_count = chapters;
    Node { data: Some(c) }
}

fn title_node() -> TitleNode {
    let mut data = comic("", "The Title");
    data.url_cover = Some(s("/cover.jpg"));
    data.content_rating = Some(s("safe"));
    data.genres = Some(strings(&["action"]));
    TitleNode {
        data,
        comic_nodes: Some(vec![
            edition("a", "A", Some("fr"), Some(10)),
            edition("b", " ", Some("en"), Some(5)),
            edition("c", "C", Some("en"), Some(50)),
            edition("", "nameless", Some("en"), Some(99)),
            edition("d", "D", Some("de"), Some(99)),
            edition("e", "E", None, Some(1)),
            Node { data: None },
        ]),
    }
}

#[test]
fn editions_order_by_language_then_chapters() {
    let languages = strings(&["en", "fr"]);
    let all = editions_of(title_node(), &languages, true);
    let ids: Vec<&str> = all.iter().map(|c| c.id.as_str()).collect();
    assert_eq!(ids, vec!["c", "b", "a", "e"]);
    assert_eq!(all[1].name, "The Title");
    assert_eq!(all[0].url_cover, Some(s("/cover.jpg")));
    assert_eq!(all[0].genres, Some(strings(&["action"])));
    let best = editions_of(title_node(), &languages, false);
    assert_eq!(best.len(), 1);
    assert_eq!(best[0].id, "c");
}

#[test]
fn manga_from_record() {
    let mut c = comic("42", "  My   Comic [src:1] ");
    c.sub_name = Some(s("Team Z"));
    c.url_path = Some(s("/comic/42-en-my-comic"));
    c.url_cover = Some(s("//img/c.jpg"));
    c.genres = Some(strings(&["action", "Action", " "]));
    c.tags = Some(strings(&["slice_of_life"]));
    c.summary = Some(Summary { text: Some(s("  A story.  ")) });
    c.description = Some(s("ignored"));
    c.original_status = Some(s("ongoing"));
    c.kind = Some(s("manhwa"));
    c.author_nodes = Some(vec![named(Some("Ann"))]);
    let m = manga_from_data(c, BASE, true);
    assert_eq!(m.key, "42");
    assert_eq!(m.title, "My Comic [Team Z]");
    assert_eq!(m.cover, Some(s("https://img/c.jpg")));
    assert_eq!(m.url, Some(s("https://xcomic.me/comic/42-en-my-comic")));
    assert_eq!(m.authors, Some(strings(&["Ann"])));
    assert_eq!(m.artists, None);
    assert_eq!(m.description, Some(s("A story.")));
    assert_eq!(m.tags, Some(strings(&["Action", "Slice Of Life"])));
    assert_eq!(m.status, MangaStatus::Ongoing);
    assert_eq!(m.content_rating, ContentRating::Safe);
    assert_eq!(m.viewer, Viewer::Webtoon);

    let hidden = manga_from_data(comic("7", "Plain"), BASE, false);
    assert_eq!(hidden.title, "Plain");
    assert_eq!(hidden.url, Some(s("https://xcomic.me/comic/7")));
    assert_eq!(hidden.tags, None);
}

#[test]
fn links_name_targets() {
    match parse_link("https://xcomic.me/comic/123-en-foo/456-ch-1") {
        Some(Target::Comic(id, Some(ch))) => {
            assert_eq!(id, "123");
            assert_eq!(ch, "456");
        },
        other => panic!("unexpected {:?}", other),
    }
    match parse_link("https://xcomic.me/title/77-some-title") {
        Some(Target::Title(id)) => assert_eq!(id, "77"),
        other => panic!("unexpected {:?}", other),
    }
    match parse_link("https://xcomic.me/comic/_/999") {
        other => assert!(other.is_none(), "unexpected {:?}", other),
    }
    assert!(parse_link("https://xcomic.me/search").is_none());
}

#[test]
fn queries_name_targets() {
    match target_from_query("  ID:ab_1-rest ") {
        Some(Target::Comic(id, None)) => assert_eq!(id, "ab_1"),
        other => panic!("unexpected {:?}", other),
    }
    assert!(target_from_query("id:a.b").is_none());
    match target_from_query("id:Zz_9") {
        Some(Target::Comic(id, None)) => assert_eq!(id, "Zz_9"),
        other => panic!("unexpected {:?}", other),
    }
    assert!(target_from_query("one piece").is_none());
    assert!(target_from_query("abc").is_none());
    match target_from_query(" https://xcomic.me/comic/5-en ") {
        Some(Target::Comic(id, None)) => assert_eq!(id, "5"),
        other => panic!("unexpected {:?}", other),
    }
}

#[test]
fn comic_key_of_targets() {
    assert_eq!(comic_key(Target::Comic(s("5"), None), None), Ok(s("5")));
    assert_eq!(comic_key(Target::Title(s("9")), Some(s("12"))), Ok(s("12")));
    assert_eq!(
        comic_key(Target::Title(s("9")), None),
        Err(s("No comics are available for this series"))
    );
}

#[test]
fn title_page_prefers_picked_language() {
    let hrefs = vec![
        Some(s("/comic/11-ja-x")),
        Some(s("/comic/11-ja-x/300-chapter")),
        None,
        Some(s("https://xcomic.me/comic/12-en-y/")),
        Some(s("/comic/11-en")),
        Some(s("/title/1")),
    ];
    assert_eq!(title_edition(&hrefs, &strings(&["en"])), Some(s("12")));
    assert_eq!(title_edition(&hrefs, &strings(&["fr"])), Some(s("11")));
    assert_eq!(title_edition(&[], &strings(&["fr"])), None);
}

#[test]
fn chapter_paths_name_languages() {
    assert_eq!(language_from_path(Some("/comic/1-en-x/22-pt_br-chapter-3/")), Some(s("pt-BR")));
    assert_eq!(language_from_path(Some("/comic/1/22")), None);
    assert_eq!(language_from_path(None), None);
}

#[test]
fn timestamps_in_seconds() {
    assert_eq!(unix_seconds(1_700_000_000_000), Some(1_700_000_000));
    assert_eq!(unix_seconds(1_700_000_000), Some(1_700_000_000));
    assert_eq!(unix_seconds(0), None);
    assert_eq!(unix_seconds(-5), None);
}

#[test]
fn chapter_titles_join() {
    assert_eq!(chapter_title(&Some(s("Ch. 1")), &Some(s(" Intro "))), Some(s("Ch. 1: Intro")));
    assert_eq!(chapter_title(&Some(s("Ch. 1")), &Some(s("Ch.  1"))), Some(s("Ch. 1")));
    assert_eq!(chapter_title(&Some(s("  ")), &Some(s("X"))), Some(s("X")));
    assert_eq!(chapter_title(&None, &None), None);
}

#[test]
fn chapter_records() {
    let mut deleted = chapter("1");
    deleted.db_status = Some(s("deleted"));
    assert!(chapter_from_data(deleted, BASE, None, None, false).is_none());

    let mut c = chapter("2");
    c.db_status = Some(s("normal"));
    c.dname = Some(s("Vol.1 Ch.2"));
    c.url_path = Some(s("/comic/9-en-x/2-es_419-ch-2"));
    c.date_create = Some(100);
    c.date_modify = Some(2_000_000_000_000);
    c.date_public = Some(300);
    c.src_name = Some(s("some_source"));
    c.profile_nodes = Some(vec![named(Some("Uploader"))]);
    let by_revision = chapter_from_data(c, BASE, None, None, false).unwrap();
    assert_eq!(by_revision.key, "2");
    assert_eq!(by_revision.title, Some(s("Vol.1 Ch.2")));
    assert_eq!(by_revision.date_uploaded, Some(2_000_000_000));
    assert_eq!(by_revision.scanlators, Some(strings(&["Some Source"])));
    assert_eq!(by_revision.language, Some(s("es-419")));
    assert_eq!(by_revision.url, Some(s("https://xcomic.me/comic/9-en-x/2-es_419-ch-2")));

    let mut d = chapter("3");
    d.date_create = Some(100);
    d.date_public = Some(300);
    d.group_nodes = Some(vec![named(Some("Group"))]);
    let by_publication = chapter_from_data(d, BASE, Some("en"), Some(" Team "), true).unwrap();
    assert_eq!(by_publication.date_uploaded, Some(300));
    assert_eq!(by_publication.scanlators, Some(strings(&["Team"])));
    assert_eq!(by_publication.language, Some(s("en")));
    assert_eq!(by_publication.url, Some(s("https://xcomic.me/comic/_/3")));

    let mut e = chapter("4");
    e.group_nodes = Some(vec![named(Some("Group"))]);
    let grouped = chapter_from_data(e, BASE, None, Some(""), false).unwrap();
    assert_eq!(grouped.scanlators, Some(strings(&["Group"])));
    assert_eq!(grouped.date_uploaded, None);
    assert_eq!(grouped.title, None);
}

