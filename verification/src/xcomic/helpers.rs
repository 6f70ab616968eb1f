//! How xcomic's records become comics and chapters, and how links and queries
//! name them.
use vstd::prelude::*;
use crate::model::{Chapter, ChapterNumber, ChapterView, ContentRating, Manga, MangaStatus, MangaView, Viewer};
use crate::numbers::{
    decimal, decimal_exec, is_digit, lemma_decimal_chars, lemma_parse_i64_decimal, parse_i64,
    parse_i64_exec,
};
use crate::text::{
    chars_eq, chars_of, clean, clean_exec, concat3, concat_chars, concat_str,
    contains, contains_exec, is_prefix, matches_at, is_whitespace, is_whitespace_exec, list_contains, one_of,
    push_string, rsplit_once, rfind_exec, slice_range, split_once, starts_with, string_from, strip_suffix, title_case, title_case_exec, to_ascii_lowercase,
    to_ascii_lowercase_exec, trim, trim_end, trim_end_exec, trim_exec, opt_chars, split_once_exec, rsplit_once_exec,
};
use crate::xcomic::models::{ChapterData, ComicData, NamedData, Node, TitleNode};
use crate::sorting::{
    SortKey, keyed, lemma_stable_sort_keeps, lemma_stable_sorted_exists, sorted_by_key,
    stable_sort_by_key, stable_sorted,
};
use crate::text::{
    append_strings, clone_opt_string, clone_opt_strings, list_or_empty, opt_list, position_in,
    position_of, rfind, str_contains, first_piece, first_piece_exec, second_piece,
    second_piece_exec, last_piece, last_piece_exec, trim_end_char, trim_end_char_exec,
    eq_ignore_ascii_case, eq_ignore_ascii_case_exec, opt_str, str_eq, lacks, lemma_split_once_char,
    lemma_split_once_none, lemma_trim_plain, trim_start,
};
use crate::xcomic::settings::{normalize_language, normalize_language_spec};

verus! {

/// `url` made absolute against `base_url`: blank stays blank, `http(s)://` stays as
/// it is, `//host` takes `https:`, and a path joins the base.
pub open spec fn absolute_url_spec(base_url: Seq<char>, url: Seq<char>) -> Seq<char> {
    let u = trim(url);
    if u.len() == 0 {
        Seq::empty()
    } else if is_prefix("http://"@, u) || is_prefix("https://"@, u) {
        u
    } else if is_prefix("//"@, u) {
        "https://"@ + u.skip(("//"@).len() as int)
    } else if is_prefix("/"@, u) {
        base_url + u
    } else {
        base_url + "/"@ + u
    }
}

/// `url` made absolute against `base_url`.
pub fn absolute_url(base_url: &str, url: &str) -> (r: String)
    ensures
        r@ == absolute_url_spec(base_url@, url@),
{
    let all = chars_of(url);
    let u = trim_exec(&all);
    if u.len() == 0 {
        return String::new();
    }
    let http = chars_of("http://");
    let https = chars_of("https://");
    if starts_with(&u, &http) || starts_with(&u, &https) {
        return string_from(&u);
    }
    let slashes = chars_of("//");
    if starts_with(&u, &slashes) {
        let rest = slice_range(&u, slashes.len(), u.len());
        let mut r = String::from_str("https://");
        let rest_s = string_from(&rest);
        r.append(rest_s.as_str());
        assert(rest@ =~= u@.skip(slashes@.len() as int));
        return r;
    }
    let slash = chars_of("/");
    let us = string_from(&u);
    if starts_with(&u, &slash) {
        concat_str(base_url, us.as_str())
    } else {
        concat3(base_url, "/", us.as_str())
    }
}

/// A path the API gave, against the current mirror; blanks read as absent.
pub open spec fn site_url_spec(base_url: Seq<char>, path: Option<Seq<char>>) -> Option<
    Seq<char>,
> {
    match path {
        Some(p) => {
            let u = absolute_url_spec(base_url, p);
            if u.len() > 0 {
                Some(u)
            } else {
                None
            }
        },
        None => None,
    }
}

/// A path the API gave, against the current mirror; blanks read as absent.
pub fn site_url(base_url: &str, path: Option<String>) -> (r: Option<String>)
    ensures
        r.deep_view() == site_url_spec(base_url@, path.deep_view()),
{
    match path {
        Some(p) => {
            let u = absolute_url(base_url, p.as_str());
            if u.as_str().is_empty() {
                None
            } else {
                Some(u)
            }
        },
        None => None,
    }
}

/// A `min-max` range, or a single value standing for both.
pub open spec fn parse_range_spec(value: Seq<char>) -> (Option<i64>, Option<i64>) {
    match split_once(value, "-"@) {
        Some(parts) => (parse_i64(trim(parts.0)), parse_i64(trim(parts.1))),
        None => {
            let v = parse_i64(trim(value));
            (v, v)
        },
    }
}

/// A `min-max` range, or a single value standing for both.
pub fn parse_range(value: &str) -> (r: (Option<i64>, Option<i64>))
    ensures
        r == parse_range_spec(value@),
{
    let v = chars_of(value);
    let dash = chars_of("-");
    match split_once_exec(&v, &dash) {
        Some((a, b)) => {
            let ta = trim_exec(&a);
            let tb = trim_exec(&b);
            (parse_i64_exec(&ta), parse_i64_exec(&tb))
        },
        None => {
            let t = trim_exec(&v);
            let x = parse_i64_exec(&t);
            (x, x)
        },
    }
}

/// The site's spelling of a chapter-count range, as its presets write one: `min-max`.
pub open spec fn chapter_count_range_spec(value: Seq<char>) -> Seq<char> {
    match parse_range_spec(value) {
        (Some(minimum), Some(maximum)) => if minimum != maximum {
            decimal(minimum as int) + "-"@ + decimal(maximum as int)
        } else {
            decimal(minimum as int)
        },
        (Some(v), None) => decimal(v as int),
        (None, Some(v)) => decimal(v as int),
        (None, None) => Seq::empty(),
    }
}

/// The site spells a chapter-count range the way its presets do, as `min-max`.
pub fn chapter_count_range(value: &str) -> (r: String)
    ensures
        r@ == chapter_count_range_spec(value@),
{
    let dash = chars_of("-");
    match parse_range(value) {
        (Some(minimum), Some(maximum)) => {
            if minimum != maximum {
                let a = decimal_exec(minimum);
                let b = decimal_exec(maximum);
                let ab = concat_chars(&a, &dash);
                let all = concat_chars(&ab, &b);
                string_from(&all)
            } else {
                string_from(&decimal_exec(minimum))
            }
        },
        (Some(v), None) => string_from(&decimal_exec(v)),
        (None, Some(v)) => string_from(&decimal_exec(v)),
        (None, None) => String::new(),
    }
}

/// `text` with whitespace runs collapsed to single spaces and the ends trimmed.
pub fn clean_text(text: &str) -> (r: String)
    ensures
        r@ == clean(text@),
{
    let v = chars_of(text);
    string_from(&clean_exec(&v))
}

/// `value` with underscores as spaces and each word's first letter upper cased.
pub fn title_case_text(value: &str) -> (r: String)
    ensures
        r@ == title_case(value@),
{
    let v = chars_of(value);
    string_from(&title_case_exec(&v))
}

/// The cleaned name a node carries, unless it carries none or only whitespace.
pub open spec fn node_name(node: Node<Option<NamedData>>) -> Option<Seq<char>> {
    match node.data {
        Some(data) => match data.name {
            Some(name) => if clean(name@).len() > 0 {
                Some(clean(name@))
            } else {
                None
            },
            None => None,
        },
        None => None,
    }
}

/// The cleaned, non-blank names the nodes carry, in order.
pub open spec fn node_names_spec(nodes: Seq<Node<Option<NamedData>>>) -> Seq<Seq<char>>
    decreases nodes.len(),
{
    if nodes.len() == 0 {
        Seq::empty()
    } else {
        match node_name(nodes.last()) {
            Some(n) => node_names_spec(nodes.drop_last()).push(n),
            None => node_names_spec(nodes.drop_last()),
        }
    }
}

/// The cleaned, non-blank names the nodes carry.
pub fn node_names(nodes: Vec<Node<Option<NamedData>>>) -> (r: Vec<String>)
    ensures
        r.deep_view() == node_names_spec(nodes@),
{
    let mut out: Vec<String> = Vec::new();
    let mut i: usize = 0;
    while i < nodes.len()
        invariant
            i <= nodes@.len(),
            out.deep_view() == node_names_spec(nodes@.take(i as int)),
        decreases nodes.len() - i,
    {
        let ghost prefix = nodes@.take(i + 1);
        assert(prefix.drop_last() =~= nodes@.take(i as int));
        assert(prefix.last() == nodes@[i as int]);
        match &nodes[i].data {
            Some(data) => match &data.name {
                Some(name) => {
                    let c = clean_text(name.as_str());
                    if !c.as_str().is_empty() {
                        push_string(&mut out, c);
                    }
                },
                None => {},
            },
            None => {},
        }
        i += 1;
    }
    assert(nodes@.take(nodes@.len() as int) =~= nodes@);
    out
}

/// The genres that make a comic pornographic, compared lower cased.
pub open spec fn pornographic_genre(g: Seq<char>) -> bool {
    g == "adult"@ || g == "hentai"@ || g == "pornographic"@ || g == "smut"@
}

/// The rating is pornographic, or a genre is, whatever its case or padding.
pub open spec fn is_pornographic_spec(
    rating: Option<Seq<char>>,
    genres: Option<Seq<Seq<char>>>,
) -> bool {
    rating == Some("pornographic"@) || match genres {
        Some(gs) => any_pornographic(gs),
        None => false,
    }
}

/// Some genre of `gs` marks a comic pornographic.
pub open spec fn any_pornographic(gs: Seq<Seq<char>>) -> bool {
    exists|i: int|
        0 <= i < gs.len() && pornographic_genre(to_ascii_lowercase(trim(#[trigger] gs[i])))
}

/// Whether a genre marks a comic pornographic.
fn pornographic_genre_exec(g: &String) -> (r: bool)
    ensures
        r == pornographic_genre(to_ascii_lowercase(trim(g@))),
{
    let v = chars_of(g.as_str());
    let t = trim_exec(&v);
    let l = to_ascii_lowercase_exec(&t);
    one_of(&l, &["adult", "hentai", "pornographic", "smut"])
}

/// Whether the genres hold one that marks a comic pornographic.
fn any_pornographic_genre(genres: &[String]) -> (r: bool)
    ensures
        r == any_pornographic(genres.deep_view()),
{
    let mut i: usize = 0;
    while i < genres.len()
        invariant
            i <= genres@.len(),
            forall|j: int|
                0 <= j < i ==> !pornographic_genre(
                    to_ascii_lowercase(trim(#[trigger] genres.deep_view()[j])),
                ),
        decreases genres.len() - i,
    {
        assert(genres.deep_view()[i as int] == genres@[i as int]@);
        if pornographic_genre_exec(&genres[i]) {
            return true;
        }
        i += 1;
    }
    false
}

/// Whether the rating or a genre marks a comic pornographic. The API is inconsistent
/// about genre casing.
pub fn is_pornographic(rating: Option<&str>, genres: Option<&[String]>) -> (r: bool)
    ensures
        r == is_pornographic_spec(rating.deep_view(), genres.deep_view()),
{
    let by_rating = match rating {
        Some(value) => {
            let v = chars_of(value);
            let p = chars_of("pornographic");
            chars_eq(&v, &p)
        },
        None => false,
    };
    if by_rating {
        return true;
    }
    match genres {
        Some(gs) => any_pornographic_genre(gs),
        None => false,
    }
}

/// The rating the app shows for a comic.
pub open spec fn content_rating_spec(rating: Option<Seq<char>>, genres: Seq<Seq<char>>) -> ContentRating {
    if is_pornographic_spec(rating, Some(genres)) {
        ContentRating::NSFW
    } else if rating == Some("suggestive"@) || rating == Some("erotica"@) {
        ContentRating::Suggestive
    } else {
        ContentRating::Safe
    }
}

/// Whether an optional string equals `lit`.
fn opt_is(value: Option<&str>, lit: &str) -> (r: bool)
    ensures
        r == (value.deep_view() == Some(lit@)),
{
    match value {
        Some(v) => {
            let a = chars_of(v);
            let b = chars_of(lit);
            chars_eq(&a, &b)
        },
        None => false,
    }
}

/// The rating the app shows for a comic.
pub fn content_rating(rating: Option<&str>, genres: &[String]) -> (r: ContentRating)
    ensures
        r == content_rating_spec(rating.deep_view(), genres.deep_view()),
{
    if is_pornographic(rating, Some(genres)) {
        ContentRating::NSFW
    } else if opt_is(rating, "suggestive") || opt_is(rating, "erotica") {
        ContentRating::Suggestive
    } else {
        ContentRating::Safe
    }
}

/// The publishing status the site's status words describe.
pub open spec fn status_spec(stated: Option<Seq<char>>, upload: Option<Seq<char>>) -> MangaStatus {
    let s = match stated {
        Some(o) => o,
        None => match upload {
            Some(u) => u,
            None => Seq::empty(),
        },
    };
    if contains(s, "completed"@) {
        MangaStatus::Completed
    } else if contains(s, "releasing"@) || contains(s, "ongoing"@) {
        MangaStatus::Ongoing
    } else if contains(s, "hiatus"@) {
        MangaStatus::Hiatus
    } else if contains(s, "cancelled"@) {
        MangaStatus::Cancelled
    } else {
        MangaStatus::Unknown
    }
}

/// Whether `s` contains the literal `lit`.
fn has(s: &[char], lit: &str) -> (r: bool)
    ensures
        r == contains(s@, lit@),
{
    let l = chars_of(lit);
    contains_exec(s, &l)
}

/// The publishing status the site's status words describe.
pub fn status(original_status: Option<&str>, upload_status: Option<&str>) -> (r: MangaStatus)
    ensures
        r == status_spec(original_status.deep_view(), upload_status.deep_view()),
{
    let s: Vec<char> = match original_status {
        Some(o) => chars_of(o),
        None => match upload_status {
            Some(u) => chars_of(u),
            None => Vec::new(),
        },
    };
    if has(&s, "completed") {
        MangaStatus::Completed
    } else if has(&s, "releasing") || has(&s, "ongoing") {
        MangaStatus::Ongoing
    } else if has(&s, "hiatus") {
        MangaStatus::Hiatus
    } else if has(&s, "cancelled") {
        MangaStatus::Cancelled
    } else {
        MangaStatus::Unknown
    }
}

/// The reading mode for a comic: its stated direction, else what its type or a
/// long-strip genre suggests.
pub open spec fn viewer_spec(
    read_direction: Option<Seq<char>>,
    kind: Option<Seq<char>>,
    genres: Seq<Seq<char>>,
) -> Viewer {
    if read_direction == Some("ttb"@) {
        Viewer::Webtoon
    } else if read_direction == Some("rtl"@) {
        Viewer::RightToLeft
    } else if read_direction == Some("ltr"@) {
        Viewer::LeftToRight
    } else if kind == Some("manhwa"@) || kind == Some("manhua"@) || genres.contains("longstrip"@) {
        Viewer::Webtoon
    } else if kind == Some("manga"@) {
        Viewer::RightToLeft
    } else {
        Viewer::Unknown
    }
}

/// The reading mode for a comic.
pub fn viewer(read_direction: Option<&str>, kind: Option<&str>, genres: &[String]) -> (r: Viewer)
    ensures
        r == viewer_spec(read_direction.deep_view(), kind.deep_view(), genres.deep_view()),
{
    if opt_is(read_direction, "ttb") {
        return Viewer::Webtoon;
    }
    if opt_is(read_direction, "rtl") {
        return Viewer::RightToLeft;
    }
    if opt_is(read_direction, "ltr") {
        return Viewer::LeftToRight;
    }
    let longstrip = chars_of("longstrip");
    if opt_is(kind, "manhwa") || opt_is(kind, "manhua") || list_contains(genres, &longstrip) {
        return Viewer::Webtoon;
    }
    if opt_is(kind, "manga") {
        return Viewer::RightToLeft;
    }
    Viewer::Unknown
}

/// `c` is an ASCII letter or digit, or `_`, or `-`.
pub open spec fn tag_char(c: char) -> bool {
    ('a' <= c && c <= 'z') || ('A' <= c && c <= 'Z') || ('0' <= c && c <= '9') || c == '_' || c
        == '-'
}

/// `value` is an importer's marker like `source:id`: a head of letters, digits, `_`
/// or `-`, a colon, and a tail with no whitespace.
pub open spec fn machine_tag_spec(value: Seq<char>) -> bool {
    match split_once(value, ":"@) {
        Some(parts) => {
            &&& parts.0.len() > 0
            &&& forall|i: int| 0 <= i < parts.0.len() ==> tag_char(#[trigger] parts.0[i])
            &&& forall|i: int| 0 <= i < parts.1.len() ==> !is_whitespace(#[trigger] parts.1[i])
        },
        None => false,
    }
}

/// Whether `value` is an importer's marker.
pub fn machine_tag(value: &[char]) -> (r: bool)
    ensures
        r == machine_tag_spec(value@),
{
    let colon = chars_of(":");
    match split_once_exec(value, &colon) {
        Some((head, tail)) => {
            if head.len() == 0 {
                return false;
            }
            let mut i: usize = 0;
            while i < head.len()
                invariant
                    i <= head@.len(),
                    split_once(value@, colon@) == Some((head@, tail@)),
                    colon@ == ":"@,
                    forall|j: int| 0 <= j < i ==> tag_char(#[trigger] head@[j]),
                decreases head.len() - i,
            {
                let c = head[i];
                if !(('a' <= c && c <= 'z') || ('A' <= c && c <= 'Z') || ('0' <= c && c <= '9')
                    || c == '_' || c == '-') {
                    assert(!tag_char(head@[i as int]));
                    return false;
                }
                i += 1;
            }
            let mut j: usize = 0;
            while j < tail.len()
                invariant
                    j <= tail@.len(),
                    split_once(value@, colon@) == Some((head@, tail@)),
                    colon@ == ":"@,
                    forall|m: int| 0 <= m < j ==> !is_whitespace(#[trigger] tail@[m]),
                decreases tail.len() - j,
            {
                if is_whitespace_exec(tail[j]) {
                    assert(is_whitespace(tail@[j as int]));
                    assert(!machine_tag_spec(value@)) by {
                        let parts = split_once(value@, ":"@).unwrap();
                        assert(parts.1 == tail@);
                        assert(is_whitespace(parts.1[j as int]));
                    }
                    return false;
                }
                j += 1;
            }
            true
        },
        None => false,
    }
}

/// The text inside a trailing `[...]` of `name`, trimmed, when there is some.
pub open spec fn bracketed_suffix_spec(name: Seq<char>) -> Option<Seq<char>> {
    match strip_suffix(trim_end(name), "]"@) {
        Some(inner) => match rsplit_once(inner, "["@) {
            Some(parts) => if trim(parts.1).len() > 0 {
                Some(trim(parts.1))
            } else {
                None
            },
            None => None,
        },
        None => None,
    }
}

/// The text inside a trailing `[...]` of `name`.
pub fn bracketed_suffix(name: &[char]) -> (r: Option<Vec<char>>)
    ensures
        opt_chars(r) == bracketed_suffix_spec(name@),
{
    let t = trim_end_exec(name);
    let close = chars_of("]");
    if !crate::text::ends_with(&t, &close) {
        return None;
    }
    let inner = slice_range(&t, 0, t.len() - close.len());
    assert(inner@ =~= t@.take(t@.len() - close@.len()));
    let open = chars_of("[");
    match rsplit_once_exec(&inner, &open) {
        Some((_, after)) => {
            let s = trim_exec(&after);
            if s.len() > 0 {
                Some(s)
            } else {
                None
            }
        },
        None => None,
    }
}

/// The team behind an edition: its sub name, or else a bracketed suffix of its
/// name, unless either is an importer's marker.
pub open spec fn team_of_spec(sub_name: Option<Seq<char>>, name: Seq<char>) -> Option<Seq<char>> {
    let from_sub = match sub_name {
        Some(s) => if trim(s).len() > 0 && !machine_tag_spec(trim(s)) {
            Some(trim(s))
        } else {
            None
        },
        None => None,
    };
    match from_sub {
        Some(t) => Some(t),
        None => match bracketed_suffix_spec(name) {
            Some(t) => if !machine_tag_spec(t) {
                Some(t)
            } else {
                None
            },
            None => None,
        },
    }
}

/// The team behind an edition: its `subName`, or the bracketed suffix some records
/// carry in the name instead.
pub fn team_of(comic: &ComicData) -> (r: Option<String>)
    ensures
        r.deep_view() == team_of_spec(comic.sub_name.deep_view(), comic.name@),
{
    match &comic.sub_name {
        Some(s) => {
            let v = chars_of(s.as_str());
            let t = trim_exec(&v);
            if t.len() > 0 && !machine_tag(&t) {
                return Some(string_from(&t));
            }
            assert(!(trim(s@).len() > 0 && !machine_tag_spec(trim(s@))));
        },
        None => {},
    }
    let name = chars_of(comic.name.as_str());
    match bracketed_suffix(&name) {
        Some(t) => if !machine_tag(&t) {
            Some(string_from(&t))
        } else {
            None
        },
        None => None,
    }
}


/// An edition worth listing: it has an id, and its language, when it states one,
/// is one the reader reads. An edition that states no language is no reason to
/// hide the work.
pub open spec fn edition_wanted(e: ComicData, languages: Seq<Seq<char>>) -> bool {
    e.id@.len() > 0 && match e.translated_language {
        Some(l) => languages.contains(l@),
        None => true,
    }
}

/// The wanted editions among the nodes, in order.
pub open spec fn wanted_editions(
    nodes: Seq<Node<Option<ComicData>>>,
    languages: Seq<Seq<char>>,
) -> Seq<ComicData>
    decreases nodes.len(),
{
    if nodes.len() == 0 {
        Seq::empty()
    } else {
        let rest = wanted_editions(nodes.drop_last(), languages);
        match nodes.last().data {
            Some(e) => if edition_wanted(e, languages) {
                rest.push(e)
            } else {
                rest
            },
            None => rest,
        }
    }
}

/// Where an edition's language stands in the reader's order; one that is not
/// listed, or states none, comes after every listed one.
pub open spec fn language_rank(e: ComicData, languages: Seq<Seq<char>>) -> int {
    match e.translated_language {
        Some(l) => match position_of(languages, l@) {
            Some(p) => p,
            None => usize::MAX as int,
        },
        None => usize::MAX as int,
    }
}

/// Editions order by the reader's language order first, then by most chapters.
pub open spec fn edition_key(e: ComicData, languages: Seq<Seq<char>>) -> SortKey {
    (
        language_rank(e, languages) as i128,
        -(match e.chapter_count {
            Some(c) => c as int,
            None => 0,
        }) as i128,
    )
}

/// Each edition paired with its sort key.
pub open spec fn keyed_editions(es: Seq<ComicData>, languages: Seq<Seq<char>>) -> Seq<
    (SortKey, ComicData),
> {
    es.map_values(|e: ComicData| (edition_key(e, languages), e))
}

/// The editions of a title to list, best first: all of them, or only the best.
pub open spec fn chosen_editions(title: TitleNode, languages: Seq<Seq<char>>, every: bool) -> Seq<
    (SortKey, ComicData),
> {
    let nodes = match title.comic_nodes {
        Some(v) => v@,
        None => Seq::empty(),
    };
    let sorted = stable_sorted(keyed_editions(wanted_editions(nodes, languages), languages));
    if every || sorted.len() <= 1 {
        sorted
    } else {
        sorted.take(1)
    }
}

/// `r` is edition `e` as listed: its own id, name (or the title's, when blank),
/// team, path, language and chapter count, with the title's cover, rating, type,
/// genres, status and synopsis.
pub open spec fn listed_edition(r: ComicData, e: ComicData, title: ComicData) -> bool {
    &&& r.id@ == e.id@
    &&& r.name@ == if trim(e.name@).len() == 0 {
        title.name@
    } else {
        e.name@
    }
    &&& r.sub_name.deep_view() == e.sub_name.deep_view()
    &&& r.url_path.deep_view() == e.url_path.deep_view()
    &&& r.translated_language.deep_view() == e.translated_language.deep_view()
    &&& r.chapter_count == e.chapter_count
    &&& r.url_cover.deep_view() == title.url_cover.deep_view()
    &&& r.content_rating.deep_view() == title.content_rating.deep_view()
    &&& r.kind.deep_view() == title.kind.deep_view()
    &&& r.genres.deep_view() == title.genres.deep_view()
    &&& r.original_status.deep_view() == title.original_status.deep_view()
    &&& r.description.deep_view() == title.description.deep_view()
    &&& r.demographics is None
    &&& r.tags is None
    &&& r.author_nodes is None
    &&& r.artist_nodes is None
    &&& r.tag_nodes is None
    &&& r.summary is None
    &&& r.upload_status is None
    &&& r.read_direction is None
}

/// The sort key of an edition.
fn edition_key_exec(e: &ComicData, languages: &[String]) -> (r: SortKey)
    ensures
        r == edition_key(*e, languages.deep_view()),
{
    let rank: usize = match &e.translated_language {
        Some(l) => {
            let lv = chars_of(l.as_str());
            match position_in(languages, &lv) {
                Some(p) => p,
                None => usize::MAX,
            }
        },
        None => usize::MAX,
    };
    let count: i64 = match e.chapter_count {
        Some(c) => c,
        None => 0,
    };
    (rank as i128, -(count as i128))
}

/// Edition `e` as listed under `title`.
fn listed(e: ComicData, title: &ComicData) -> (r: ComicData)
    ensures
        listed_edition(r, e, *title),
{
    let name_chars = chars_of(e.name.as_str());
    let trimmed = trim_exec(&name_chars);
    let name = if trimmed.len() == 0 {
        title.name.clone()
    } else {
        e.name
    };
    ComicData {
        id: e.id,
        name,
        sub_name: e.sub_name,
        kind: clone_opt_string(&title.kind),
        demographics: None,
        content_rating: clone_opt_string(&title.content_rating),
        genres: clone_opt_strings(&title.genres),
        tags: None,
        author_nodes: None,
        artist_nodes: None,
        tag_nodes: None,
        summary: None,
        description: clone_opt_string(&title.description),
        url_path: e.url_path,
        url_cover: clone_opt_string(&title.url_cover),
        original_status: clone_opt_string(&title.original_status),
        upload_status: None,
        read_direction: None,
        translated_language: e.translated_language,
        chapter_count: e.chapter_count,
    }
}

/// The editions of a title the reader can read, best first: the reader's own
/// language order, then whichever edition carries the most chapters. All of them
/// when `every` holds, else only the best. Each carries the title's shared details.
pub fn editions_of(title: TitleNode, languages: &[String], every: bool) -> (r: Vec<ComicData>)
    ensures
        !every ==> r@.len() <= 1,
        r@.len() == chosen_editions(title, languages.deep_view(), every).len(),
        forall|i: int|
            0 <= i < r@.len() ==> listed_edition(
                #[trigger] r@[i],
                chosen_editions(title, languages.deep_view(), every)[i].1,
                title.data,
            ),
{
    let ghost langs = languages.deep_view();
    let ghost title0 = title;
    let TitleNode { data, comic_nodes } = title;
    let nodes: Vec<Node<Option<ComicData>>> = match comic_nodes {
        Some(v) => v,
        None => Vec::new(),
    };
    let ghost orig = nodes@;
    assert(orig == match title0.comic_nodes {
        Some(v) => v@,
        None => Seq::<Node<Option<ComicData>>>::empty(),
    });
    let mut rest = nodes;
    let mut keyed: Vec<(SortKey, ComicData)> = Vec::new();
    let n = rest.len();
    let mut i: usize = 0;
    assert(orig.skip(0) =~= orig);
    while i < n
        invariant
            n == orig.len(),
            i <= n,
            rest@ == orig.skip(i as int),
            langs == languages.deep_view(),
            keyed@ == keyed_editions(wanted_editions(orig.take(i as int), langs), langs),
        decreases n - i,
    {
        let node = rest.remove(0);
        assert(node == orig[i as int]);
        assert(rest@ =~= orig.skip(i + 1));
        let ghost prefix = orig.take(i + 1);
        assert(prefix.drop_last() =~= orig.take(i as int));
        assert(prefix.last() == node);
        match node.data {
            Some(e) => {
                let id_chars = chars_of(e.id.as_str());
                let lang_ok = match &e.translated_language {
                    Some(l) => {
                        let lv = chars_of(l.as_str());
                        list_contains(languages, &lv)
                    },
                    None => true,
                };
                if id_chars.len() > 0 && lang_ok {
                    let k = edition_key_exec(&e, languages);
                    keyed.push((k, e));
                    assert(keyed@ =~= keyed_editions(wanted_editions(prefix, langs), langs));
                } else {
                    assert(keyed@ =~= keyed_editions(wanted_editions(prefix, langs), langs));
                }
            },
            None => {
                assert(keyed@ =~= keyed_editions(wanted_editions(prefix, langs), langs));
            },
        }
        i += 1;
    }
    assert(orig.take(n as int) =~= orig);
    let mut sorted = stable_sort_by_key(keyed);
    if !every && sorted.len() > 1 {
        sorted.truncate(1);
    }
    let ghost chosen = chosen_editions(title0, langs, every);
    assert(sorted@ =~= chosen);
    let mut out: Vec<ComicData> = Vec::new();
    let m = sorted.len();
    let mut j: usize = 0;
    assert(chosen.skip(0) =~= chosen);
    while j < m
        invariant
            m == chosen.len(),
            j <= m,
            sorted@ == chosen.skip(j as int),
            out@.len() == j,
            data == title0.data,
            forall|q: int|
                0 <= q < j ==> listed_edition(#[trigger] out@[q], chosen[q].1, title0.data),
        decreases m - j,
    {
        let (_, e) = sorted.remove(0);
        assert(sorted@ =~= chosen.skip(j + 1));
        let c = listed(e, &data);
        out.push(c);
        j += 1;
    }
    out
}


/// The raw tags of a comic: its genres, demographics and tags, then the names of its
/// tag nodes.
pub open spec fn raw_tags(comic: ComicData) -> Seq<Seq<char>> {
    opt_list(comic.genres) + opt_list(comic.demographics) + opt_list(comic.tags) + match comic.tag_nodes {
        Some(nodes) => node_names_spec(nodes@),
        None => Seq::empty(),
    }
}

/// The tags worth showing among `raw`, in order: non-blank, and the first of any that
/// are equal up to ASCII case.
pub open spec fn kept_tags(raw: Seq<Seq<char>>) -> Seq<Seq<char>>
    decreases raw.len(),
{
    if raw.len() == 0 {
        Seq::empty()
    } else {
        let kept = kept_tags(raw.drop_last());
        let t = raw.last();
        if trim(t).len() > 0 && !kept.map_values(|k: Seq<char>| to_ascii_lowercase(k)).contains(
            to_ascii_lowercase(t),
        ) {
            kept.push(t)
        } else {
            kept
        }
    }
}

/// The shelf title for a comic named `name`: cleaned, without a trailing importer
/// marker, and with the team in brackets when asked for and not already there.
pub open spec fn shelf_title(name: Seq<char>, team: Option<Seq<char>>, show_source: bool) -> Seq<
    char,
> {
    let cleaned = clean(name);
    let unmarked = match bracketed_suffix_spec(cleaned) {
        Some(sfx) => if machine_tag_spec(sfx) {
            match rfind(cleaned, "["@) {
                Some(open) => trim_end(cleaned.take(open)),
                None => cleaned,
            }
        } else {
            cleaned
        },
        None => cleaned,
    };
    match team {
        Some(t) => if show_source && !contains(unmarked, t) {
            unmarked + " ["@ + t + "]"@
        } else {
            unmarked
        },
        None => unmarked,
    }
}

/// Names from nodes, or nothing when there are none.
pub open spec fn nonempty_names(nodes: Option<Vec<Node<Option<NamedData>>>>) -> Option<
    Seq<Seq<char>>,
> {
    match nodes {
        Some(n) => if node_names_spec(n@).len() > 0 {
            Some(node_names_spec(n@))
        } else {
            None
        },
        None => None,
    }
}

/// The synopsis: the nested summary, else the flat description, trimmed; nothing
/// when blank.
pub open spec fn synopsis(summary: Option<Seq<char>>, description: Option<Seq<char>>) -> Option<
    Seq<char>,
> {
    let text = match summary {
        Some(t) => Some(t),
        None => description,
    };
    match text {
        Some(t) => if trim(t).len() > 0 {
            Some(trim(t))
        } else {
            None
        },
        None => None,
    }
}

/// The text of a comic's nested summary.
pub open spec fn summary_text(comic: ComicData) -> Option<Seq<char>> {
    match comic.summary {
        Some(s) => s.text.deep_view(),
        None => None,
    }
}

/// The comic the app shows for a record of the API.
pub open spec fn manga_from_data_spec(comic: ComicData, base_url: Seq<char>, show_source: bool) -> MangaView {
    let raw = raw_tags(comic);
    let tags = kept_tags(raw).map_values(|t: Seq<char>| title_case(t));
    MangaView {
        key: comic.id@,
        title: shelf_title(
            comic.name@,
            team_of_spec(comic.sub_name.deep_view(), comic.name@),
            show_source,
        ),
        cover: site_url_spec(base_url, comic.url_cover.deep_view()),
        url: Some(
            match site_url_spec(base_url, comic.url_path.deep_view()) {
                Some(u) => u,
                None => base_url + "/comic/"@ + comic.id@,
            },
        ),
        authors: nonempty_names(comic.author_nodes),
        artists: nonempty_names(comic.artist_nodes),
        description: synopsis(summary_text(comic), comic.description.deep_view()),
        tags: if tags.len() > 0 {
            Some(tags)
        } else {
            None
        },
        status: status_spec(comic.original_status.deep_view(), comic.upload_status.deep_view()),
        content_rating: content_rating_spec(comic.content_rating.deep_view(), raw),
        viewer: viewer_spec(comic.read_direction.deep_view(), comic.kind.deep_view(), raw),
    }
}

/// The tags worth showing, title cased.
fn shown_tags(raw: &Vec<String>) -> (r: Vec<String>)
    ensures
        r.deep_view() == kept_tags(raw.deep_view()).map_values(|t: Seq<char>| title_case(t)),
{
    let ghost rv = raw.deep_view();
    let mut out: Vec<String> = Vec::new();
    let mut seen: Vec<String> = Vec::new();
    let mut i: usize = 0;
    while i < raw.len()
        invariant
            i <= raw@.len(),
            rv == raw.deep_view(),
            out.deep_view() == kept_tags(rv.take(i as int)).map_values(
                |t: Seq<char>| title_case(t),
            ),
            seen.deep_view() == kept_tags(rv.take(i as int)).map_values(
                |k: Seq<char>| to_ascii_lowercase(k),
            ),
        decreases raw.len() - i,
    {
        let ghost prefix = rv.take(i + 1);
        assert(prefix.drop_last() =~= rv.take(i as int));
        assert(prefix.last() == raw@[i as int]@);
        let t = chars_of(raw[i].as_str());
        let trimmed = trim_exec(&t);
        let lower = to_ascii_lowercase_exec(&t);
        if trimmed.len() > 0 && !list_contains(seen.as_slice(), &lower) {
            let ghost kept = kept_tags(rv.take(i as int));
            push_string(&mut seen, string_from(&lower));
            push_string(&mut out, string_from(&title_case_exec(&t)));
            assert(kept_tags(prefix) == kept.push(t@));
            assert(out.deep_view() =~= kept.push(t@).map_values(|t: Seq<char>| title_case(t)));
            assert(seen.deep_view() =~= kept.push(t@).map_values(
                |k: Seq<char>| to_ascii_lowercase(k),
            ));
        }
        i += 1;
    }
    assert(rv.take(raw@.len() as int) =~= rv);
    out
}

/// The shelf title for a comic.
fn shelf_title_exec(name: &str, team: &Option<String>, show_source: bool) -> (r: String)
    ensures
        r@ == shelf_title(name@, team.deep_view(), show_source),
{
    let n = chars_of(name);
    let cleaned = clean_exec(&n);
    let unmarked: Vec<char> = match bracketed_suffix(&cleaned) {
        Some(sfx) => if machine_tag(&sfx) {
            let open = chars_of("[");
            match rfind_exec(&cleaned, &open) {
                Some(o) => {
                    proof {
                        crate::text::lemma_rfind_upto(
                            cleaned@,
                            open@,
                            cleaned@.len() - open@.len(),
                        );
                    }
                    let head = slice_range(&cleaned, 0, o);
                    assert(head@ =~= cleaned@.take(o as int));
                    trim_end_exec(&head)
                },
                None => cleaned,
            }
        } else {
            cleaned
        },
        None => cleaned,
    };
    let base = string_from(&unmarked);
    match team {
        Some(t) => {
            if show_source && !str_contains(base.as_str(), t.as_str()) {
                let mut r = base;
                r.append(" [");
                r.append(t.as_str());
                r.append("]");
                r
            } else {
                base
            }
        },
        None => base,
    }
}

/// Names from nodes, or nothing when there are none.
fn nonempty_names_exec(nodes: Option<Vec<Node<Option<NamedData>>>>) -> (r: Option<Vec<String>>)
    ensures
        r.deep_view() == nonempty_names(nodes),
{
    match nodes {
        Some(n) => {
            let names = node_names(n);
            if names.len() > 0 {
                Some(names)
            } else {
                None
            }
        },
        None => None,
    }
}

/// The comic the app shows for a record of the API. `show_source_in_title` is the
/// reader's setting for naming the team in the title.
pub fn manga_from_data(comic: ComicData, base_url: &str, show_source_in_title: bool) -> (r: Manga)
    ensures
        r@ == manga_from_data_spec(comic, base_url@, show_source_in_title),
{
    let ghost c0 = comic;
    let team = team_of(&comic);
    let ComicData {
        id,
        name,
        sub_name: _,
        kind,
        demographics,
        content_rating: rating_id,
        genres,
        tags,
        author_nodes,
        artist_nodes,
        tag_nodes,
        summary,
        description,
        url_path,
        url_cover,
        original_status,
        upload_status,
        read_direction,
        translated_language: _,
        chapter_count: _,
    } = comic;
    let mut raw = list_or_empty(genres);
    append_strings(&mut raw, list_or_empty(demographics));
    append_strings(&mut raw, list_or_empty(tags));
    match tag_nodes {
        Some(nodes) => {
            let names = node_names(nodes);
            append_strings(&mut raw, names);
        },
        None => {
            let empty: Vec<String> = Vec::new();
            assert(empty.deep_view() =~= Seq::<Seq<char>>::empty());
            append_strings(&mut raw, empty);
        },
    }
    assert(raw.deep_view() =~= raw_tags(c0));
    let rating = content_rating(
        match &rating_id {
            Some(r) => Some(r.as_str()),
            None => None,
        },
        raw.as_slice(),
    );
    let preferred_viewer = viewer(
        match &read_direction {
            Some(r) => Some(r.as_str()),
            None => None,
        },
        match &kind {
            Some(k) => Some(k.as_str()),
            None => None,
        },
        raw.as_slice(),
    );
    let shown = shown_tags(&raw);
    let cover = site_url(base_url, url_cover);
    let url = match site_url(base_url, url_path) {
        Some(u) => u,
        None => concat3(base_url, "/comic/", id.as_str()),
    };
    let authors = nonempty_names_exec(author_nodes);
    let artists = nonempty_names_exec(artist_nodes);
    let text: Option<String> = match summary {
        Some(s) => match s.text {
            Some(t) => Some(t),
            None => description,
        },
        None => description,
    };
    let synopsis_text: Option<String> = match text {
        Some(t) => {
            let tv = chars_of(t.as_str());
            let tt = trim_exec(&tv);
            if tt.len() > 0 {
                Some(string_from(&tt))
            } else {
                None
            }
        },
        None => None,
    };
    let publish_status = status(
        match &original_status {
            Some(o) => Some(o.as_str()),
            None => None,
        },
        match &upload_status {
            Some(u) => Some(u.as_str()),
            None => None,
        },
    );
    let title = shelf_title_exec(name.as_str(), &team, show_source_in_title);
    let tags_out = if shown.len() > 0 {
        Some(shown)
    } else {
        None
    };
    Manga {
        key: id,
        title,
        cover,
        url: Some(url),
        authors,
        artists,
        description: synopsis_text,
        tags: tags_out,
        status: publish_status,
        content_rating: rating,
        viewer: preferred_viewer,
    }
}


/// What a link or query points at. The two prefixes are different things, not
/// aliases: `/title/{id}` is the series, which owns one `/comic/` edition per
/// language, and only edition ids work as manga keys.
#[derive(Debug)]
pub enum Target {
    Title(String),
    Comic(String, Option<String>),
}

/// The mathematical content of a [`Target`].
pub enum TargetView {
    Title(Seq<char>),
    Comic(Seq<char>, Option<Seq<char>>),
}

impl View for Target {
    type V = TargetView;

    open spec fn view(&self) -> TargetView {
        match self {
            Target::Title(id) => TargetView::Title(id@),
            Target::Comic(id, chapter) => TargetView::Comic(id@, chapter.deep_view()),
        }
    }
}

/// The id a path segment starts with, up to a `-`. The site writes `/comic/_/{chapter}`,
/// where `_` stands in for a comic it does not name.
pub open spec fn segment_id(segment: Seq<char>) -> Option<Seq<char>> {
    let id = first_piece(segment, "-"@);
    if id.len() > 0 && id != "_"@ {
        Some(id)
    } else {
        None
    }
}

/// What a site url points at: a `/title/` series, or a `/comic/` edition and maybe
/// one of its chapters.
pub open spec fn parse_link_spec(url: Seq<char>) -> Option<TargetView> {
    match second_piece(url, "/title/"@) {
        Some(path) => match segment_id(first_piece(path, "/"@)) {
            Some(id) => Some(TargetView::Title(id)),
            None => None,
        },
        None => match second_piece(url, "/comic/"@) {
            Some(path) => match segment_id(first_piece(path, "/"@)) {
                Some(id) => Some(
                    TargetView::Comic(
                        id,
                        match second_piece(path, "/"@) {
                            Some(seg) => segment_id(seg),
                            None => None,
                        },
                    ),
                ),
                None => None,
            },
            None => None,
        },
    }
}

/// The id a path segment starts with.
fn segment_id_exec(segment: &[char]) -> (r: Option<String>)
    ensures
        r.deep_view() == segment_id(segment@),
{
    let dash = chars_of("-");
    let id = first_piece_exec(segment, &dash);
    let underscore = chars_of("_");
    if id.len() > 0 && !chars_eq(&id, &underscore) {
        Some(string_from(&id))
    } else {
        None
    }
}

/// What a site url points at.
pub fn parse_link(url: &str) -> (r: Option<Target>)
    ensures
        match r {
            Some(t) => parse_link_spec(url@) == Some(t@),
            None => parse_link_spec(url@) is None,
        },
{
    let u = chars_of(url);
    let slash = chars_of("/");
    let title = chars_of("/title/");
    if let Some(path) = second_piece_exec(&u, &title) {
        let seg = first_piece_exec(&path, &slash);
        return match segment_id_exec(&seg) {
            Some(id) => Some(Target::Title(id)),
            None => None,
        };
    }
    let comic = chars_of("/comic/");
    let path = match second_piece_exec(&u, &comic) {
        Some(p) => p,
        None => return None,
    };
    let seg = first_piece_exec(&path, &slash);
    let id = match segment_id_exec(&seg) {
        Some(id) => id,
        None => return None,
    };
    let chapter = match second_piece_exec(&path, &slash) {
        Some(next) => segment_id_exec(&next),
        None => None,
    };
    Some(Target::Comic(id, chapter))
}

/// `c` is an ASCII letter or digit, or `_`.
pub open spec fn id_char(c: char) -> bool {
    ('a' <= c && c <= 'z') || ('A' <= c && c <= 'Z') || ('0' <= c && c <= '9') || c == '_'
}

/// What a search query points at: a pasted link, or `id:` and an edition id. A
/// bare id is not accepted, since it would swallow ordinary search terms.
pub open spec fn target_from_query_spec(query: Seq<char>) -> Option<TargetView> {
    let q = trim(query);
    if contains(q, "/title/"@) || contains(q, "/comic/"@) {
        parse_link_spec(q)
    } else if q.len() >= 3 && eq_ignore_ascii_case(q.take(3), "id:"@) {
        let id = first_piece(trim(q.skip(3)), "-"@);
        if id.len() > 0 && forall|i: int| 0 <= i < id.len() ==> id_char(#[trigger] id[i]) {
            Some(TargetView::Comic(id, None))
        } else {
            None
        }
    } else {
        None
    }
}

/// Target of a pasted url or an `id:<value>` query. The site's check of the first
/// three bytes against `id:` is, for ASCII, a check of the first three characters.
pub fn target_from_query(query: &str) -> (r: Option<Target>)
    ensures
        match r {
            Some(t) => target_from_query_spec(query@) == Some(t@),
            None => target_from_query_spec(query@) is None,
        },
{
    let all = chars_of(query);
    let q = trim_exec(&all);
    let title = chars_of("/title/");
    let comic = chars_of("/comic/");
    if contains_exec(&q, &title) || contains_exec(&q, &comic) {
        let qs = string_from(&q);
        return parse_link(qs.as_str());
    }
    if q.len() < 3 {
        return None;
    }
    let head = slice_range(&q, 0, 3);
    let prefix = chars_of("id:");
    assert(head@ =~= q@.take(3));
    if !eq_ignore_ascii_case_exec(&head, &prefix) {
        return None;
    }
    let tail = slice_range(&q, 3, q.len());
    assert(tail@ =~= q@.skip(3));
    let rest = trim_exec(&tail);
    let dash = chars_of("-");
    let id = first_piece_exec(&rest, &dash);
    if id.len() == 0 {
        return None;
    }
    let mut i: usize = 0;
    while i < id.len()
        invariant
            i <= id@.len(),
            forall|j: int| 0 <= j < i ==> id_char(#[trigger] id@[j]),
            q@ == trim(query@),
            !(contains(q@, "/title/"@) || contains(q@, "/comic/"@)),
            q@.len() >= 3,
            eq_ignore_ascii_case(q@.take(3), "id:"@),
            id@ == first_piece(trim(q@.skip(3)), "-"@),
            id@.len() > 0,
        decreases id.len() - i,
    {
        let c = id[i];
        if !(('a' <= c && c <= 'z') || ('A' <= c && c <= 'Z') || ('0' <= c && c <= '9') || c
            == '_') {
            assert(!id_char(id@[i as int]));
            return None;
        }
        i += 1;
    }
    Some(Target::Comic(string_from(&id), None))
}

/// The edition key a target stands for: a comic's own id, or for a title the edition
/// its page offers, which the caller resolves.
pub fn comic_key(target: Target, resolved_edition: Option<String>) -> (r: Result<String, String>)
    ensures
        match target {
            Target::Comic(key, _) => r matches Ok(k) && k@ == key@,
            Target::Title(_) => match resolved_edition {
                Some(e) => r matches Ok(k) && k@ == e@,
                None => r matches Err(m) && m@ == "No comics are available for this series"@,
            },
        },
{
    match target {
        Target::Comic(key, _) => Ok(key),
        Target::Title(_) => match resolved_edition {
            Some(e) => Ok(e),
            None => Err(String::from_str("No comics are available for this series")),
        },
    }
}

/// The edition a link on a title page names, with its language: the path after
/// `/comic/` must be one segment, `{id}-{language}...`.
pub open spec fn edition_link(href: Seq<char>) -> Option<(Seq<char>, Seq<char>)> {
    match second_piece(href, "/comic/"@) {
        Some(path) => {
            let p = trim_end_char(path, '/');
            let edition = first_piece(p, "/"@);
            if second_piece(p, "/"@) is Some {
                None
            } else {
                match second_piece(edition, "-"@) {
                    Some(language) => {
                        let id = first_piece(edition, "-"@);
                        if id.len() > 0 {
                            Some((id, language))
                        } else {
                            None
                        }
                    },
                    None => None,
                }
            }
        },
        None => None,
    }
}

/// The distinct editions the links name, first mention first.
pub open spec fn title_editions(hrefs: Seq<Option<Seq<char>>>) -> Seq<(Seq<char>, Seq<char>)>
    decreases hrefs.len(),
{
    if hrefs.len() == 0 {
        Seq::empty()
    } else {
        let found = title_editions(hrefs.drop_last());
        match hrefs.last() {
            Some(h) => match edition_link(h) {
                Some(e) => if exists|j: int| 0 <= j < found.len() && #[trigger] found[j].0 == e.0 {
                    found
                } else {
                    found.push(e)
                },
                None => found,
            },
            None => found,
        }
    }
}

/// The first edition in a language the reader picked.
pub open spec fn first_in_languages(
    editions: Seq<(Seq<char>, Seq<char>)>,
    languages: Seq<Seq<char>>,
) -> Option<Seq<char>>
    decreases editions.len(),
{
    if editions.len() == 0 {
        None
    } else if languages.contains(editions[0].1) {
        Some(editions[0].0)
    } else {
        first_in_languages(editions.drop_first(), languages)
    }
}

/// The first edition in a language the reader picked, else the first edition.
pub open spec fn preferred_edition(
    editions: Seq<(Seq<char>, Seq<char>)>,
    languages: Seq<Seq<char>>,
) -> Option<Seq<char>> {
    match first_in_languages(editions, languages) {
        Some(id) => Some(id),
        None => if editions.len() > 0 {
            Some(editions[0].0)
        } else {
            None
        },
    }
}

/// Whether an edition id is already among `ids`.
fn seen_id(ids: &Vec<String>, id: &[char]) -> (r: bool)
    ensures
        r == exists|j: int| 0 <= j < ids@.len() && #[trigger] ids.deep_view()[j] == id@,
{
    let r = list_contains(ids.as_slice(), id);
    proof {
        if r {
            let j = choose|j: int| 0 <= j < ids.deep_view().len() && ids.deep_view()[j] == id@;
            assert(ids.deep_view()[j] == id@);
        }
    }
    r
}

/// The edition a `/title/` page offers: its "Sources" list links one comic per
/// language, so one the reader picked wins over the site's first choice. `hrefs`
/// are the targets of the page's links into `/comic/`.
pub fn title_edition(hrefs: &[Option<String>], languages: &[String]) -> (r: Option<String>)
    ensures
        r.deep_view() == preferred_edition(title_editions(hrefs.deep_view()), languages.deep_view()),
{
    let ghost hv = hrefs.deep_view();
    let mut ids: Vec<String> = Vec::new();
    let mut langs: Vec<String> = Vec::new();
    let mut i: usize = 0;
    let comic = chars_of("/comic/");
    let slash = chars_of("/");
    let dash = chars_of("-");
    while i < hrefs.len()
        invariant
            i <= hrefs@.len(),
            hv == hrefs.deep_view(),
            comic@ == "/comic/"@,
            slash@ == "/"@,
            dash@ == "-"@,
            ids@.len() == langs@.len(),
            ids@.len() == title_editions(hv.take(i as int)).len(),
            forall|j: int|
                0 <= j < ids@.len() ==> (#[trigger] ids.deep_view()[j], langs.deep_view()[j])
                    == title_editions(hv.take(i as int))[j],
        decreases hrefs.len() - i,
    {
        let ghost prefix = hv.take(i + 1);
        let ghost found = title_editions(hv.take(i as int));
        assert(prefix.drop_last() =~= hv.take(i as int));
        assert(prefix.last() == hv[i as int]);
        if let Some(h) = &hrefs[i] {
            let hc = chars_of(h.as_str());
            if let Some(path) = second_piece_exec(&hc, &comic) {
                let p = trim_end_char_exec(&path, '/');
                let edition = first_piece_exec(&p, &slash);
                if second_piece_exec(&p, &slash).is_none() {
                    if let Some(language) = second_piece_exec(&edition, &dash) {
                        let id = first_piece_exec(&edition, &dash);
                        if id.len() > 0 {
                            assert(edition_link(h@) == Some((id@, language@)));
                            let dup = seen_id(&ids, &id);
                            assert(dup == exists|j: int|
                                0 <= j < found.len() && #[trigger] found[j].0 == id@) by {
                                if dup {
                                    let j = choose|j: int|
                                        0 <= j < ids@.len() && #[trigger] ids.deep_view()[j]
                                            == id@;
                                    assert(found[j].0 == id@);
                                }
                                if exists|j: int|
                                    0 <= j < found.len() && #[trigger] found[j].0 == id@ {
                                    let j = choose|j: int|
                                        0 <= j < found.len() && #[trigger] found[j].0 == id@;
                                    assert(ids.deep_view()[j] == id@);
                                }
                            }
                            if !dup {
                                let ghost old_ids = ids.deep_view();
                                let ghost old_langs = langs.deep_view();
                                push_string(&mut ids, string_from(&id));
                                push_string(&mut langs, string_from(&language));
                                assert forall|j: int| 0 <= j < ids@.len() implies (
                                    #[trigger] ids.deep_view()[j],
                                    langs.deep_view()[j],
                                ) == title_editions(prefix)[j] by {
                                    if j < old_ids.len() {
                                        assert(ids.deep_view()[j] == old_ids[j]);
                                        assert(langs.deep_view()[j] == old_langs[j]);
                                    }
                                }
                            }
                        }
                    }
                }
            }
        }
        i += 1;
    }
    assert(hv.take(hrefs@.len() as int) =~= hv);
    let ghost eds = title_editions(hv);
    let ghost lv = languages.deep_view();
    let n = ids.len();
    let mut k: usize = 0;
    assert(eds.skip(0) =~= eds);
    while k < n
        invariant
            n == eds.len(),
            hv == hrefs.deep_view(),
            eds == title_editions(hv),
            k <= n,
            ids@.len() == n,
            langs@.len() == n,
            lv == languages.deep_view(),
            forall|j: int|
                0 <= j < n ==> (#[trigger] ids.deep_view()[j], langs.deep_view()[j]) == eds[j],
            forall|j: int| 0 <= j < k ==> !lv.contains(#[trigger] eds[j].1),
        decreases n - k,
    {
        let lang = chars_of(langs[k].as_str());
        assert(langs.deep_view()[k as int] == langs@[k as int]@);
        assert(ids.deep_view()[k as int] == ids@[k as int]@);
        assert(lang@ == eds[k as int].1);
        if list_contains(languages, &lang) {
            proof {
                lemma_preferred_after(eds, lv, k as int);
            }
            let id = ids[k].clone();
            assert(id@ == eds[k as int].0);
            assert(preferred_edition(eds, lv) == Some(id@));
            assert(Some(id).deep_view() == Some(id@));
            return Some(id);
        }
        k += 1;
    }
    proof {
        lemma_preferred_none(eds, lv);
    }
    if n > 0 {
        assert(ids.deep_view()[0] == ids@[0]@);
        Some(ids[0].clone())
    } else {
        None
    }
}

/// With no picked language among the first `k` editions, the preference is the
/// first edition from `k` on in a picked language, or the very first edition.
proof fn lemma_preferred_after(
    eds: Seq<(Seq<char>, Seq<char>)>,
    langs: Seq<Seq<char>>,
    k: int,
)
    requires
        0 <= k < eds.len(),
        forall|j: int| 0 <= j < k ==> !langs.contains(#[trigger] eds[j].1),
        langs.contains(eds[k].1),
    ensures
        first_in_languages(eds, langs) == Some(eds[k].0),
    decreases k,
{
    if k > 0 {
        assert(!langs.contains(eds[0].1));
        let rest = eds.drop_first();
        assert forall|j: int| 0 <= j < k - 1 implies !langs.contains(#[trigger] rest[j].1) by {
            assert(rest[j] == eds[j + 1]);
        }
        lemma_preferred_after(rest, langs, k - 1);
    }
}

/// With no picked language among any edition, the preference is the first edition.
proof fn lemma_preferred_none(eds: Seq<(Seq<char>, Seq<char>)>, langs: Seq<Seq<char>>)
    requires
        forall|j: int| 0 <= j < eds.len() ==> !langs.contains(#[trigger] eds[j].1),
    ensures
        first_in_languages(eds, langs) is None,
    decreases eds.len(),
{
    if eds.len() > 0 {
        let rest = eds.drop_first();
        assert forall|j: int| 0 <= j < rest.len() implies !langs.contains(#[trigger] rest[j].1) by {
            assert(rest[j] == eds[j + 1]);
        }
        lemma_preferred_none(rest, langs);
    }
}

} // verus!

verus! {

/// The language code in a chapter path, whose last segment is `{id}-{lang}-{name}`.
pub open spec fn language_from_path_spec(url_path: Option<Seq<char>>) -> Option<Seq<char>> {
    match url_path {
        Some(p) => {
            let segment = last_piece(trim_end_char(p, '/'), "/"@);
            match second_piece(segment, "-"@) {
                Some(code) => normalize_language_spec(code),
                None => None,
            }
        },
        None => None,
    }
}

/// The language code in a chapter path, whose last segment is `{id}-{lang}-{name}`.
pub fn language_from_path(url_path: Option<&str>) -> (r: Option<String>)
    ensures
        r.deep_view() == language_from_path_spec(opt_str(url_path)),
{
    match url_path {
        Some(p) => {
            let all = chars_of(p);
            let trimmed = trim_end_char_exec(&all, '/');
            let slash = chars_of("/");
            let dash = chars_of("-");
            let segment = last_piece_exec(&trimmed, &slash);
            match second_piece_exec(&segment, &dash) {
                Some(code) => {
                    let s = string_from(&code);
                    normalize_language(s.as_str())
                },
                None => None,
            }
        },
        None => None,
    }
}

/// A timestamp in seconds: the API mixes seconds and milliseconds, and anything
/// past 10^12 is read as milliseconds; nothing for one that is not positive.
pub open spec fn unix_seconds_spec(timestamp: i64) -> Option<i64> {
    if timestamp > 0 {
        if timestamp > 1_000_000_000_000 {
            Some((timestamp / 1000) as i64)
        } else {
            Some(timestamp)
        }
    } else {
        None
    }
}

/// A timestamp in seconds, from seconds or milliseconds.
pub fn unix_seconds(timestamp: i64) -> (r: Option<i64>)
    ensures
        r == unix_seconds_spec(timestamp),
{
    if timestamp > 0 {
        if timestamp > 1_000_000_000_000 {
            Some(timestamp / 1000)
        } else {
            Some(timestamp)
        }
    } else {
        None
    }
}

/// Some cleaned text, unless it is blank.
pub open spec fn cleaned_nonblank(text: Option<Seq<char>>) -> Option<Seq<char>> {
    match text {
        Some(t) => if clean(t).len() > 0 {
            Some(clean(t))
        } else {
            None
        },
        None => None,
    }
}

/// A chapter's title: its display name, with the extra title after `: ` where the
/// two differ; either alone where only one is there.
pub open spec fn chapter_title_spec(dname: Option<Seq<char>>, title: Option<Seq<char>>) -> Option<
    Seq<char>,
> {
    match (cleaned_nonblank(dname), cleaned_nonblank(title)) {
        (Some(d), Some(e)) => if d != e {
            Some(d + ": "@ + e)
        } else {
            Some(d)
        },
        (Some(d), None) => Some(d),
        (None, Some(e)) => Some(e),
        (None, None) => None,
    }
}

/// Who made a chapter: the team the caller knows, else the aggregator's name title
/// cased, else the uploaders' profiles, else their groups.
pub open spec fn chapter_scanlators(
    team: Option<Seq<char>>,
    src_name: Option<Seq<char>>,
    profiles: Option<Seq<Node<Option<NamedData>>>>,
    groups: Option<Seq<Node<Option<NamedData>>>>,
) -> Seq<Seq<char>> {
    let from_team = match team {
        Some(t) => if trim(t).len() > 0 {
            seq![trim(t)]
        } else {
            Seq::empty()
        },
        None => Seq::empty(),
    };
    let from_source = match src_name {
        Some(n) => if title_case(n).len() > 0 {
            seq![title_case(n)]
        } else {
            Seq::empty()
        },
        None => Seq::empty(),
    };
    let from_profiles = match profiles {
        Some(p) => node_names_spec(p),
        None => Seq::empty(),
    };
    let from_groups = match groups {
        Some(g) => node_names_spec(g),
        None => Seq::empty(),
    };
    if from_team.len() > 0 {
        from_team
    } else if from_source.len() > 0 {
        from_source
    } else if from_profiles.len() > 0 {
        from_profiles
    } else {
        from_groups
    }
}

/// The first of three values that is there.
pub open spec fn first_some(a: Option<i64>, b: Option<i64>, c: Option<i64>) -> Option<i64> {
    match a {
        Some(x) => Some(x),
        None => match b {
            Some(x) => Some(x),
            None => c,
        },
    }
}

/// A chapter's upload date in seconds: by publication first where asked, else by
/// revision first.
pub open spec fn chapter_date(data: ChapterData, published_first: bool) -> Option<i64> {
    let chosen = if published_first {
        first_some(data.date_public, data.date_modify, data.date_create)
    } else {
        first_some(data.date_modify, data.date_create, data.date_public)
    };
    match chosen {
        Some(t) => unix_seconds_spec(t),
        None => None,
    }
}

/// Whether the API lists the chapter as live: its status is absent or `normal`.
pub open spec fn chapter_live(data: ChapterData) -> bool {
    match data.db_status {
        Some(s) => s@ == "normal"@,
        None => true,
    }
}

/// The chapter the app shows for a live record of the API.
pub open spec fn chapter_from_data_spec(
    data: ChapterData,
    base_url: Seq<char>,
    language: Option<Seq<char>>,
    team: Option<Seq<char>>,
    published_first: bool,
) -> ChapterView {
    let scanlators = chapter_scanlators(
        team,
        data.src_name.deep_view(),
        match data.profile_nodes {
            Some(p) => Some(p@),
            None => None,
        },
        match data.group_nodes {
            Some(g) => Some(g@),
            None => None,
        },
    );
    ChapterView {
        key: data.id@,
        title: chapter_title_spec(data.dname.deep_view(), data.title.deep_view()),
        chapter_number: match data.cha_num {
            Some(n) => Some(ChapterNumber::Bits(n)),
            None => match data.serial {
                Some(n) => Some(ChapterNumber::Bits(n)),
                None => None,
            },
        },
        volume_number: match data.vol_num {
            Some(n) => Some(ChapterNumber::Bits(n)),
            None => None,
        },
        date_uploaded: chapter_date(data, published_first),
        scanlators: if scanlators.len() > 0 {
            Some(scanlators)
        } else {
            None
        },
        url: Some(
            match site_url_spec(base_url, data.url_path.deep_view()) {
                Some(u) => u,
                None => base_url + "/comic/_/"@ + data.id@,
            },
        ),
        language: match language {
            Some(l) => Some(l),
            None => language_from_path_spec(data.url_path.deep_view()),
        },
        thumbnail: None,
    }
}

} // verus!

verus! {

/// Some cleaned text, unless it is blank.
fn cleaned_nonblank_exec(text: &Option<String>) -> (r: Option<String>)
    ensures
        r.deep_view() == cleaned_nonblank(text.deep_view()),
{
    match text {
        Some(t) => {
            let c = clean_text(t.as_str());
            if c.as_str().is_empty() {
                None
            } else {
                Some(c)
            }
        },
        None => None,
    }
}

/// A chapter's title from its display name and extra title.
pub fn chapter_title(dname: &Option<String>, title: &Option<String>) -> (r: Option<String>)
    ensures
        r.deep_view() == chapter_title_spec(dname.deep_view(), title.deep_view()),
{
    let display_name = cleaned_nonblank_exec(dname);
    let extra_title = cleaned_nonblank_exec(title);
    match (display_name, extra_title) {
        (Some(d), Some(e)) => {
            if !str_eq(d.as_str(), e.as_str()) {
                Some(concat3(d.as_str(), ": ", e.as_str()))
            } else {
                Some(d)
            }
        },
        (Some(d), None) => Some(d),
        (None, Some(e)) => Some(e),
        (None, None) => None,
    }
}

/// Who made a chapter, by the precedence of [`chapter_scanlators`].
fn scanlators_exec(
    team: Option<&str>,
    src_name: Option<String>,
    profiles: Option<Vec<Node<Option<NamedData>>>>,
    groups: Option<Vec<Node<Option<NamedData>>>>,
) -> (r: Vec<String>)
    ensures
        r.deep_view() == chapter_scanlators(
            opt_str(team),
            src_name.deep_view(),
            match profiles {
                Some(p) => Some(p@),
                None => None,
            },
            match groups {
                Some(g) => Some(g@),
                None => None,
            },
        ),
{
    if let Some(t) = team {
        let all = chars_of(t);
        let trimmed = trim_exec(&all);
        if trimmed.len() > 0 {
            let r = vec![string_from(&trimmed)];
            assert(r.deep_view() =~= seq![trim(t@)]);
            return r;
        }
    }
    if let Some(n) = &src_name {
        let cased = title_case_text(n.as_str());
        if !cased.as_str().is_empty() {
            let r = vec![cased];
            assert(r.deep_view() =~= seq![title_case(n@)]);
            return r;
        }
    }
    let from_profiles = match profiles {
        Some(p) => node_names(p),
        None => Vec::new(),
    };
    if from_profiles.len() > 0 {
        return from_profiles;
    }
    let r = match groups {
        Some(g) => node_names(g),
        None => Vec::new(),
    };
    proof {
        if r.deep_view().len() == 0 {
            assert(r.deep_view() =~= Seq::<Seq<char>>::empty());
        }
    }
    r
}

/// The first of three values that is there.
fn first_some_exec(a: Option<i64>, b: Option<i64>, c: Option<i64>) -> (r: Option<i64>)
    ensures
        r == first_some(a, b, c),
{
    match a {
        Some(x) => Some(x),
        None => match b {
            Some(x) => Some(x),
            None => c,
        },
    }
}

/// The chapter the app shows for a record of the API, or nothing for one the site
/// took down. `language` and `team` are what the caller already knows of the comic;
/// with `published_first` chapters are dated by publication rather than revision.
pub fn chapter_from_data(
    data: ChapterData,
    base_url: &str,
    language: Option<&str>,
    team: Option<&str>,
    published_first: bool,
) -> (r: Option<Chapter>)
    ensures
        match r {
            Some(c) => chapter_live(data) && c@ == chapter_from_data_spec(
                data,
                base_url@,
                opt_str(language),
                opt_str(team),
                published_first,
            ),
            None => !chapter_live(data),
        },
{
    let ghost d = data;
    let ChapterData {
        id,
        db_status,
        serial,
        cha_num,
        vol_num,
        dname,
        title: chapter_title_text,
        url_path,
        date_create,
        date_modify,
        date_public,
        src_name,
        profile_nodes,
        group_nodes,
        comic_node: _,
    } = data;
    if let Some(s) = &db_status {
        if !str_eq(s.as_str(), "normal") {
            return None;
        }
    }
    let title = chapter_title(&dname, &chapter_title_text);
    let scanlators = scanlators_exec(team, src_name, profile_nodes, group_nodes);
    let lang = match language {
        Some(l) => Some(String::from_str(l)),
        None => match &url_path {
            Some(p) => language_from_path(Some(p.as_str())),
            None => None,
        },
    };
    let url = match site_url(base_url, url_path) {
        Some(u) => u,
        None => concat3(base_url, "/comic/_/", id.as_str()),
    };
    let chosen = if published_first {
        first_some_exec(date_public, date_modify, date_create)
    } else {
        first_some_exec(date_modify, date_create, date_public)
    };
    let date_uploaded = match chosen {
        Some(t) => unix_seconds(t),
        None => None,
    };
    let c = Chapter {
        key: id,
        title,
        chapter_number: match cha_num {
            Some(n) => Some(ChapterNumber::Bits(n)),
            None => match serial {
                Some(n) => Some(ChapterNumber::Bits(n)),
                None => None,
            },
        },
        volume_number: match vol_num {
            Some(n) => Some(ChapterNumber::Bits(n)),
            None => None,
        },
        date_uploaded,
        scanlators: if scanlators.len() > 0 {
            Some(scanlators)
        } else {
            None
        },
        url: Some(url),
        language: lang,
        thumbnail: None,
    };
    proof {
        let spec = chapter_from_data_spec(d, base_url@, opt_str(language), opt_str(team), published_first);
        assert(c@.scanlators == spec.scanlators);
        assert(c@.language == spec.language);
    }
    Some(c)
}

/// A digit is no whitespace.
proof fn lemma_digits_plain(s: Seq<char>)
    requires
        forall|i: int| 0 <= i < s.len() ==> is_digit(#[trigger] s[i]) || s[i] == '-',
    ensures
        trim(s) == s,
{
    assert forall|i: int| 0 <= i < s.len() implies !is_whitespace(#[trigger] s[i]) by {
        assert(is_digit(s[i]) || s[i] == '-');
    }
    lemma_trim_plain(s);
}

/// The range a lone non-negative bound is written as reads back as that bound twice.
proof fn lemma_range_single(v: i64)
    requires
        v >= 0,
    ensures
        parse_range_spec(decimal(v as int)) == (Some(v), Some(v)),
{
    let d = decimal(v as int);
    lemma_decimal_chars(v as int);
    assert(lacks(d, '-')) by {
        assert forall|i: int| 0 <= i < d.len() implies d[i] != '-' by {
            assert(is_digit(d[i]));
        }
    }
    reveal_strlit("-");
    assert("-"@ =~= seq!['-']);
    lemma_split_once_none(d, '-');
    lemma_digits_plain(d);
    lemma_parse_i64_decimal(v);
}

/// Writing a chapter-count range the site's way twice changes nothing past the first
/// time, where the range's bounds are not negative.
pub proof fn law_chapter_count_range_idempotent(value: Seq<char>)
    requires
        parse_range_spec(value).0 matches Some(a) ==> a >= 0,
        parse_range_spec(value).1 matches Some(b) ==> b >= 0,
    ensures
        chapter_count_range_spec(chapter_count_range_spec(value)) == chapter_count_range_spec(value),
{
    reveal_strlit("-");
    assert("-"@ =~= seq!['-']);
    match parse_range_spec(value) {
        (Some(a), Some(b)) => {
            if a != b {
                let da = decimal(a as int);
                let db = decimal(b as int);
                lemma_decimal_chars(a as int);
                lemma_decimal_chars(b as int);
                assert(lacks(da, '-')) by {
                    assert forall|i: int| 0 <= i < da.len() implies da[i] != '-' by {
                        assert(is_digit(da[i]));
                    }
                }
                lemma_split_once_char(da, '-', db);
                assert(da + "-"@ + db == da + seq!['-'] + db);
                lemma_digits_plain(da);
                lemma_digits_plain(db);
                lemma_parse_i64_decimal(a);
                lemma_parse_i64_decimal(b);
            } else {
                lemma_range_single(a);
            }
        },
        (Some(a), None) => {
            lemma_range_single(a);
        },
        (None, Some(b)) => {
            lemma_range_single(b);
        },
        (None, None) => {
            let e = Seq::<char>::empty();
            assert(lacks(e, '-'));
            lemma_split_once_none(e, '-');
            lemma_trim_plain(e);
        },
    }
}

/// A string that neither starts nor ends with whitespace is its own trim.
proof fn lemma_trim_fixed(s: Seq<char>)
    requires
        s.len() > 0,
        !is_whitespace(s[0]),
        !is_whitespace(s.last()),
    ensures
        trim(s) == s,
{
    assert(trim_start(s) == s);
    assert(trim_end(s) == s);
}

/// A trimmed string neither starts nor ends with whitespace.
proof fn lemma_trim_ends(s: Seq<char>)
    ensures
        trim(s).len() > 0 ==> !is_whitespace(trim(s)[0]) && !is_whitespace(trim(s).last()),
{
    crate::text::lemma_trim_start_skip(s);
    crate::text::lemma_trim_end_take(trim_start(s));
    if trim(s).len() > 0 {
        assert(trim(s)[0] == trim_start(s)[0]);
    }
}

/// `p` leads `p + s`.
proof fn lemma_prefix_extends(p: Seq<char>, q: Seq<char>, s: Seq<char>)
    requires
        is_prefix(p, q),
    ensures
        is_prefix(p, q + s),
{
    assert((q + s).take(p.len() as int) =~= q.take(p.len() as int));
}

/// Making a url absolute twice changes nothing past the first time, against a mirror
/// url that starts with `http://` or `https://`.
pub proof fn law_absolute_url_idempotent(base_url: Seq<char>, url: Seq<char>)
    requires
        is_prefix("http://"@, base_url) || is_prefix("https://"@, base_url),
    ensures
        absolute_url_spec(base_url, absolute_url_spec(base_url, url)) == absolute_url_spec(
            base_url,
            url,
        ),
{
    reveal_strlit("http://");
    reveal_strlit("https://");
    reveal_strlit("//");
    reveal_strlit("/");
    let u = trim(url);
    lemma_trim_ends(url);
    let r = absolute_url_spec(base_url, url);
    if u.len() == 0 {
        assert(trim(r) =~= r);
    } else {
        if is_prefix("http://"@, base_url) {
            assert(base_url[0] == base_url.take(7)[0]);
            assert(("http://"@)[0] == 'h');
        } else {
            assert(base_url[0] == base_url.take(8)[0]);
            assert(("https://"@)[0] == 'h');
        }
        assert(base_url[0] == 'h');
        if is_prefix("http://"@, u) || is_prefix("https://"@, u) {
            lemma_trim_fixed(u);
        } else if is_prefix("//"@, u) {
            let rest = u.skip(2);
            assert(r =~= "https://"@ + rest);
            assert(r[0] == 'h');
            if rest.len() > 0 {
                assert(r.last() == u.last());
            } else {
                assert(r.last() == '/');
            }
            lemma_trim_fixed(r);
            assert(is_prefix("https://"@, r)) by {
                assert(r.take(8) =~= "https://"@);
            }
        } else {
            let joined = if is_prefix("/"@, u) {
                base_url + u
            } else {
                base_url + "/"@ + u
            };
            assert(r == joined);
            assert(r[0] == 'h');
            assert(r.last() == u.last());
            lemma_trim_fixed(r);
            if is_prefix("/"@, u) {
                if is_prefix("http://"@, base_url) {
                    lemma_prefix_extends("http://"@, base_url, u);
                } else {
                    lemma_prefix_extends("https://"@, base_url, u);
                }
            } else {
                if is_prefix("http://"@, base_url) {
                    lemma_prefix_extends("http://"@, base_url, "/"@ + u);
                } else {
                    lemma_prefix_extends("https://"@, base_url, "/"@ + u);
                }
                assert(base_url + "/"@ + u =~= base_url + ("/"@ + u));
            }
        }
    }
}

/// A string that lacks `/` contains no path marker.
proof fn lemma_no_slash_no_marker(s: Seq<char>, marker: Seq<char>)
    requires
        lacks(s, '/'),
        marker.len() > 0,
        marker[0] == '/',
    ensures
        !contains(s, marker),
{
    if contains(s, marker) {
        let i = choose|i: int| matches_at(s, marker, i);
        assert(s.subrange(i, i + marker.len())[0] == s[i]);
    }
}

/// A query of `id:` and an edition id names that edition.
pub proof fn law_id_query_names_edition(id: Seq<char>)
    requires
        id.len() > 0,
        forall|i: int| 0 <= i < id.len() ==> id_char(#[trigger] id[i]),
    ensures
        target_from_query_spec("id:"@ + id) == Some(TargetView::Comic(id, None)),
{
    reveal_strlit("id:");
    reveal_strlit("/title/");
    reveal_strlit("/comic/");
    reveal_strlit("-");
    let q = "id:"@ + id;
    assert forall|i: int| 0 <= i < q.len() implies !is_whitespace(#[trigger] q[i]) by {
        if i >= 3 {
            assert(q[i] == id[i - 3]);
            assert(id_char(id[i - 3]));
        }
    }
    lemma_trim_plain(q);
    assert forall|i: int| 0 <= i < id.len() implies !is_whitespace(#[trigger] id[i]) by {
        assert(id_char(id[i]));
    }
    lemma_trim_plain(id);
    assert(lacks(q, '/')) by {
        assert forall|i: int| 0 <= i < q.len() implies q[i] != '/' by {
            if i >= 3 {
                assert(q[i] == id[i - 3]);
                assert(id_char(id[i - 3]));
            }
        }
    }
    lemma_no_slash_no_marker(q, "/title/"@);
    lemma_no_slash_no_marker(q, "/comic/"@);
    assert(q.take(3) =~= "id:"@);
    assert(q.skip(3) =~= id);
    assert(lacks(id, '-')) by {
        assert forall|i: int| 0 <= i < id.len() implies id[i] != '-' by {
            assert(id_char(id[i]));
        }
    }
    assert("-"@ =~= seq!['-']);
    lemma_split_once_none(id, '-');
}

/// The editions a title lists are its wanted editions ranked: ordered by key (the
/// reader's language order, then most chapters first), each with its own key, and
/// those of equal key in the order the title gives them; a browse keeps only the
/// first of them.
pub proof fn law_editions_ranked(title: TitleNode, languages: Seq<Seq<char>>)
    ensures
        sorted_by_key(chosen_editions(title, languages, true)),
        forall|k: SortKey|
            #[trigger] keyed(chosen_editions(title, languages, true), k) == keyed(
                keyed_editions(
                    wanted_editions(
                        match title.comic_nodes {
                            Some(v) => v@,
                            None => Seq::empty(),
                        },
                        languages,
                    ),
                    languages,
                ),
                k,
            ),
        forall|i: int|
            0 <= i < chosen_editions(title, languages, true).len() ==> (#[trigger] chosen_editions(
                title,
                languages,
                true,
            )[i]).0 == edition_key(chosen_editions(title, languages, true)[i].1, languages),
        chosen_editions(title, languages, false) == if chosen_editions(title, languages, true).len()
            == 0 {
            Seq::empty()
        } else {
            chosen_editions(title, languages, true).take(1)
        },
{
    let nodes = match title.comic_nodes {
        Some(v) => v@,
        None => Seq::<Node<Option<ComicData>>>::empty(),
    };
    let inp = keyed_editions(wanted_editions(nodes, languages), languages);
    lemma_stable_sorted_exists(inp);
    let out = stable_sorted(inp);
    let p = |e: (SortKey, ComicData)| e.0 == edition_key(e.1, languages);
    lemma_stable_sort_keeps(out, inp, p);
    if out.len() == 0 {
        assert(out =~= Seq::<(SortKey, ComicData)>::empty());
    } else if out.len() == 1 {
        assert(out.take(1) =~= out);
    }
}

/// How a comic's rating shows: pornographic by its rating id or any genre is NSFW,
/// else the ids `suggestive` and `erotica` are Suggestive, and anything else, an
/// absent id included, is Safe; and the comic the app shows carries that rating,
/// judged over all its raw tags.
pub proof fn law_content_rating(rating: Option<Seq<char>>, genres: Seq<Seq<char>>, comic: ComicData, base_url: Seq<char>, show_source: bool)
    ensures
        rating == Some("pornographic"@) ==> content_rating_spec(rating, genres) == ContentRating::NSFW,
        any_pornographic(genres) ==> content_rating_spec(rating, genres) == ContentRating::NSFW,
        !any_pornographic(genres) && (rating == Some("suggestive"@) || rating == Some("erotica"@))
            ==> content_rating_spec(rating, genres) == ContentRating::Suggestive,
        !any_pornographic(genres) && rating != Some("suggestive"@) && rating != Some("erotica"@)
            && rating != Some("pornographic"@) ==> content_rating_spec(rating, genres)
            == ContentRating::Safe,
        rating is None && !any_pornographic(genres) ==> content_rating_spec(rating, genres)
            == ContentRating::Safe,
        manga_from_data_spec(comic, base_url, show_source).content_rating == content_rating_spec(
            comic.content_rating.deep_view(),
            raw_tags(comic),
        ),
{
    reveal_strlit("pornographic");
    reveal_strlit("suggestive");
    reveal_strlit("erotica");
    assert(("suggestive"@).len() != ("pornographic"@).len());
    assert(("erotica"@).len() != ("pornographic"@).len());
}

/// A chapter's number is its `chaNum` where the record has one, its serial only
/// otherwise, and none where it has neither; its volume is its `volNum`.
pub proof fn law_chapter_number(
    data: ChapterData,
    base_url: Seq<char>,
    language: Option<Seq<char>>,
    team: Option<Seq<char>>,
    published_first: bool,
)
    ensures
        data.cha_num matches Some(n) ==> chapter_from_data_spec(
            data,
            base_url,
            language,
            team,
            published_first,
        ).chapter_number == Some(ChapterNumber::Bits(n)),
        data.cha_num is None ==> (data.serial matches Some(n) ==> chapter_from_data_spec(
            data,
            base_url,
            language,
            team,
            published_first,
        ).chapter_number == Some(ChapterNumber::Bits(n))),
        data.cha_num is None && data.serial is None ==> chapter_from_data_spec(
            data,
            base_url,
            language,
            team,
            published_first,
        ).chapter_number is None,
        chapter_from_data_spec(data, base_url, language, team, published_first).volume_number
            == match data.vol_num {
            Some(n) => Some(ChapterNumber::Bits(n)),
            None => None::<ChapterNumber>,
        },
        chapter_from_data_spec(data, base_url, language, team, published_first).key == data.id@,
{
}

/// A comic's status reads its stated status, else its upload status: completed wins
/// over releasing or ongoing, which win over hiatus, then cancelled; other words are
/// unknown.
pub proof fn law_status(stated: Option<Seq<char>>, upload: Option<Seq<char>>, words: Seq<char>)
    ensures
        stated == Some(words) || (stated is None && upload == Some(words)) ==> {
            &&& contains(words, "completed"@) ==> status_spec(stated, upload) == MangaStatus::Completed
            &&& !contains(words, "completed"@) && (contains(words, "ongoing"@) || contains(
                words,
                "releasing"@,
            )) ==> status_spec(stated, upload) == MangaStatus::Ongoing
            &&& !contains(words, "completed"@) && !contains(words, "ongoing"@) && !contains(
                words,
                "releasing"@,
            ) && contains(words, "hiatus"@) ==> status_spec(stated, upload) == MangaStatus::Hiatus
            &&& !contains(words, "completed"@) && !contains(words, "ongoing"@) && !contains(
                words,
                "releasing"@,
            ) && !contains(words, "hiatus"@) && contains(words, "cancelled"@) ==> status_spec(
                stated,
                upload,
            ) == MangaStatus::Cancelled
        },
        stated is None && upload is None ==> status_spec(stated, upload) == MangaStatus::Unknown,
{
    if stated is None && upload is None {
        let e = Seq::<char>::empty();
        reveal_strlit("completed");
        reveal_strlit("releasing");
        reveal_strlit("ongoing");
        reveal_strlit("hiatus");
        reveal_strlit("cancelled");
        assert(!contains(e, "completed"@));
        assert(!contains(e, "releasing"@));
        assert(!contains(e, "ongoing"@));
        assert(!contains(e, "hiatus"@));
        assert(!contains(e, "cancelled"@));
    }
}

/// The reading mode: a stated direction decides (`ttb` long strip, `rtl` right to
/// left, `ltr` left to right); else manhwa, manhua or a `longstrip` genre read as a
/// long strip, manga right to left, and anything else is unknown.
pub proof fn law_viewer(direction: Option<Seq<char>>, kind: Option<Seq<char>>, genres: Seq<Seq<char>>)
    ensures
        direction == Some("ttb"@) ==> viewer_spec(direction, kind, genres) == Viewer::Webtoon,
        direction == Some("rtl"@) ==> viewer_spec(direction, kind, genres) == Viewer::RightToLeft,
        direction == Some("ltr"@) ==> viewer_spec(direction, kind, genres) == Viewer::LeftToRight,
        direction is None && (kind == Some("manhwa"@) || kind == Some("manhua"@) || genres.contains(
            "longstrip"@,
        )) ==> viewer_spec(direction, kind, genres) == Viewer::Webtoon,
        direction is None && kind == Some("manga"@) && !genres.contains("longstrip"@) ==> viewer_spec(
            direction,
            kind,
            genres,
        ) == Viewer::RightToLeft,
        direction is None && kind is None && !genres.contains("longstrip"@) ==> viewer_spec(
            direction,
            kind,
            genres,
        ) == Viewer::Unknown,
{
    reveal_strlit("ttb");
    reveal_strlit("rtl");
    reveal_strlit("ltr");
    reveal_strlit("manga");
    reveal_strlit("manhwa");
    reveal_strlit("manhua");
    assert(("ttb"@)[0] != ("rtl"@)[0] && ("ttb"@)[0] != ("ltr"@)[0] && ("rtl"@)[0] != ("ltr"@)[0]);
    assert(("manga"@).len() != ("manhwa"@).len() && ("manga"@).len() != ("manhua"@).len());
}

/// Who a chapter is credited to: the team the caller knows, trimmed, wins; else the
/// aggregator's name; else the uploaders' profiles; else their groups.
pub proof fn law_chapter_credits(
    team_text: Seq<char>,
    source_text: Seq<char>,
    team: Option<Seq<char>>,
    src_name: Option<Seq<char>>,
    profiles: Option<Seq<Node<Option<NamedData>>>>,
    groups: Option<Seq<Node<Option<NamedData>>>>,
)
    ensures
        team == Some(team_text) && trim(team_text).len() > 0 ==> chapter_scanlators(
            team,
            src_name,
            profiles,
            groups,
        ) == seq![trim(team_text)],
        team is None && src_name == Some(source_text) && title_case(source_text).len() > 0
            ==> chapter_scanlators(team, src_name, profiles, groups) == seq![title_case(source_text)],
        team is None && src_name is None ==> chapter_scanlators(team, src_name, profiles, groups)
            == match profiles {
            Some(p) => if node_names_spec(p).len() > 0 {
                node_names_spec(p)
            } else {
                match groups {
                    Some(g) => node_names_spec(g),
                    None => Seq::empty(),
                }
            },
            None => match groups {
                Some(g) => node_names_spec(g),
                None => Seq::empty(),
            },
        },
{
}

/// A chapter is dated by publication first when asked, else by revision first, then
/// creation, then publication; timestamps past 10^12 are milliseconds, and one that
/// is not positive leaves the chapter undated.
pub proof fn law_chapter_date(data: ChapterData, t: i64)
    ensures
        data.date_public == Some(t) ==> chapter_date(data, true) == unix_seconds_spec(t),
        data.date_public is None && data.date_modify == Some(t) ==> chapter_date(data, true)
            == unix_seconds_spec(t),
        data.date_modify == Some(t) ==> chapter_date(data, false) == unix_seconds_spec(t),
        data.date_modify is None && data.date_create == Some(t) ==> chapter_date(data, false)
            == unix_seconds_spec(t),
        data.date_modify is None && data.date_create is None && data.date_public == Some(t)
            ==> chapter_date(data, false) == unix_seconds_spec(t),
        0 < t <= 1_000_000_000_000 ==> unix_seconds_spec(t) == Some(t),
        t > 1_000_000_000_000 ==> (unix_seconds_spec(t) matches Some(s) && s * 1000 <= t < s * 1000
            + 1000),
        t <= 0 ==> unix_seconds_spec(t) is None,
{
}

} // verus!
