//! What xcomic's GraphQL API is asked, and how its answers become comics and
//! chapters.
use vstd::prelude::*;
use crate::text::{
    chars_of, clone_strings, concat_str, join, push_string, str_eq, join_strings, list_contains, opt_list, replace, replace_exec,
    string_from,
};
use crate::sorting::{
    SortKey, key_le, lemma_stable_sort_keeps, sorted_by_key, stable_sort_by_key, stable_sorted,
};
use crate::xcomic::helpers::{chapter_live, first_some, chosen_editions, editions_of, is_pornographic, is_pornographic_spec, listed_edition};
use crate::xcomic::models::{BrowseResponse, ChapterData, ChapterListResponse, ChapterPagesResponse, ComicNodeResponse, Paging, ComicData, LatestUploadsItem, LatestUploadsResponse, Node, RecentlyAddedResponse, GraphQlError, GraphQlResponse, TitleNode};
use crate::xcomic::settings::{content_types_all, Preferences};

verus! {

/// Comics on a browse page.
pub const PAGE_SIZE: i32 = 48;

/// Titles on the home page's latest feed; each carries up to three chapters, so a
/// browse page would be overkill.
pub const HOME_LATEST_SIZE: i32 = 20;

/// Titles the recently-added feed is asked for.
pub const RECENTLY_ADDED_SIZE: i32 = 50;

/// Titles the random list is asked for.
pub const RANDOM_AMOUNT: i32 = 12;

/// Chapters on a page of the full chapter list, which carries every upload.
pub const CHAPTER_PAGE_SIZE: i32 = 100;

/// Chapters on a page of the deduplicated chapter list.
pub const UNIQUE_CHAPTER_PAGE_SIZE: i32 = 1000;

/// The site's sort orders, in the order the sort filter lists them.
pub open spec fn sort_ids() -> Seq<Seq<char>> {
    seq![
        "field_score"@,
        "field_update"@,
        "field_create"@,
        "field_name_asc"@,
        "field_name_desc"@,
        "field_follow"@,
        "field_review"@,
        "field_comment"@,
        "field_chapter"@,
    ]
}

/// The sort order at `index` of the sort filter, if there is one.
pub fn sort_id(index: i32) -> (r: Option<String>)
    ensures
        match r {
            Some(s) => 0 <= index < sort_ids().len() && s@ == sort_ids()[index as int],
            None => !(0 <= index < sort_ids().len()),
        },
{
    let ids: [&str; 9] = [
        "field_score",
        "field_update",
        "field_create",
        "field_name_asc",
        "field_name_desc",
        "field_follow",
        "field_review",
        "field_comment",
        "field_chapter",
    ];
    if index < 0 || index >= 9 {
        return None;
    }
    let i: usize = index as usize;
    let r = String::from_str(ids[i]);
    proof {
        reveal_strlit("field_score");
        reveal_strlit("field_update");
        reveal_strlit("field_create");
        reveal_strlit("field_name_asc");
        reveal_strlit("field_name_desc");
        reveal_strlit("field_follow");
        reveal_strlit("field_review");
        reveal_strlit("field_comment");
        reveal_strlit("field_chapter");
    }
    Some(r)
}

/// The error an answer without data stands for: the first the API reported.
pub open spec fn graphql_error(errors: Seq<GraphQlError>) -> Seq<char> {
    if errors.len() > 0 {
        "XCOMIC: "@ + errors[0].message@
    } else {
        "XCOMIC returned an empty response"@
    }
}

/// The data of an API answer, or the error that stood in for it.
pub fn graphql_data<T>(response: GraphQlResponse<T>) -> (r: Result<T, String>)
    ensures
        match response.data {
            Some(d) => r == Ok::<T, String>(d),
            None => r matches Err(m) && m@ == graphql_error(response.errors@),
        },
{
    let GraphQlResponse { data, errors } = response;
    match data {
        Some(d) => Ok(d),
        None => {
            if errors.len() > 0 {
                let mut m = String::from_str("XCOMIC: ");
                m.append(errors[0].message.as_str());
                Err(m)
            } else {
                Err(String::from_str("XCOMIC returned an empty response"))
            }
        },
    }
}

/// The `Accept-Language` the API is asked with: the reader's languages with `-`
/// for `_`, or English when there are none.
pub open spec fn accept_language_spec(languages: Seq<Seq<char>>) -> Seq<char> {
    if languages.len() == 0 {
        "en"@
    } else {
        join(languages.map_values(|l: Seq<char>| replace(l, seq!['_'], seq!['-'])), ","@)
    }
}

/// The `Accept-Language` the API is asked with.
pub fn accept_language(languages: &[String]) -> (r: String)
    ensures
        r@ == accept_language_spec(languages.deep_view()),
{
    if languages.len() == 0 {
        return String::from_str("en");
    }
    let ghost lv = languages.deep_view();
    let underscore = vec!['_'];
    let dash = vec!['-'];
    assert(underscore@ =~= seq!['_'] && dash@ =~= seq!['-']);
    let mut parts: Vec<String> = Vec::new();
    let mut i: usize = 0;
    while i < languages.len()
        invariant
            i <= languages@.len(),
            lv == languages.deep_view(),
            underscore@ == seq!['_'],
            dash@ == seq!['-'],
            parts.deep_view() == lv.take(i as int).map_values(
                |l: Seq<char>| replace(l, seq!['_'], seq!['-']),
            ),
        decreases languages.len() - i,
    {
        let c = chars_of(languages[i].as_str());
        assert(c@ == lv[i as int]);
        let replaced = replace_exec(&c, underscore.as_slice(), dash.as_slice());
        push_string(&mut parts, string_from(&replaced));
        assert(parts.deep_view() =~= lv.take(i + 1).map_values(
            |l: Seq<char>| replace(l, seq!['_'], seq!['-']),
        ));
        i += 1;
    }
    assert(lv.take(languages@.len() as int) =~= lv);
    join_strings(parts.as_slice(), ",")
}

/// What a browse query asks for.
#[derive(Debug)]
pub struct BrowseParams {
    pub page: i32,
    pub size: i32,
    pub sortby: String,
    pub word: String,
    pub included_genres: Vec<String>,
    pub excluded_genres: Vec<String>,
    pub include_mode: String,
    pub exclude_mode: String,
    pub types: Vec<String>,
    pub demographics: Vec<String>,
    pub content_ratings: Vec<String>,
    pub original_languages: Vec<String>,
    pub translated_languages: Vec<String>,
    pub original_status: String,
    pub chapter_count: String,
    pub year_min: Option<i64>,
    pub year_max: Option<i64>,
}

/// The mathematical content of [`BrowseParams`].
pub struct BrowseParamsView {
    pub page: i32,
    pub size: i32,
    pub sortby: Seq<char>,
    pub word: Seq<char>,
    pub included_genres: Seq<Seq<char>>,
    pub excluded_genres: Seq<Seq<char>>,
    pub include_mode: Seq<char>,
    pub exclude_mode: Seq<char>,
    pub types: Seq<Seq<char>>,
    pub demographics: Seq<Seq<char>>,
    pub content_ratings: Seq<Seq<char>>,
    pub original_languages: Seq<Seq<char>>,
    pub translated_languages: Seq<Seq<char>>,
    pub original_status: Seq<char>,
    pub chapter_count: Seq<char>,
    pub year_min: Option<i64>,
    pub year_max: Option<i64>,
}

impl View for BrowseParams {
    type V = BrowseParamsView;

    open spec fn view(&self) -> BrowseParamsView {
        BrowseParamsView {
            page: self.page,
            size: self.size,
            sortby: self.sortby@,
            word: self.word@,
            included_genres: self.included_genres.deep_view(),
            excluded_genres: self.excluded_genres.deep_view(),
            include_mode: self.include_mode@,
            exclude_mode: self.exclude_mode@,
            types: self.types.deep_view(),
            demographics: self.demographics.deep_view(),
            content_ratings: self.content_ratings.deep_view(),
            original_languages: self.original_languages.deep_view(),
            translated_languages: self.translated_languages.deep_view(),
            original_status: self.original_status@,
            chapter_count: self.chapter_count@,
            year_min: self.year_min,
            year_max: self.year_max,
        }
    }
}

/// The select a browse query sends, field by field; absent fields are sent as null.
#[derive(Debug)]
pub struct BrowseSelect {
    pub page: i32,
    pub size: i32,
    pub sortby: String,
    pub word: Option<String>,
    pub original_languages: Vec<String>,
    pub translated_languages: Vec<String>,
    pub included_genres: Vec<String>,
    pub excluded_genres: Vec<String>,
    pub include_mode: String,
    pub exclude_mode: String,
    pub types: Vec<String>,
    pub demographics: Vec<String>,
    pub content_ratings: Vec<String>,
    pub year_min: Option<i64>,
    pub year_max: Option<i64>,
    pub original_status: Option<String>,
    pub chapter_count: Option<String>,
}

/// Some text, unless it is empty.
pub open spec fn nonempty(s: Seq<char>) -> Option<Seq<char>> {
    if s.len() > 0 {
        Some(s)
    } else {
        None
    }
}

/// Some copy of a string, unless it is empty.
fn nonempty_exec(s: &String) -> (r: Option<String>)
    ensures
        r.deep_view() == nonempty(s@),
{
    if s.as_str().is_empty() {
        None
    } else {
        Some(s.clone())
    }
}

/// Some genre of `genres` is among `excluded`.
pub open spec fn excludes_any(excluded: Seq<Seq<char>>, genres: Seq<Seq<char>>) -> bool {
    exists|i: int| 0 <= i < genres.len() && excluded.contains(#[trigger] genres[i])
}

/// A query for page `page` of `size` titles in order `sortby`, carrying the reader's
/// content settings and nothing else: genres are included all together and
/// excluded any one of them.
pub open spec fn fresh_params(sortby: Seq<char>, page: i32, size: i32, preferences: Preferences) -> BrowseParamsView {
    BrowseParamsView {
        page,
        size,
        sortby,
        word: Seq::empty(),
        included_genres: Seq::empty(),
        excluded_genres: preferences.excluded_genres.deep_view(),
        include_mode: "and"@,
        exclude_mode: "or"@,
        types: preferences.content_types.deep_view(),
        demographics: Seq::empty(),
        content_ratings: preferences.content_ratings.deep_view(),
        original_languages: Seq::empty(),
        translated_languages: preferences.languages.deep_view(),
        original_status: Seq::empty(),
        chapter_count: Seq::empty(),
        year_min: None,
        year_max: None,
    }
}

impl BrowseParams {
    /// A query for page `page` of `size` titles in order `sortby`, carrying the
    /// reader's content settings and nothing else.
    pub fn new(sortby: &str, page: i32, size: i32, preferences: &Preferences) -> (r: BrowseParams)
        ensures
            r@ == fresh_params(sortby@, page, size, *preferences),
    {
        let r = BrowseParams {
            page,
            size,
            sortby: String::from_str(sortby),
            word: String::new(),
            included_genres: Vec::new(),
            excluded_genres: clone_strings(preferences.excluded_genres.as_slice()),
            include_mode: String::from_str("and"),
            exclude_mode: String::from_str("or"),
            types: clone_strings(preferences.content_types.as_slice()),
            demographics: Vec::new(),
            content_ratings: clone_strings(preferences.content_ratings.as_slice()),
            original_languages: Vec::new(),
            translated_languages: clone_strings(preferences.languages.as_slice()),
            original_status: String::new(),
            chapter_count: String::new(),
            year_min: None,
            year_max: None,
        };
        assert(r.included_genres.deep_view() =~= Seq::<Seq<char>>::empty());
        assert(r.demographics.deep_view() =~= Seq::<Seq<char>>::empty());
        assert(r.original_languages.deep_view() =~= Seq::<Seq<char>>::empty());
        r
    }

    /// Whether the reader lets pornographic comics through.
    pub open spec fn allows_pornographic_spec(&self) -> bool {
        self.content_ratings.deep_view().contains("pornographic"@)
    }

    /// Whether the reader lets pornographic comics through.
    pub fn allows_pornographic(&self) -> (r: bool)
        ensures
            r == self.allows_pornographic_spec(),
    {
        let p = chars_of("pornographic");
        list_contains(self.content_ratings.as_slice(), &p)
    }

    /// The types a query names: none when every type is selected, since the site
    /// reads a full list as a narrowing of its own.
    pub open spec fn selected_types(&self) -> Seq<Seq<char>> {
        if self.types@.len() >= content_types_all().len() {
            Seq::empty()
        } else {
            self.types.deep_view()
        }
    }

    /// The ratings a query names. An empty list is not "every rating" here: the site
    /// answers one with its own safe default, which drops everything erotica and
    /// above, so it is sent as `safe` alone.
    pub open spec fn selected_ratings(&self) -> Seq<Seq<char>> {
        if self.content_ratings@.len() == 0 {
            seq!["safe"@]
        } else {
            self.content_ratings.deep_view()
        }
    }

    /// `r` is the select this query sends.
    pub open spec fn is_select(&self, r: BrowseSelect) -> bool {
        &&& r.page == self.page
        &&& r.size == self.size
        &&& r.sortby@ == self.sortby@
        &&& r.word.deep_view() == nonempty(self.word@)
        &&& r.original_languages.deep_view() == self.original_languages.deep_view()
        &&& r.translated_languages.deep_view() == self.translated_languages.deep_view()
        &&& r.included_genres.deep_view() == self.included_genres.deep_view()
        &&& r.excluded_genres.deep_view() == self.excluded_genres.deep_view()
        &&& r.include_mode@ == self.include_mode@
        &&& r.exclude_mode@ == self.exclude_mode@
        &&& r.types.deep_view() == self.selected_types()
        &&& r.demographics.deep_view() == self.demographics.deep_view()
        &&& r.content_ratings.deep_view() == self.selected_ratings()
        &&& r.year_min == self.year_min
        &&& r.year_max == self.year_max
        &&& r.original_status.deep_view() == nonempty(self.original_status@)
        &&& r.chapter_count.deep_view() == nonempty(self.chapter_count@)
    }

    /// The select this query sends.
    pub fn select(&self) -> (r: BrowseSelect)
        ensures
            self.is_select(r),
    {
        let content_ratings = if self.content_ratings.len() == 0 {
            let v = vec![String::from_str("safe")];
            assert(v.deep_view() =~= seq!["safe"@]);
            v
        } else {
            clone_strings(self.content_ratings.as_slice())
        };
        let types = if self.types.len() >= 8 {
            let v: Vec<String> = Vec::new();
            assert(v.deep_view() =~= Seq::<Seq<char>>::empty());
            v
        } else {
            clone_strings(self.types.as_slice())
        };
        BrowseSelect {
            page: self.page,
            size: self.size,
            sortby: self.sortby.clone(),
            word: nonempty_exec(&self.word),
            original_languages: clone_strings(self.original_languages.as_slice()),
            translated_languages: clone_strings(self.translated_languages.as_slice()),
            included_genres: clone_strings(self.included_genres.as_slice()),
            excluded_genres: clone_strings(self.excluded_genres.as_slice()),
            include_mode: self.include_mode.clone(),
            exclude_mode: self.exclude_mode.clone(),
            types,
            demographics: clone_strings(self.demographics.as_slice()),
            content_ratings,
            year_min: self.year_min,
            year_max: self.year_max,
            original_status: nonempty_exec(&self.original_status),
            chapter_count: nonempty_exec(&self.chapter_count),
        }
    }

    /// Whether a comic of one of the two feeds passes the reader's settings. Only
    /// the feeds need this: they take no filters of their own, where browse applies
    /// every one of them server side. A comic that states no type is let through,
    /// since new uploads often leave it undeclared.
    pub open spec fn allows_spec(&self, comic: ComicData) -> bool {
        self.allows_parts(
            comic.translated_language.deep_view(),
            comic.kind.deep_view(),
            comic.content_rating.deep_view(),
            comic.genres.deep_view(),
        )
    }

    /// [`Self::allows_spec`] over the parts of a comic it reads.
    pub open spec fn allows_parts(
        &self,
        language: Option<Seq<char>>,
        kind: Option<Seq<char>>,
        content_rating: Option<Seq<char>>,
        genre_list: Option<Seq<Seq<char>>>,
    ) -> bool {
        let rating = match content_rating {
            Some(r) => r,
            None => "safe"@,
        };
        let genres = match genre_list {
            Some(g) => g,
            None => Seq::empty(),
        };
        let languages = self.translated_languages.deep_view();
        &&& (languages.len() == 0 || match language {
            Some(l) => languages.contains(l),
            None => false,
        })
        &&& match kind {
            Some(k) => self.types.deep_view().contains(k),
            None => true,
        }
        &&& self.content_ratings.deep_view().contains(rating)
        &&& !excludes_any(self.excluded_genres.deep_view(), genres)
        &&& (self.allows_pornographic_spec() || !is_pornographic_spec(content_rating, genre_list))
    }

    /// Whether a comic of one of the two feeds passes the reader's settings.
    pub fn allows(&self, comic: &ComicData) -> (r: bool)
        ensures
            r == self.allows_spec(*comic),
    {
        let by_language = if self.translated_languages.len() == 0 {
            true
        } else {
            match &comic.translated_language {
                Some(l) => {
                    let lv = chars_of(l.as_str());
                    list_contains(self.translated_languages.as_slice(), &lv)
                },
                None => false,
            }
        };
        if !by_language {
            return false;
        }
        let by_type = match &comic.kind {
            Some(k) => {
                let kv = chars_of(k.as_str());
                list_contains(self.types.as_slice(), &kv)
            },
            None => true,
        };
        if !by_type {
            return false;
        }
        let rating = match &comic.content_rating {
            Some(r) => chars_of(r.as_str()),
            None => chars_of("safe"),
        };
        assert(rating@ == match comic.content_rating {
            Some(r) => r@,
            None => "safe"@,
        });
        let ratings = self.content_ratings.as_slice();
        let found = list_contains(ratings, &rating);
        assert(ratings.deep_view() =~= self.content_ratings.deep_view());
        if !found {
            return false;
        }
        let ghost genres = match comic.genres.deep_view() {
            Some(g) => g,
            None => Seq::<Seq<char>>::empty(),
        };
        let empty: Vec<String> = Vec::new();
        let gs: &Vec<String> = match &comic.genres {
            Some(g) => g,
            None => &empty,
        };
        assert(gs.deep_view() =~= genres);
        let excluded = self.excluded_genres.as_slice();
        assert(excluded.deep_view() =~= self.excluded_genres.deep_view());
        let mut i: usize = 0;
        while i < gs.len()
            invariant
                excluded.deep_view() == self.excluded_genres.deep_view(),
                genres == match comic.genres.deep_view() {
                    Some(g) => g,
                    None => Seq::<Seq<char>>::empty(),
                },
                i <= gs@.len(),
                gs.deep_view() == genres,
                forall|j: int|
                    0 <= j < i ==> !self.excluded_genres.deep_view().contains(
                        #[trigger] genres[j],
                    ),
            decreases gs.len() - i,
        {
            let g = chars_of(gs[i].as_str());
            assert(g@ == genres[i as int]);
            if list_contains(excluded, &g) {
                assert(self.excluded_genres.deep_view().contains(genres[i as int]));
                assert(excludes_any(self.excluded_genres.deep_view(), genres));
                return false;
            }
            i += 1;
        }
        let genre_slice: Option<&[String]> = match &comic.genres {
            Some(g) => Some(g.as_slice()),
            None => None,
        };
        assert(genre_slice.deep_view() =~= comic.genres.deep_view());
        let rating_str: Option<&str> = match &comic.content_rating {
            Some(r) => Some(r.as_str()),
            None => None,
        };
        self.allows_pornographic() || !is_pornographic(rating_str, genre_slice)
    }
}

/// The queries the source sends; their text lives with the code that sends them.
#[derive(Clone, Copy, Debug, PartialEq, Eq, Structural)]
pub enum GraphQlQuery {
    Browse,
    Scroller,
    Random,
    RecentlyAdded,
    LatestUploads,
    Comic,
    Chapters,
    UniqueChapters,
    ChapterPages,
}

/// The variables a query is sent with.
#[derive(Debug)]
pub enum GraphQlVariables {
    /// `{"select": ...}` with a browse select.
    Select(BrowseSelect),
    /// `{"select": {"amount": ...}}`.
    Amount(i32),
    /// `{"select": {"size": ...}}`.
    Size(i32),
    /// `{"select": {"first": ..., "limit": ...}}`.
    Window { first: i32, limit: i32 },
    /// `{"id": ...}`.
    Id(String),
    /// `{"select": {"comic_id": ..., "page": ..., "size": ..., "sortby": "chapter_desc"}}`.
    ChapterPage { comic_id: String, page: i32, size: i32 },
}

/// A query to `POST` to the API: where, with which headers, and what.
#[derive(Debug)]
pub struct GraphQlCall {
    pub url: String,
    pub headers: Vec<(String, String)>,
    pub query: GraphQlQuery,
    pub variables: GraphQlVariables,
}

/// The headers every query is sent with.
pub open spec fn graphql_headers(base_url: Seq<char>, languages: Seq<Seq<char>>) -> Seq<
    (Seq<char>, Seq<char>),
> {
    seq![
        ("Content-Type"@, "application/json"@),
        ("Accept"@, "application/json"@),
        ("Accept-Language"@, accept_language_spec(languages)),
        ("Referer"@, base_url + "/"@),
        ("Origin"@, base_url),
    ]
}

/// `call` posts `query` to the API at `base_url`, for a reader of `languages`.
pub open spec fn calls(
    call: GraphQlCall,
    base_url: Seq<char>,
    languages: Seq<Seq<char>>,
    query: GraphQlQuery,
) -> bool {
    &&& call.url@ == base_url + "/query/"@
    &&& call.headers.deep_view() == graphql_headers(base_url, languages)
    &&& call.query == query
}

/// A header as a pair of strings.
fn header(name: &str, value: String) -> (r: (String, String))
    ensures
        r.0@ == name@,
        r.1@ == value@,
{
    (String::from_str(name), value)
}

/// `query` with `variables`, to post to the API at `base_url`.
pub fn graphql_request(
    base_url: &str,
    languages: &[String],
    query: GraphQlQuery,
    variables: GraphQlVariables,
) -> (r: GraphQlCall)
    ensures
        calls(r, base_url@, languages.deep_view(), query),
        r.variables == variables,
{
    let headers = vec![
        header("Content-Type", String::from_str("application/json")),
        header("Accept", String::from_str("application/json")),
        header("Accept-Language", accept_language(languages)),
        header("Referer", concat_str(base_url, "/")),
        header("Origin", String::from_str(base_url)),
    ];
    assert(headers.deep_view() =~= graphql_headers(base_url@, languages.deep_view()));
    GraphQlCall { url: concat_str(base_url, "/query/"), headers, query, variables }
}

/// A browse page.
pub fn browse_request(base_url: &str, languages: &[String], params: &BrowseParams) -> (r:
    GraphQlCall)
    ensures
        calls(r, base_url@, languages.deep_view(), GraphQlQuery::Browse),
        r.variables matches GraphQlVariables::Select(s) && params.is_select(s),
{
    graphql_request(base_url, languages, GraphQlQuery::Browse, GraphQlVariables::Select(params.select()))
}

/// A browse page that also asks for each title's description and genres.
pub fn scroller_request(base_url: &str, languages: &[String], params: &BrowseParams) -> (r:
    GraphQlCall)
    ensures
        calls(r, base_url@, languages.deep_view(), GraphQlQuery::Scroller),
        r.variables matches GraphQlVariables::Select(s) && params.is_select(s),
{
    graphql_request(base_url, languages, GraphQlQuery::Scroller, GraphQlVariables::Select(params.select()))
}

/// A few random titles.
pub fn random_request(base_url: &str, languages: &[String]) -> (r: GraphQlCall)
    ensures
        calls(r, base_url@, languages.deep_view(), GraphQlQuery::Random),
        r.variables == GraphQlVariables::Amount(RANDOM_AMOUNT),
{
    graphql_request(base_url, languages, GraphQlQuery::Random, GraphQlVariables::Amount(RANDOM_AMOUNT))
}

/// The recently-added feed.
pub fn recently_added_request(base_url: &str, languages: &[String]) -> (r: GraphQlCall)
    ensures
        calls(r, base_url@, languages.deep_view(), GraphQlQuery::RecentlyAdded),
        r.variables == GraphQlVariables::Size(RECENTLY_ADDED_SIZE),
{
    graphql_request(
        base_url,
        languages,
        GraphQlQuery::RecentlyAdded,
        GraphQlVariables::Size(RECENTLY_ADDED_SIZE),
    )
}

/// The first `limit` titles of the latest-uploads feed.
pub fn latest_uploads_request(base_url: &str, languages: &[String], limit: i32) -> (r: GraphQlCall)
    ensures
        calls(r, base_url@, languages.deep_view(), GraphQlQuery::LatestUploads),
        r.variables == (GraphQlVariables::Window { first: 0, limit }),
{
    graphql_request(
        base_url,
        languages,
        GraphQlQuery::LatestUploads,
        GraphQlVariables::Window { first: 0, limit },
    )
}

/// One comic, by id.
pub fn comic_request(base_url: &str, languages: &[String], id: &str) -> (r: GraphQlCall)
    ensures
        calls(r, base_url@, languages.deep_view(), GraphQlQuery::Comic),
        r.variables matches GraphQlVariables::Id(i) && i@ == id@,
{
    graphql_request(base_url, languages, GraphQlQuery::Comic, GraphQlVariables::Id(String::from_str(id)))
}

/// The chapters on a page of a comic's chapter list.
pub open spec fn chapter_page_size_spec(deduplicate: bool) -> i32 {
    if deduplicate {
        UNIQUE_CHAPTER_PAGE_SIZE
    } else {
        CHAPTER_PAGE_SIZE
    }
}

/// The chapters on a page of a comic's chapter list: the full list carries every
/// scanlator's upload, so it is paged smaller.
pub fn chapter_page_size(deduplicate: bool) -> (r: i32)
    ensures
        r == chapter_page_size_spec(deduplicate),
{
    if deduplicate {
        UNIQUE_CHAPTER_PAGE_SIZE
    } else {
        CHAPTER_PAGE_SIZE
    }
}

/// Page `page` of a comic's chapter list, newest first: the deduplicated list, where
/// the site collapses alternate uploads of a chapter into one, or the full list.
pub fn chapters_request(
    base_url: &str,
    languages: &[String],
    deduplicate: bool,
    comic_id: &str,
    page: i32,
) -> (r: GraphQlCall)
    ensures
        calls(
            r,
            base_url@,
            languages.deep_view(),
            if deduplicate {
                GraphQlQuery::UniqueChapters
            } else {
                GraphQlQuery::Chapters
            },
        ),
        r.variables matches GraphQlVariables::ChapterPage { comic_id: c, page: p, size: s } && c@
            == comic_id@ && p == page && s == chapter_page_size_spec(deduplicate),
{
    let query = if deduplicate {
        GraphQlQuery::UniqueChapters
    } else {
        GraphQlQuery::Chapters
    };
    let variables = GraphQlVariables::ChapterPage {
        comic_id: String::from_str(comic_id),
        page,
        size: chapter_page_size(deduplicate),
    };
    graphql_request(base_url, languages, query, variables)
}

/// The image urls of a chapter, by id.
pub fn page_urls_request(base_url: &str, languages: &[String], chapter_id: &str) -> (r:
    GraphQlCall)
    ensures
        calls(r, base_url@, languages.deep_view(), GraphQlQuery::ChapterPages),
        r.variables matches GraphQlVariables::Id(i) && i@ == chapter_id@,
{
    graphql_request(
        base_url,
        languages,
        GraphQlQuery::ChapterPages,
        GraphQlVariables::Id(String::from_str(chapter_id)),
    )
}

/// Each edition listed for the titles, beside the title it is listed under, in
/// order: all editions of each, or only the best.
pub open spec fn listed_pairs(titles: Seq<TitleNode>, languages: Seq<Seq<char>>, every: bool) -> Seq<
    (ComicData, ComicData),
>
    decreases titles.len(),
{
    if titles.len() == 0 {
        Seq::empty()
    } else {
        let t = titles.last();
        listed_pairs(titles.drop_last(), languages, every) + chosen_editions(
            t,
            languages,
            every,
        ).map_values(|p: (SortKey, ComicData)| (p.1, t.data))
    }
}

/// `r` lists each edition of `pairs` under its title, in order.
pub open spec fn lists(r: Seq<ComicData>, pairs: Seq<(ComicData, ComicData)>) -> bool {
    &&& r.len() == pairs.len()
    &&& forall|i: int| 0 <= i < r.len() ==> listed_edition(#[trigger] r[i], pairs[i].0, pairs[i].1)
}

/// The editions listed for the titles, in order.
fn listed_comics(titles: Vec<TitleNode>, languages: &[String], every: bool) -> (r: Vec<ComicData>)
    ensures
        lists(r@, listed_pairs(titles@, languages.deep_view(), every)),
{
    let ghost orig = titles@;
    let ghost langs = languages.deep_view();
    let mut rest = titles;
    let mut out: Vec<ComicData> = Vec::new();
    let n = rest.len();
    let mut i: usize = 0;
    assert(orig.skip(0) =~= orig);
    while i < n
        invariant
            n == orig.len(),
            i <= n,
            rest@ == orig.skip(i as int),
            langs == languages.deep_view(),
            lists(out@, listed_pairs(orig.take(i as int), langs, every)),
        decreases n - i,
    {
        let title = rest.remove(0);
        assert(title == orig[i as int]);
        assert(rest@ =~= orig.skip(i + 1));
        let ghost prefix = orig.take(i + 1);
        assert(prefix.drop_last() =~= orig.take(i as int));
        assert(prefix.last() == title);
        let ghost before = out@;
        let ghost pairs = listed_pairs(orig.take(i as int), langs, every);
        let ghost t = title;
        let eds = editions_of(title, languages, every);
        let ghost chosen = chosen_editions(t, langs, every).map_values(
            |p: (SortKey, ComicData)| (p.1, t.data),
        );
        let mut eds = eds;
        let m = eds.len();
        let mut j: usize = 0;
        let ghost eds0 = eds@;
        assert(eds0.skip(0) =~= eds0);
        while j < m
            invariant
                m == eds0.len(),
                j <= m,
                eds@ == eds0.skip(j as int),
                eds0.len() == chosen.len(),
                forall|q: int| 0 <= q < m ==> listed_edition(#[trigger] eds0[q], chosen[q].0, chosen[q].1),
                out@.len() == before.len() + j,
                lists(before, pairs),
                forall|q: int| 0 <= q < before.len() ==> #[trigger] out@[q] == before[q],
                forall|q: int| 0 <= q < j ==> #[trigger] out@[before.len() + q] == eds0[q],
            decreases m - j,
        {
            let c = eds.remove(0);
            assert(eds@ =~= eds0.skip(j + 1));
            out.push(c);
            j += 1;
        }
        assert(listed_pairs(prefix, langs, every) == pairs + chosen);
        assert(lists(out@, pairs + chosen)) by {
            assert forall|q: int| 0 <= q < out@.len() implies listed_edition(
                #[trigger] out@[q],
                (pairs + chosen)[q].0,
                (pairs + chosen)[q].1,
            ) by {
                if q >= before.len() {
                    assert(out@[before.len() + (q - before.len())] == eds0[q - before.len()]);
                }
            }
        }
        i += 1;
    }
    assert(orig.take(n as int) =~= orig);
    out
}

/// The titles of a browse answer.
pub open spec fn browse_titles(d: BrowseResponse) -> Seq<TitleNode> {
    match d.items {
        Some(v) => v@,
        None => Seq::empty(),
    }
}

/// The comics of a browse answer, with how many titles it served. A search lists
/// every edition of a title it finds, where a browse lists only the best one.
pub fn parse_titles(response: GraphQlResponse<BrowseResponse>, params: &BrowseParams) -> (r: Result<
    (Vec<ComicData>, usize),
    String,
>)
    ensures
        match response.data {
            Some(d) => r matches Ok(v) && v.1 == browse_titles(d).len() && lists(
                v.0@,
                listed_pairs(
                    browse_titles(d),
                    params.translated_languages.deep_view(),
                    params.word@.len() > 0,
                ),
            ),
            None => r matches Err(m) && m@ == graphql_error(response.errors@),
        },
{
    let data = match graphql_data(response) {
        Ok(d) => d,
        Err(m) => return Err(m),
    };
    let titles: Vec<TitleNode> = match data.items {
        Some(v) => v,
        None => Vec::new(),
    };
    let served = titles.len();
    let every = !params.word.as_str().is_empty();
    let languages = params.translated_languages.as_slice();
    assert(languages.deep_view() =~= params.translated_languages.deep_view());
    let comics = listed_comics(titles, languages, every);
    Ok((comics, served))
}

/// The comics of a browse page, and whether another page follows: one does when the
/// page served as many titles as it asked for, counted over the titles, which the
/// comics may outnumber.
pub fn parse_browse(response: GraphQlResponse<BrowseResponse>, params: &BrowseParams) -> (r: Result<
    (Vec<ComicData>, bool),
    String,
>)
    ensures
        match response.data {
            Some(d) => r matches Ok(v) && v.1 == (browse_titles(d).len() >= params.size) && lists(
                v.0@,
                listed_pairs(
                    browse_titles(d),
                    params.translated_languages.deep_view(),
                    params.word@.len() > 0,
                ),
            ),
            None => r matches Err(m) && m@ == graphql_error(response.errors@),
        },
{
    match parse_titles(response, params) {
        Ok((comics, served)) => {
            let more = served as u64 >= 2147483648u64 || served as i32 >= params.size;
            Ok((comics, more))
        },
        Err(m) => Err(m),
    }
}

/// The listed editions that pass the reader's settings, in order: an edition is
/// judged by its own language and by its title's type, rating and genres, which it
/// is listed with.
pub open spec fn allowed_pairs(pairs: Seq<(ComicData, ComicData)>, params: BrowseParams) -> Seq<
    (ComicData, ComicData),
>
    decreases pairs.len(),
{
    if pairs.len() == 0 {
        Seq::empty()
    } else {
        let rest = allowed_pairs(pairs.drop_last(), params);
        let p = pairs.last();
        if params.allows_parts(
            p.0.translated_language.deep_view(),
            p.1.kind.deep_view(),
            p.1.content_rating.deep_view(),
            p.1.genres.deep_view(),
        ) {
            rest.push(p)
        } else {
            rest
        }
    }
}

/// The comics of `comics` that pass the reader's settings, in order.
fn allowed_comics(comics: Vec<ComicData>, params: &BrowseParams, pairs: Ghost<
    Seq<(ComicData, ComicData)>,
>) -> (r: Vec<ComicData>)
    requires
        lists(comics@, pairs@),
    ensures
        lists(r@, allowed_pairs(pairs@, *params)),
{
    let ghost orig = comics@;
    let ghost ps = pairs@;
    let mut rest = comics;
    let mut out: Vec<ComicData> = Vec::new();
    let n = rest.len();
    let mut i: usize = 0;
    assert(orig.skip(0) =~= orig);
    while i < n
        invariant
            n == orig.len(),
            i <= n,
            rest@ == orig.skip(i as int),
            lists(orig, ps),
            lists(out@, allowed_pairs(ps.take(i as int), *params)),
        decreases n - i,
    {
        let c = rest.remove(0);
        assert(c == orig[i as int]);
        assert(rest@ =~= orig.skip(i + 1));
        assert(ps.take(i + 1).drop_last() =~= ps.take(i as int));
        assert(ps.take(i + 1).last() == ps[i as int]);
        assert(listed_edition(orig[i as int], ps[i as int].0, ps[i as int].1));
        if params.allows(&c) {
            let ghost before = out@;
            out.push(c);
            assert(lists(out@, allowed_pairs(ps.take(i + 1), *params))) by {
                assert forall|q: int| 0 <= q < out@.len() implies listed_edition(
                    #[trigger] out@[q],
                    allowed_pairs(ps.take(i + 1), *params)[q].0,
                    allowed_pairs(ps.take(i + 1), *params)[q].1,
                ) by {
                    if q < before.len() {
                        assert(out@[q] == before[q]);
                    }
                }
            }
        }
        i += 1;
    }
    assert(ps.take(n as int) =~= ps);
    out
}

/// The titles of a recently-added answer.
pub open spec fn recent_titles(d: RecentlyAddedResponse) -> Seq<TitleNode> {
    match d.recently_added {
        Some(r) => match r.items {
            Some(v) => v@,
            None => Seq::empty(),
        },
        None => Seq::empty(),
    }
}

/// The comics of the recently-added feed: the best edition of each title, those the
/// reader's settings let through.
pub fn parse_recently_added(
    response: GraphQlResponse<RecentlyAddedResponse>,
    params: &BrowseParams,
) -> (r: Result<Vec<ComicData>, String>)
    ensures
        match response.data {
            Some(d) => r matches Ok(v) && lists(
                v@,
                allowed_pairs(
                    listed_pairs(recent_titles(d), params.translated_languages.deep_view(), false),
                    *params,
                ),
            ),
            None => r matches Err(m) && m@ == graphql_error(response.errors@),
        },
{
    let data = match graphql_data(response) {
        Ok(d) => d,
        Err(m) => return Err(m),
    };
    let titles: Vec<TitleNode> = match data.recently_added {
        Some(result) => match result.items {
            Some(v) => v,
            None => Vec::new(),
        },
        None => Vec::new(),
    };
    let ghost tv = titles@;
    let languages = params.translated_languages.as_slice();
    assert(languages.deep_view() =~= params.translated_languages.deep_view());
    let comics = listed_comics(titles, languages, false);
    let ghost pairs = listed_pairs(tv, params.translated_languages.deep_view(), false);
    Ok(allowed_comics(comics, params, Ghost(pairs)))
}

/// The live chapters among the nodes, in order.
pub open spec fn live_chapters(nodes: Seq<Node<ChapterData>>) -> Seq<ChapterData>
    decreases nodes.len(),
{
    if nodes.len() == 0 {
        Seq::empty()
    } else {
        let rest = live_chapters(nodes.drop_last());
        if chapter_live(nodes.last().data) {
            rest.push(nodes.last().data)
        } else {
            rest
        }
    }
}

/// The live chapters of the feed's items, item by item.
pub open spec fn feed_chapters(items: Seq<LatestUploadsItem>) -> Seq<ChapterData>
    decreases items.len(),
{
    if items.len() == 0 {
        Seq::empty()
    } else {
        feed_chapters(items.drop_last()) + live_chapters(
            match items.last().chapters {
                Some(v) => v@,
                None => Seq::empty(),
            },
        )
    }
}

/// A feed chapter's sort key: newest first, by its publication date, else its
/// revision, else its creation; a chapter with none of them sorts as dated 0.
pub open spec fn upload_key(c: ChapterData) -> SortKey {
    (
        -(match first_some(c.date_public, c.date_modify, c.date_create) {
            Some(t) => t as int,
            None => 0,
        }) as i128,
        0,
    )
}

/// Each chapter paired with its sort key.
pub open spec fn keyed_uploads(cs: Seq<ChapterData>) -> Seq<(SortKey, ChapterData)> {
    cs.map_values(|c: ChapterData| (upload_key(c), c))
}

/// The comic a feed chapter belongs to, if the feed named it.
pub open spec fn feed_comic(c: ChapterData) -> Option<ComicData> {
    match c.comic_node {
        Some(n) => n.data,
        None => None,
    }
}

/// A feed chapter without its comic.
pub open spec fn without_comic(c: ChapterData) -> ChapterData {
    ChapterData { comic_node: None, ..c }
}

/// The comics and chapters the feed lists, from its chapters newest first: a chapter
/// with a comic the reader's settings let through, and only the newest chapter of
/// each comic, since the chapters of one title can share a comic.
pub open spec fn latest_picks(sorted: Seq<(SortKey, ChapterData)>, params: BrowseParams) -> Seq<
    (ComicData, ChapterData),
>
    decreases sorted.len(),
{
    if sorted.len() == 0 {
        Seq::empty()
    } else {
        let rest = latest_picks(sorted.drop_last(), params);
        let c = sorted.last().1;
        match feed_comic(c) {
            Some(comic) => if params.allows_spec(comic) && !(exists|j: int|
                0 <= j < rest.len() && #[trigger] rest[j].0.id@ == comic.id@) {
                rest.push((comic, without_comic(c)))
            } else {
                rest
            },
            None => rest,
        }
    }
}

/// The items of a latest-uploads answer.
pub open spec fn latest_items(d: LatestUploadsResponse) -> Seq<LatestUploadsItem> {
    match d.latest_uploads {
        Some(r) => match r.items {
            Some(v) => v@,
            None => Seq::empty(),
        },
        None => Seq::empty(),
    }
}

/// The picks come in the order of the chapters they were picked from: where those
/// are sorted by upload key, so are the picks, and each pick's key is one of theirs.
pub proof fn lemma_latest_picks_ordered(sorted: Seq<(SortKey, ChapterData)>, params: BrowseParams)
    requires
        sorted_by_key(sorted),
        forall|k: int| 0 <= k < sorted.len() ==> (#[trigger] sorted[k]).0 == upload_key(sorted[k].1),
    ensures
        forall|i: int, j: int|
            0 <= i < j < latest_picks(sorted, params).len() ==> key_le(
                upload_key((#[trigger] latest_picks(sorted, params)[i]).1),
                upload_key((#[trigger] latest_picks(sorted, params)[j]).1),
            ),
        forall|i: int|
            0 <= i < latest_picks(sorted, params).len() ==> exists|k: int|
                0 <= k < sorted.len() && sorted[k].0 == upload_key(
                    (#[trigger] latest_picks(sorted, params)[i]).1,
                ),
    decreases sorted.len(),
{
    if sorted.len() > 0 {
        let d = sorted.drop_last();
        assert forall|a: int, b: int| 0 <= a <= b < d.len() implies key_le(d[a].0, d[b].0) by {
            assert(d[a] == sorted[a] && d[b] == sorted[b]);
        }
        assert forall|k: int| 0 <= k < d.len() implies (#[trigger] d[k]).0 == upload_key(d[k].1) by {
            assert(d[k] == sorted[k]);
        }
        lemma_latest_picks_ordered(d, params);
        let rest = latest_picks(d, params);
        let all = latest_picks(sorted, params);
        let last = sorted.len() - 1;
        assert forall|i: int| 0 <= i < all.len() implies exists|k: int|
            0 <= k < sorted.len() && sorted[k].0 == upload_key((#[trigger] all[i]).1) by {
            if i < rest.len() {
                assert(all[i] == rest[i]);
                let k = choose|k: int| 0 <= k < d.len() && d[k].0 == upload_key(rest[i].1);
                assert(sorted[k] == d[k]);
            } else {
                assert(upload_key(all[i].1) == upload_key(sorted[last].1));
                assert(sorted[last].0 == upload_key(all[i].1));
            }
        }
        assert forall|i: int, j: int| 0 <= i < j < all.len() implies key_le(
            upload_key((#[trigger] all[i]).1),
            upload_key((#[trigger] all[j]).1),
        ) by {
            if j < rest.len() {
                assert(all[i] == rest[i] && all[j] == rest[j]);
            } else {
                assert(all[i] == rest[i]);
                let k = choose|k: int| 0 <= k < d.len() && d[k].0 == upload_key(rest[i].1);
                assert(sorted[k] == d[k]);
                assert(key_le(sorted[k].0, sorted[last].0));
                assert(upload_key(all[j].1) == upload_key(sorted[last].1));
            }
        }
    }
}

/// No comic is picked twice.
pub proof fn lemma_latest_picks_distinct(sorted: Seq<(SortKey, ChapterData)>, params: BrowseParams)
    ensures
        forall|i: int, j: int|
            0 <= i < j < latest_picks(sorted, params).len() ==> (#[trigger] latest_picks(
                sorted,
                params,
            )[i]).0.id@ != (#[trigger] latest_picks(sorted, params)[j]).0.id@,
    decreases sorted.len(),
{
    if sorted.len() > 0 {
        lemma_latest_picks_distinct(sorted.drop_last(), params);
        let rest = latest_picks(sorted.drop_last(), params);
        let all = latest_picks(sorted, params);
        assert forall|i: int, j: int| 0 <= i < j < all.len() implies (#[trigger] all[i]).0.id@
            != (#[trigger] all[j]).0.id@ by {
            if j < rest.len() {
                assert(all[i] == rest[i] && all[j] == rest[j]);
            } else {
                assert(all[i] == rest[i]);
            }
        }
    }
}

/// A feed chapter's sort key.
fn upload_key_exec(c: &ChapterData) -> (r: SortKey)
    ensures
        r == upload_key(*c),
{
    let date: i64 = match first_some_of(c.date_public, c.date_modify, c.date_create) {
        Some(t) => t,
        None => 0,
    };
    (-(date as i128), 0)
}

/// The first of three values that is there.
fn first_some_of(a: Option<i64>, b: Option<i64>, c: Option<i64>) -> (r: Option<i64>)
    ensures
        r == first_some(a, b, c),
{
    match a {
        Some(x) => Some(x),
        None => match b {
            Some(x) => Some(x),
            None => c,
        },
    }
}

/// The feed's live chapters, each with its sort key, item by item.
fn keyed_feed(items: Vec<LatestUploadsItem>) -> (r: Vec<(SortKey, ChapterData)>)
    ensures
        r@ == keyed_uploads(feed_chapters(items@)),
{
    let ghost orig = items@;
    let mut rest = items;
    let mut out: Vec<(SortKey, ChapterData)> = Vec::new();
    let n = rest.len();
    let mut i: usize = 0;
    assert(orig.skip(0) =~= orig);
    assert(out@ =~= keyed_uploads(feed_chapters(orig.take(0))));
    while i < n
        invariant
            n == orig.len(),
            i <= n,
            rest@ == orig.skip(i as int),
            out@ == keyed_uploads(feed_chapters(orig.take(i as int))),
        decreases n - i,
    {
        let item = rest.remove(0);
        assert(item == orig[i as int]);
        assert(rest@ =~= orig.skip(i + 1));
        let ghost prefix = orig.take(i + 1);
        assert(prefix.drop_last() =~= orig.take(i as int));
        assert(prefix.last() == item);
        let ghost base = feed_chapters(orig.take(i as int));
        let nodes: Vec<Node<ChapterData>> = match item.chapters {
            Some(v) => v,
            None => Vec::new(),
        };
        let ghost nv = nodes@;
        assert(nv == match orig[i as int].chapters {
            Some(v) => v@,
            None => Seq::<Node<ChapterData>>::empty(),
        });
        let mut left = nodes;
        let m = left.len();
        let mut j: usize = 0;
        assert(nv.skip(0) =~= nv);
        assert(base + live_chapters(nv.take(0)) =~= base);
        while j < m
            invariant
                m == nv.len(),
                j <= m,
                left@ == nv.skip(j as int),
                out@ == keyed_uploads(base + live_chapters(nv.take(j as int))),
            decreases m - j,
        {
            let node = left.remove(0);
            assert(node == nv[j as int]);
            assert(left@ =~= nv.skip(j + 1));
            assert(nv.take(j + 1).drop_last() =~= nv.take(j as int));
            assert(nv.take(j + 1).last() == node);
            let ghost lc = live_chapters(nv.take(j as int));
            let live = match &node.data.db_status {
                Some(st) => str_eq(st.as_str(), "normal"),
                None => true,
            };
            if live {
                let c = node.data;
                let k = upload_key_exec(&c);
                out.push((k, c));
                assert(base + lc.push(c) =~= (base + lc).push(c));
                assert(out@ =~= keyed_uploads(base + live_chapters(nv.take(j + 1))));
            }
            j += 1;
        }
        assert(nv.take(m as int) =~= nv);
        i += 1;
    }
    assert(orig.take(n as int) =~= orig);
    out
}

/// Whether a comic with this id is among the picks.
fn picked(picks: &Vec<(ComicData, ChapterData)>, id: &String) -> (r: bool)
    ensures
        r == exists|j: int| 0 <= j < picks@.len() && #[trigger] picks@[j].0.id@ == id@,
{
    let mut j: usize = 0;
    while j < picks.len()
        invariant
            j <= picks@.len(),
            forall|q: int| 0 <= q < j ==> #[trigger] picks@[q].0.id@ != id@,
        decreases picks.len() - j,
    {
        if str_eq(picks[j].0.id.as_str(), id.as_str()) {
            return true;
        }
        j += 1;
    }
    false
}

/// The latest-uploads feed: for each comic, its newest chapter, newest first, of
/// the comics the reader's settings let through. The feed's items are titles, and
/// arrive grouped by title rather than newest first.
pub fn parse_latest_uploads(
    response: GraphQlResponse<LatestUploadsResponse>,
    params: &BrowseParams,
) -> (r: Result<Vec<(ComicData, ChapterData)>, String>)
    ensures
        match response.data {
            Some(d) => r matches Ok(v) && v@ == latest_picks(
                stable_sorted(keyed_uploads(feed_chapters(latest_items(d)))),
                *params,
            ),
            None => r matches Err(m) && m@ == graphql_error(response.errors@),
        },
        r matches Ok(v) ==> forall|i: int, j: int|
            0 <= i < j < v@.len() ==> (#[trigger] v@[i]).0.id@ != (#[trigger] v@[j]).0.id@,
        r matches Ok(v) ==> forall|i: int, j: int|
            0 <= i < j < v@.len() ==> key_le(
                upload_key((#[trigger] v@[i]).1),
                upload_key((#[trigger] v@[j]).1),
            ),
{
    let data = match graphql_data(response) {
        Ok(d) => d,
        Err(m) => return Err(m),
    };
    let items: Vec<LatestUploadsItem> = match data.latest_uploads {
        Some(result) => match result.items {
            Some(v) => v,
            None => Vec::new(),
        },
        None => Vec::new(),
    };
    let keyed = keyed_feed(items);
    let ghost kv = keyed@;
    let sorted = stable_sort_by_key(keyed);
    let ghost sv = sorted@;
    let mut rest = sorted;
    let mut out: Vec<(ComicData, ChapterData)> = Vec::new();
    let n = rest.len();
    let mut i: usize = 0;
    assert(sv.skip(0) =~= sv);
    while i < n
        invariant
            n == sv.len(),
            i <= n,
            rest@ == sv.skip(i as int),
            out@ == latest_picks(sv.take(i as int), *params),
        decreases n - i,
    {
        let (k, c) = rest.remove(0);
        assert((k, c) == sv[i as int]);
        assert(rest@ =~= sv.skip(i + 1));
        assert(sv.take(i + 1).drop_last() =~= sv.take(i as int));
        assert(sv.take(i + 1).last() == (k, c));
        let ChapterData {
            id,
            db_status,
            serial,
            cha_num,
            vol_num,
            dname,
            title,
            url_path,
            date_create,
            date_modify,
            date_public,
            src_name,
            profile_nodes,
            group_nodes,
            comic_node,
        } = c;
        let chapter = ChapterData {
            id,
            db_status,
            serial,
            cha_num,
            vol_num,
            dname,
            title,
            url_path,
            date_create,
            date_modify,
            date_public,
            src_name,
            profile_nodes,
            group_nodes,
            comic_node: None,
        };
        assert(chapter == without_comic(c));
        let comic = match comic_node {
            Some(node) => node.data,
            None => None,
        };
        if let Some(comic) = comic {
            if params.allows(&comic) && !picked(&out, &comic.id) {
                out.push((comic, chapter));
            }
        }
        i += 1;
    }
    assert(sv.take(n as int) =~= sv);
    proof {
        lemma_latest_picks_distinct(sv, *params);
        let p = |e: (SortKey, ChapterData)| e.0 == upload_key(e.1);
        lemma_stable_sort_keeps(sv, kv, p);
        lemma_latest_picks_ordered(sv, *params);
    }
    Ok(out)
}

/// The comic of an answer to a query for one comic.
pub fn fetch_comic(response: GraphQlResponse<ComicNodeResponse>) -> (r: Result<ComicData, String>)
    ensures
        match response.data {
            Some(d) => match d.comic {
                Some(node) => r == Ok::<ComicData, String>(node.data),
                None => r matches Err(m) && m@ == "Manga not found"@,
            },
            None => r matches Err(m) && m@ == graphql_error(response.errors@),
        },
{
    match graphql_data(response) {
        Ok(d) => match d.comic {
            Some(node) => Ok(node.data),
            None => Err(String::from_str("Manga not found")),
        },
        Err(m) => Err(m),
    }
}

/// The image urls of an answer to a chapter pages query; none where it names none.
pub fn fetch_page_urls(response: GraphQlResponse<ChapterPagesResponse>) -> (r: Result<
    Vec<String>,
    String,
>)
    ensures
        match response.data {
            Some(d) => r matches Ok(v) && v.deep_view() == match d.chapter {
                Some(node) => match node.data {
                    Some(data) => opt_list(data.image_urls),
                    None => Seq::empty(),
                },
                None => Seq::empty(),
            },
            None => r matches Err(m) && m@ == graphql_error(response.errors@),
        },
{
    match graphql_data(response) {
        Ok(d) => {
            let urls: Vec<String> = match d.chapter {
                Some(node) => match node.data {
                    Some(data) => match data.image_urls {
                        Some(v) => v,
                        None => Vec::new(),
                    },
                    None => Vec::new(),
                },
                None => Vec::new(),
            };
            proof {
                if urls@.len() == 0 {
                    assert(urls.deep_view() =~= Seq::<Seq<char>>::empty());
                }
            }
            Ok(urls)
        },
        Err(m) => Err(m),
    }
}

/// The chapters a chapter list answer carries, in order.
pub open spec fn list_chapters(d: ChapterListResponse) -> Seq<ChapterData> {
    match d.chapter_list {
        Some(result) => match result.items {
            Some(v) => v@.map_values(|n: Node<ChapterData>| n.data),
            None => Seq::empty(),
        },
        None => Seq::empty(),
    }
}

/// The paging a chapter list answer carries.
pub open spec fn list_paging(d: ChapterListResponse) -> Option<Paging> {
    match d.chapter_list {
        Some(result) => result.paging,
        None => None,
    }
}

/// How many pages a chapter list has, from the paging of its first page and the
/// chapters on it: one, unless the site says more follow and its total runs past a
/// page, and then as many as the total fills.
pub open spec fn chapter_page_count(paging: Option<Paging>, first_count: int, size: int) -> int {
    let has_next = match paging {
        Some(p) => match p.next {
            Some(n) => n != 0,
            None => false,
        },
        None => false,
    };
    let total = match paging {
        Some(p) => match p.total {
            Some(t) => t as int,
            None => first_count,
        },
        None => first_count,
    };
    if has_next && total > size {
        (total + size - 1) / size
    } else {
        1
    }
}

/// The pages after the first, in batches of three: more at once and the site answers
/// 429, losing the list.
pub open spec fn chapter_batches(pages: int) -> Seq<Seq<i32>> {
    let count = if pages >= 2 {
        (pages - 2) / 3 + 1
    } else {
        0
    };
    Seq::new(
        count as nat,
        |b: int|
            Seq::new(
                (if pages - 1 - 3 * b < 3 {
                    pages - 1 - 3 * b
                } else {
                    3
                }) as nat,
                |k: int| (2 + 3 * b + k) as i32,
            ),
    )
}

/// The page count of a chapter list.
fn page_count(paging: &Option<Paging>, first_count: usize, size: i32) -> (r: i64)
    requires
        size > 0,
        first_count <= i64::MAX,
    ensures
        r == chapter_page_count(*paging, first_count as int, size as int),
{
    let has_next = match paging {
        Some(p) => match p.next {
            Some(n) => n != 0,
            None => false,
        },
        None => false,
    };
    let total: i128 = match paging {
        Some(p) => match p.total {
            Some(t) => t as i128,
            None => first_count as i128,
        },
        None => first_count as i128,
    };
    if has_next && total > size as i128 {
        let pages: i128 = (total - 1) / (size as i128) + 1;
        assert(pages == (total + size - 1) / (size as int)) by (nonlinear_arith)
            requires
                total > size,
                size > 0,
                pages == (total - 1) / (size as int) + 1,
        ;
        assert(pages <= total) by (nonlinear_arith)
            requires
                total > size,
                size > 0,
                pages == (total - 1) / (size as int) + 1,
        ;
        assert(pages >= 1) by (nonlinear_arith)
            requires
                total > size,
                size > 0,
                pages == (total - 1) / (size as int) + 1,
        ;
        pages as i64
    } else {
        1
    }
}

/// The batches of pages after the first, for a list of `pages` pages.
fn batches_of(pages: i64) -> (r: Vec<Vec<i32>>)
    requires
        1 <= pages <= i32::MAX,
    ensures
        r.deep_view() == chapter_batches(pages as int),
{
    let mut out: Vec<Vec<i32>> = Vec::new();
    let mut start: i64 = 2;
    let ghost want = chapter_batches(pages as int);
    while start <= pages
        invariant
            pages <= i32::MAX,
            start >= 2,
            (start - 2) % 3 == 0,
            start <= pages + 3,
            want == chapter_batches(pages as int),
            out@.len() == (start - 2) / 3,
            forall|b: int| 0 <= b < out@.len() ==> (#[trigger] out@[b]).deep_view() == want[b],
        decreases pages + 3 - start,
    {
        let end: i64 = if pages - start < 2 {
            pages
        } else {
            start + 2
        };
        let ghost b = (start - 2) / 3;
        let mut batch: Vec<i32> = Vec::new();
        let mut p: i64 = start;
        while p <= end
            invariant
                2 <= start <= p <= end + 1,
                end <= pages <= i32::MAX,
                batch@ == Seq::new((p - start) as nat, |k: int| (start + k) as i32),
            decreases end + 1 - p,
        {
            batch.push(p as i32);
            assert(batch@ =~= Seq::new((p + 1 - start) as nat, |k: int| (start + k) as i32));
            p += 1;
        }
        assert(batch@ =~= want[b]);
        assert(batch.deep_view() =~= batch@);
        out.push(batch);
        start += 3;
    }
    assert(out@.len() == want.len());
    assert(out.deep_view() =~= want);
    out
}

/// The first page of a comic's chapter list, and the batches of pages still to ask
/// for after it. `deduplicate` says which list was asked for, which sets its page
/// size.
pub fn fetch_chapters(first: GraphQlResponse<ChapterListResponse>, deduplicate: bool) -> (r: Result<
    (Vec<ChapterData>, Vec<Vec<i32>>),
    String,
>)
    requires
        first.data matches Some(d) ==> list_chapters(d).len() <= i64::MAX,
        first.data matches Some(d) ==> chapter_page_count(
            list_paging(d),
            list_chapters(d).len() as int,
            chapter_page_size_spec(deduplicate) as int,
        ) <= i32::MAX,
    ensures
        match first.data {
            Some(d) => r matches Ok(v) && v.0@ == list_chapters(d) && v.1.deep_view()
                == chapter_batches(
                chapter_page_count(
                    list_paging(d),
                    list_chapters(d).len() as int,
                    chapter_page_size_spec(deduplicate) as int,
                ),
            ),
            None => r matches Err(m) && m@ == graphql_error(first.errors@),
        },
{
    let data = match graphql_data(first) {
        Ok(d) => d,
        Err(m) => return Err(m),
    };
    let size = chapter_page_size(deduplicate);
    let ghost dv = data;
    let (paging, chapters) = match data.chapter_list {
        Some(result) => (result.paging, chapters_of(result.items)),
        None => (None, Vec::new()),
    };
    assert(chapters@ =~= list_chapters(dv));
    let pages = page_count(&paging, chapters.len(), size);
    Ok((chapters, batches_of(pages)))
}

/// The chapters the nodes carry, in order.
fn chapters_of(items: Option<Vec<Node<ChapterData>>>) -> (r: Vec<ChapterData>)
    ensures
        r@ == match items {
            Some(v) => v@.map_values(|n: Node<ChapterData>| n.data),
            None => Seq::empty(),
        },
{
    let nodes = match items {
        Some(v) => v,
        None => Vec::new(),
    };
    let ghost nv = nodes@;
    let mut rest = nodes;
    let mut out: Vec<ChapterData> = Vec::new();
    let n = rest.len();
    let mut i: usize = 0;
    assert(nv.skip(0) =~= nv);
    while i < n
        invariant
            n == nv.len(),
            i <= n,
            rest@ == nv.skip(i as int),
            out@ == nv.take(i as int).map_values(|n: Node<ChapterData>| n.data),
        decreases n - i,
    {
        let node = rest.remove(0);
        assert(node == nv[i as int]);
        assert(rest@ =~= nv.skip(i + 1));
        out.push(node.data);
        assert(out@ =~= nv.take(i + 1).map_values(|n: Node<ChapterData>| n.data));
        i += 1;
    }
    assert(nv.take(n as int) =~= nv);
    out
}

/// Appends the chapters of a later page of the list to `chapters`.
pub fn extend_chapters(chapters: &mut Vec<ChapterData>, response: GraphQlResponse<ChapterListResponse>) -> (r:
    Result<(), String>)
    ensures
        match response.data {
            Some(d) => r is Ok && final(chapters)@ == old(chapters)@ + list_chapters(d),
            None => r matches Err(m) && m@ == graphql_error(response.errors@) && final(chapters)@
                == old(chapters)@,
        },
{
    let data = match graphql_data(response) {
        Ok(d) => d,
        Err(m) => return Err(m),
    };
    let ghost dv = data;
    let more = match data.chapter_list {
        Some(result) => chapters_of(result.items),
        None => Vec::new(),
    };
    assert(more@ =~= list_chapters(dv));
    let mut more = more;
    chapters.append(&mut more);
    Ok(())
}

} // verus!
