//! The shapes of the xcomic GraphQL API's answers, as plain values.
use vstd::prelude::*;

verus! {

/// An API answer: its data, or the errors that stood in for it.
#[derive(Debug)]
pub struct GraphQlResponse<T> {
    pub data: Option<T>,
    pub errors: Vec<GraphQlError>,
}

/// One error the API reported.
#[derive(Debug)]
pub struct GraphQlError {
    pub message: String,
}

/// The API's wrapper around each record.
#[derive(Debug)]
pub struct Node<T> {
    pub data: T,
}

/// A record that only carries a name.
#[derive(Debug)]
pub struct NamedData {
    pub name: Option<String>,
}

/// A synopsis.
#[derive(Debug)]
pub struct Summary {
    pub text: Option<String>,
}

/// A comic, which the site calls an edition of a title.
#[derive(Debug)]
pub struct ComicData {
    pub id: String,
    pub name: String,
    /// The scanlation team behind this edition, which the site badges it with.
    pub sub_name: Option<String>,
    pub kind: Option<String>,
    pub demographics: Option<Vec<String>>,
    pub content_rating: Option<String>,
    pub genres: Option<Vec<String>>,
    pub tags: Option<Vec<String>>,
    pub author_nodes: Option<Vec<Node<Option<NamedData>>>>,
    pub artist_nodes: Option<Vec<Node<Option<NamedData>>>>,
    pub tag_nodes: Option<Vec<Node<Option<NamedData>>>>,
    pub summary: Option<Summary>,
    /// Browse spells the synopsis flat, where the comic endpoint nests it in `summary`.
    pub description: Option<String>,
    pub url_path: Option<String>,
    pub url_cover: Option<String>,
    pub original_status: Option<String>,
    pub upload_status: Option<String>,
    pub read_direction: Option<String>,
    pub translated_language: Option<String>,
    /// Chapters on this edition, which ranks the editions of one title.
    pub chapter_count: Option<i64>,
}

/// A work and its editions; the edition carries the id the source is keyed by.
#[derive(Debug)]
pub struct TitleNode {
    pub data: ComicData,
    pub comic_nodes: Option<Vec<Node<Option<ComicData>>>>,
}

/// The titles a browse query answers.
#[derive(Debug)]
pub struct BrowseResponse {
    pub items: Option<Vec<TitleNode>>,
}

/// One title of the latest-uploads feed, with its newest chapters.
#[derive(Debug)]
pub struct LatestUploadsItem {
    pub chapters: Option<Vec<Node<ChapterData>>>,
}

/// The items of the latest-uploads feed.
#[derive(Debug)]
pub struct LatestUploadsResult {
    pub items: Option<Vec<LatestUploadsItem>>,
}

/// The latest-uploads feed.
#[derive(Debug)]
pub struct LatestUploadsResponse {
    pub latest_uploads: Option<LatestUploadsResult>,
}

/// The titles of the recently-added feed.
#[derive(Debug)]
pub struct RecentlyAddedResult {
    pub items: Option<Vec<TitleNode>>,
}

/// The recently-added feed.
#[derive(Debug)]
pub struct RecentlyAddedResponse {
    pub recently_added: Option<RecentlyAddedResult>,
}

/// The answer to a query for one comic.
#[derive(Debug)]
pub struct ComicNodeResponse {
    pub comic: Option<Node<ComicData>>,
}

/// A chapter. Its serial, chapter and volume numbers are fractional: each is held
/// as the bit pattern of its 64-bit IEEE 754 value, which is carried and never
/// computed with.
#[derive(Debug)]
pub struct ChapterData {
    pub id: String,
    pub db_status: Option<String>,
    pub serial: Option<u64>,
    pub cha_num: Option<u64>,
    pub vol_num: Option<u64>,
    pub dname: Option<String>,
    pub title: Option<String>,
    pub url_path: Option<String>,
    pub date_create: Option<i64>,
    pub date_modify: Option<i64>,
    pub date_public: Option<i64>,
    pub src_name: Option<String>,
    pub profile_nodes: Option<Vec<Node<Option<NamedData>>>>,
    pub group_nodes: Option<Vec<Node<Option<NamedData>>>>,
    /// Only the latest-uploads feed sets this.
    pub comic_node: Option<Node<Option<ComicData>>>,
}

/// Where a chapter list stands: the next page, if any, and the chapter total.
#[derive(Debug)]
pub struct Paging {
    pub next: Option<i64>,
    pub total: Option<i64>,
}

/// One page of a chapter list.
#[derive(Debug)]
pub struct ChapterListResult {
    pub paging: Option<Paging>,
    pub items: Option<Vec<Node<ChapterData>>>,
}

/// The answer to a chapter list query.
#[derive(Debug)]
pub struct ChapterListResponse {
    pub chapter_list: Option<ChapterListResult>,
}

/// The images of a chapter.
#[derive(Debug)]
pub struct ChapterPageData {
    pub image_urls: Option<Vec<String>>,
}

/// The answer to a chapter pages query.
#[derive(Debug)]
pub struct ChapterPagesResponse {
    pub chapter: Option<Node<Option<ChapterPageData>>>,
}

} // verus!
