//! The values a source hands the app: comics, chapters and their attributes.
use vstd::prelude::*;

verus! {

/// Publishing status of a comic.
#[derive(Clone, Copy, Debug, PartialEq, Eq, Structural)]
pub enum MangaStatus {
    Unknown,
    Ongoing,
    Completed,
    Cancelled,
    Hiatus,
}

/// How explicit a comic is.
#[derive(Clone, Copy, Debug, PartialEq, Eq, Structural)]
pub enum ContentRating {
    Unknown,
    Safe,
    Suggestive,
    NSFW,
}

/// The reading mode a comic is best read in.
#[derive(Clone, Copy, Debug, PartialEq, Eq, Structural)]
pub enum Viewer {
    Unknown,
    LeftToRight,
    RightToLeft,
    Vertical,
    Webtoon,
}

/// A comic as a source describes it.
#[derive(Debug)]
pub struct Manga {
    pub key: String,
    pub title: String,
    pub cover: Option<String>,
    pub url: Option<String>,
    pub authors: Option<Vec<String>>,
    pub artists: Option<Vec<String>>,
    pub description: Option<String>,
    pub tags: Option<Vec<String>>,
    pub status: MangaStatus,
    pub content_rating: ContentRating,
    pub viewer: Viewer,
}

/// The mathematical content of a [`Manga`].
pub struct MangaView {
    pub key: Seq<char>,
    pub title: Seq<char>,
    pub cover: Option<Seq<char>>,
    pub url: Option<Seq<char>>,
    pub authors: Option<Seq<Seq<char>>>,
    pub artists: Option<Seq<Seq<char>>>,
    pub description: Option<Seq<char>>,
    pub tags: Option<Seq<Seq<char>>>,
    pub status: MangaStatus,
    pub content_rating: ContentRating,
    pub viewer: Viewer,
}

impl View for Manga {
    type V = MangaView;

    open spec fn view(&self) -> MangaView {
        MangaView {
            key: self.key@,
            title: self.title@,
            cover: self.cover.deep_view(),
            url: self.url.deep_view(),
            authors: self.authors.deep_view(),
            artists: self.artists.deep_view(),
            description: self.description.deep_view(),
            tags: self.tags.deep_view(),
            status: self.status,
            content_rating: self.content_rating,
            viewer: self.viewer,
        }
    }
}

/// A comic with only a key, a title, a cover and a url, the rest left unknown.
pub open spec fn listed_manga(
    key: Seq<char>,
    title: Seq<char>,
    cover: Option<Seq<char>>,
    url: Option<Seq<char>>,
) -> MangaView {
    MangaView {
        key,
        title,
        cover,
        url,
        authors: None,
        artists: None,
        description: None,
        tags: None,
        status: MangaStatus::Unknown,
        content_rating: ContentRating::Unknown,
        viewer: Viewer::Unknown,
    }
}

impl Manga {
    /// A comic with only a key, a title, a cover and a url.
    pub fn listed(key: String, title: String, cover: Option<String>, url: Option<String>) -> (r:
        Manga)
        ensures
            r@ == listed_manga(key@, title@, cover.deep_view(), url.deep_view()),
    {
        Manga {
            key,
            title,
            cover,
            url,
            authors: None,
            artists: None,
            description: None,
            tags: None,
            status: MangaStatus::Unknown,
            content_rating: ContentRating::Unknown,
            viewer: Viewer::Unknown,
        }
    }
}

/// A chapter or volume number.
#[derive(Clone, Copy, Debug, PartialEq, Eq, Structural)]
pub enum ChapterNumber {
    /// A whole number.
    Whole(u64),
    /// A fractional number, as the bit pattern of its 64-bit IEEE 754 value, which
    /// is carried and never computed with.
    Bits(u64),
}

/// A chapter of a comic.
#[derive(Debug)]
pub struct Chapter {
    pub key: String,
    pub title: Option<String>,
    pub chapter_number: Option<ChapterNumber>,
    pub volume_number: Option<ChapterNumber>,
    pub date_uploaded: Option<i64>,
    pub scanlators: Option<Vec<String>>,
    pub url: Option<String>,
    pub language: Option<String>,
    pub thumbnail: Option<String>,
}

/// The mathematical content of a [`Chapter`].
pub struct ChapterView {
    pub key: Seq<char>,
    pub title: Option<Seq<char>>,
    pub chapter_number: Option<ChapterNumber>,
    pub volume_number: Option<ChapterNumber>,
    pub date_uploaded: Option<i64>,
    pub scanlators: Option<Seq<Seq<char>>>,
    pub url: Option<Seq<char>>,
    pub language: Option<Seq<char>>,
    pub thumbnail: Option<Seq<char>>,
}

impl View for Chapter {
    type V = ChapterView;

    open spec fn view(&self) -> ChapterView {
        ChapterView {
            key: self.key@,
            title: self.title.deep_view(),
            chapter_number: self.chapter_number,
            volume_number: self.volume_number,
            date_uploaded: self.date_uploaded,
            scanlators: self.scanlators.deep_view(),
            url: self.url.deep_view(),
            language: self.language.deep_view(),
            thumbnail: self.thumbnail.deep_view(),
        }
    }
}

/// A page of comics and whether another page follows.
#[derive(Debug)]
pub struct MangaPageResult {
    pub entries: Vec<Manga>,
    pub has_next_page: bool,
}

/// A comic with its newest chapter.
#[derive(Debug)]
pub struct MangaWithChapter {
    pub manga: Manga,
    pub chapter: Chapter,
}

/// A named list of comics a source offers.
#[derive(Debug)]
pub struct Listing {
    pub id: String,
    pub name: String,
}

/// What a link into a source's site opens.
#[derive(Debug)]
pub enum DeepLinkResult {
    Manga { key: String },
    Chapter { manga_key: String, key: String },
}

/// The mathematical content of a [`DeepLinkResult`]: a comic's key, or a comic's and
/// a chapter's.
pub enum DeepLinkView {
    Manga(Seq<char>),
    Chapter(Seq<char>, Seq<char>),
}

impl View for DeepLinkResult {
    type V = DeepLinkView;

    open spec fn view(&self) -> DeepLinkView {
        match self {
            DeepLinkResult::Manga { key } => DeepLinkView::Manga(key@),
            DeepLinkResult::Chapter { manga_key, key } => DeepLinkView::Chapter(manga_key@, key@),
        }
    }
}

/// A filter value as the app hands it to a search. Range bounds come as the text
/// the app shows for them.
#[derive(Debug)]
pub enum FilterValue {
    Text { id: String, value: String },
    Sort { id: String, index: i32, ascending: bool },
    Select { id: String, value: String },
    MultiSelect { id: String, included: Vec<String>, excluded: Vec<String> },
    Range { id: String, from: Option<String>, to: Option<String> },
}

/// A request to send: its url, and the form body when it is a `POST`.
#[derive(Debug)]
pub struct PageRequest {
    pub url: String,
    pub form_body: Option<String>,
}

} // verus!
