//! The batcave home page's sections.
use vstd::prelude::*;
use crate::batcave::{BASE_URL, JUST_ADDED_LISTING, LATEST_LISTING, TOP_RATED_LISTING};
use crate::model::{Listing, Manga, MangaView, listed_manga};
use crate::text::{
    chars_of, rsplit_once, rsplit_once_exec, str_eq, string_from, strip_prefix, strip_prefix_exec,
};

verus! {

/// A genre's name from its link's text, like `Horror (2971)`: the text before the
/// last ` (`, which the app matches against the genre filter.
pub open spec fn genre_name_spec(text: Seq<char>) -> Seq<char> {
    match rsplit_once(text, " ("@) {
        Some((name, _)) => name,
        None => text,
    }
}

/// A genre's name from its link's text.
pub fn genre_name(text: &str) -> (r: String)
    ensures
        r@ == genre_name_spec(text@),
{
    let t = chars_of(text);
    let sep = chars_of(" (");
    match rsplit_once_exec(&t, &sep) {
        Some((name, _)) => string_from(&name),
        None => String::from_str(text),
    }
}

/// The name the source gives a listing, or its id for one it does not name.
pub open spec fn listing_name(id: Seq<char>) -> Seq<char> {
    if id == "latest"@ {
        "Newest Releases"@
    } else if id == "top-rated"@ {
        "Top Rated"@
    } else if id == "just-added"@ {
        "Just Added"@
    } else {
        id
    }
}

/// The listing with id `id`, under the name the source gives it.
pub fn listing(id: &str) -> (r: Listing)
    ensures
        r.id@ == id@,
        r.name@ == listing_name(id@),
{
    let name = if str_eq(id, LATEST_LISTING) {
        String::from_str("Newest Releases")
    } else if str_eq(id, TOP_RATED_LISTING) {
        String::from_str("Top Rated")
    } else if str_eq(id, JUST_ADDED_LISTING) {
        String::from_str("Just Added")
    } else {
        String::from_str(id)
    };
    Listing { id: String::from_str(id), name }
}

/// What the app read off one poster of a home section.
#[derive(Debug)]
pub struct PosterCard {
    /// The poster link's absolute target.
    pub url: Option<String>,
    /// The text of the poster's title; nothing where it has none.
    pub title: Option<String>,
    /// The absolute `data-src` of its image.
    pub cover: Option<String>,
}

/// The comic a poster shows, where it links a comic of the site and has a title.
pub open spec fn poster_manga(card: PosterCard) -> Option<MangaView> {
    match (card.url, card.title) {
        (Some(url), Some(title)) => match strip_prefix(url@, BASE_URL@) {
            Some(key) => Some(listed_manga(key, title@, card.cover.deep_view(), Some(url@))),
            None => None,
        },
        _ => None,
    }
}

/// The comic a poster shows.
pub fn parse_poster(card: PosterCard) -> (r: Option<Manga>)
    ensures
        match r {
            Some(m) => poster_manga(card) == Some(m@),
            None => poster_manga(card) is None,
        },
{
    let PosterCard { url, title, cover } = card;
    match (url, title) {
        (Some(url), Some(title)) => {
            let uc = chars_of(url.as_str());
            let base = chars_of(BASE_URL);
            match strip_prefix_exec(&uc, &base) {
                Some(key) => Some(Manga::listed(string_from(&key), title, cover, Some(url))),
                None => None,
            }
        },
        _ => None,
    }
}

} // verus!
