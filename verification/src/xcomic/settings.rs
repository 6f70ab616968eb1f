//! The reader's xcomic settings, from the values the app has stored for them.
use vstd::prelude::*;
use crate::text::{
    is_whitespace, lacks, lemma_replace_absent, lemma_trim_plain, opt_list, chars_eq, chars_of, replace, replace_exec,
    string_from, trim, trim_exec,
};

verus! {

/// The content types the site knows, which are all of them by default.
pub open spec fn content_types_all() -> Seq<Seq<char>> {
    seq![
        "cartoon"@,
        "imageset"@,
        "manga"@,
        "manhua"@,
        "manhwa"@,
        "oel"@,
        "other"@,
        "western"@,
    ]
}

/// The content ratings the site knows, which are all of them by default.
pub open spec fn content_ratings_all() -> Seq<Seq<char>> {
    seq!["safe"@, "suggestive"@, "erotica"@, "pornographic"@]
}

/// The content types the site knows.
pub fn content_types_list() -> (r: Vec<String>)
    ensures
        r.deep_view() == content_types_all(),
{
    let r = vec![
        String::from_str("cartoon"),
        String::from_str("imageset"),
        String::from_str("manga"),
        String::from_str("manhua"),
        String::from_str("manhwa"),
        String::from_str("oel"),
        String::from_str("other"),
        String::from_str("western"),
    ];
    assert(r.deep_view() =~= content_types_all());
    r
}

/// The content ratings the site knows.
pub fn content_ratings_list() -> (r: Vec<String>)
    ensures
        r.deep_view() == content_ratings_all(),
{
    let r = vec![
        String::from_str("safe"),
        String::from_str("suggestive"),
        String::from_str("erotica"),
        String::from_str("pornographic"),
    ];
    assert(r.deep_view() =~= content_ratings_all());
    r
}

/// A stored list, or the given default when the key is unset. A stored empty list
/// stays empty: unchecking every box must not silently mean every box.
pub fn stored_list(stored: Option<Vec<String>>, default: Vec<String>) -> (r: Vec<String>)
    ensures
        r.deep_view() == match stored {
            Some(list) => list.deep_view(),
            None => default.deep_view(),
        },
{
    match stored {
        Some(list) => list,
        None => default,
    }
}

/// The content types to show: the stored selection, or every type when unset.
pub fn content_types(stored: Option<Vec<String>>) -> (r: Vec<String>)
    ensures
        r.deep_view() == match stored {
            Some(list) => list.deep_view(),
            None => content_types_all(),
        },
{
    stored_list(stored, content_types_list())
}

/// The content ratings to show: the stored selection, or every rating when unset.
pub fn content_ratings(stored: Option<Vec<String>>) -> (r: Vec<String>)
    ensures
        r.deep_view() == match stored {
            Some(list) => list.deep_view(),
            None => content_ratings_all(),
        },
{
    stored_list(stored, content_ratings_list())
}

/// The genres the reader excludes everywhere: the stored list, or none.
pub fn excluded_genres(stored: Option<Vec<String>>) -> (r: Vec<String>)
    ensures
        r.deep_view() == match stored {
            Some(list) => list.deep_view(),
            None => Seq::<Seq<char>>::empty(),
        },
{
    match stored {
        Some(list) => list,
        None => {
            let r: Vec<String> = Vec::new();
            assert(r.deep_view() =~= Seq::<Seq<char>>::empty());
            r
        },
    }
}

/// Whether titles name the team behind an edition; on unless turned off.
pub fn show_source_in_title(stored: Option<bool>) -> (r: bool)
    ensures
        r == match stored {
            Some(b) => b,
            None => true,
        },
{
    match stored {
        Some(b) => b,
        None => true,
    }
}

/// Whether chapter lists collapse alternate uploads; on unless turned off, since a
/// title with hundreds of sources pages its full list far enough to draw a 429.
pub fn deduplicate_chapters(stored: Option<bool>) -> (r: bool)
    ensures
        r == match stored {
            Some(b) => b,
            None => true,
        },
{
    match stored {
        Some(b) => b,
        None => true,
    }
}

/// The API's code for a language the app names in BCP 47 form.
pub open spec fn api_language(language: Seq<char>) -> Seq<char> {
    if language == "pt-BR"@ {
        "pt_br"@
    } else if language == "es-419"@ {
        "es_419"@
    } else {
        language
    }
}

/// The selected languages in the API's form, or English when nothing is selected.
pub open spec fn languages_spec(stored: Option<Seq<Seq<char>>>) -> Seq<Seq<char>> {
    match stored {
        Some(list) => if list.len() > 0 {
            list.map_values(|l: Seq<char>| api_language(l))
        } else {
            seq!["en"@]
        },
        None => seq!["en"@],
    }
}

/// The API's code for one language.
fn api_language_exec(language: String) -> (r: String)
    ensures
        r@ == api_language(language@),
{
    let l = chars_of(language.as_str());
    let pt = chars_of("pt-BR");
    let es = chars_of("es-419");
    if chars_eq(&l, &pt) {
        String::from_str("pt_br")
    } else if chars_eq(&l, &es) {
        String::from_str("es_419")
    } else {
        language
    }
}

/// Selected languages, in the underscore form the API expects. Falls back to English
/// when nothing is selected.
pub fn languages(stored: Option<Vec<String>>) -> (r: Vec<String>)
    ensures
        r.deep_view() == languages_spec(stored.deep_view()),
{
    match stored {
        Some(list) => {
            if list.len() == 0 {
                let r = vec![String::from_str("en")];
                assert(r.deep_view() =~= seq!["en"@]);
                return r;
            }
            let ghost orig = list.deep_view();
            let mut out: Vec<String> = Vec::new();
            let n = list.len();
            let mut i: usize = 0;
            while i < n
                invariant
                    n == orig.len(),
                    orig == list.deep_view(),
                    i <= n,
                    out.deep_view() == orig.take(i as int).map_values(
                        |l: Seq<char>| api_language(l),
                    ),
                decreases n - i,
            {
                assert(orig[i as int] == list@[i as int]@);
                let ghost old_out = out.deep_view();
                let x = api_language_exec(list[i].clone());
                out.push(x);
                assert(out.deep_view() =~= old_out.push(x@));
                assert(orig.take(i + 1) =~= orig.take(i as int).push(orig[i as int]));
                i += 1;
                assert(out.deep_view() =~= orig.take(i as int).map_values(
                    |l: Seq<char>| api_language(l),
                ));
            }
            assert(orig.take(n as int) =~= orig);
            out
        },
        None => {
            let r = vec![String::from_str("en")];
            assert(r.deep_view() =~= seq!["en"@]);
            r
        },
    }
}

/// The app's BCP 47 form of an API language code, or nothing for a blank one.
pub open spec fn normalize_language_spec(language: Seq<char>) -> Option<Seq<char>> {
    let l = trim(language);
    if l.len() == 0 {
        None
    } else if l == "pt_br"@ {
        Some("pt-BR"@)
    } else if l == "es_419"@ {
        Some("es-419"@)
    } else {
        Some(replace(l, seq!['_'], seq!['-']))
    }
}

/// Inverse of [`languages`]: API code back to the BCP 47 form Aidoku uses.
pub fn normalize_language(language: &str) -> (r: Option<String>)
    ensures
        r.deep_view() == normalize_language_spec(language@),
{
    let all = chars_of(language);
    let l = trim_exec(&all);
    if l.len() == 0 {
        return None;
    }
    let pt = chars_of("pt_br");
    let es = chars_of("es_419");
    if chars_eq(&l, &pt) {
        return Some(String::from_str("pt-BR"));
    }
    if chars_eq(&l, &es) {
        return Some(String::from_str("es-419"));
    }
    let underscore = vec!['_'];
    let dash = vec!['-'];
    assert(underscore@ =~= seq!['_'] && dash@ =~= seq!['-']);
    let r = replace_exec(&l, underscore.as_slice(), dash.as_slice());
    Some(string_from(&r))
}

/// The reader's settings, each resolved from what the app stored for it.
#[derive(Debug)]
pub struct Preferences {
    pub excluded_genres: Vec<String>,
    pub content_types: Vec<String>,
    pub content_ratings: Vec<String>,
    pub languages: Vec<String>,
    pub show_source_in_title: bool,
    pub deduplicate_chapters: bool,
}

impl Preferences {
    /// The settings from the stored values of their keys, each with its default.
    pub fn from_stored(
        excluded: Option<Vec<String>>,
        types: Option<Vec<String>>,
        ratings: Option<Vec<String>>,
        stored_languages: Option<Vec<String>>,
        show_source: Option<bool>,
        deduplicate: Option<bool>,
    ) -> (r: Preferences)
        ensures
            r.excluded_genres.deep_view() == opt_list(excluded),
            r.content_types.deep_view() == match types {
                Some(list) => list.deep_view(),
                None => content_types_all(),
            },
            r.content_ratings.deep_view() == match ratings {
                Some(list) => list.deep_view(),
                None => content_ratings_all(),
            },
            r.languages.deep_view() == languages_spec(stored_languages.deep_view()),
            r.show_source_in_title == match show_source {
                Some(b) => b,
                None => true,
            },
            r.deduplicate_chapters == match deduplicate {
                Some(b) => b,
                None => true,
            },
    {
        Preferences {
            excluded_genres: excluded_genres(excluded),
            content_types: content_types(types),
            content_ratings: content_ratings(ratings),
            languages: languages(stored_languages),
            show_source_in_title: show_source_in_title(show_source),
            deduplicate_chapters: deduplicate_chapters(deduplicate),
        }
    }
}

/// Normalizing the API's code for a language gives back the app's code for it: for
/// a code without blanks around it and without `_`, as the app writes its codes.
pub proof fn law_normalize_inverts_api_language(language: Seq<char>)
    requires
        language.len() > 0,
        trim(language) == language,
        lacks(language, '_'),
    ensures
        normalize_language_spec(api_language(language)) == Some(language),
{
    reveal_strlit("pt-BR");
    reveal_strlit("es-419");
    reveal_strlit("pt_br");
    reveal_strlit("es_419");
    if language == "pt-BR"@ {
        let a = "pt_br"@;
        assert forall|i: int| 0 <= i < a.len() implies !is_whitespace(#[trigger] a[i]) by {}
        lemma_trim_plain(a);
    } else if language == "es-419"@ {
        let a = "es_419"@;
        assert forall|i: int| 0 <= i < a.len() implies !is_whitespace(#[trigger] a[i]) by {}
        lemma_trim_plain(a);
    } else {
        assert(language != "pt_br"@) by {
            if language == "pt_br"@ {
                assert(language[2] == '_');
            }
        }
        assert(language != "es_419"@) by {
            if language == "es_419"@ {
                assert(language[2] == '_');
            }
        }
        lemma_replace_absent(language, '_', seq!['-']);
    }
}

} // verus!
