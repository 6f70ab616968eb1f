//! The episode list the mobile api answers with.
use vstd::prelude::*;
use crate::model::{Chapter, ChapterNumber, ChapterView};
use crate::text::{
    chars_of, concat_str, contains, contains_exec, replace, replace_exec, string_from, trim,
    trim_exec,
};
use crate::webtoons::{BASE_URL, IMAGE_URL};

verus! {

/// The api's answer.
#[derive(Debug)]
pub struct EpisodeListResponse {
    pub result: EpisodeList,
}

/// A series' episodes, oldest first.
#[derive(Debug)]
pub struct EpisodeList {
    pub episode_list: Vec<Episode>,
}

/// One episode.
#[derive(Debug)]
pub struct Episode {
    pub episode_title: String,
    pub viewer_link: String,
    pub exposure_date_millis: i64,
    pub thumbnail: Option<String>,
}

/// `text` trimmed, with the html entities an episode title can hold decoded, `&amp;`
/// last, so that an escaped entity stays escaped once.
pub open spec fn unescape_spec(text: Seq<char>) -> Seq<char> {
    let t = trim(text);
    if !contains(t, "&"@) {
        t
    } else {
        replace(
            replace(
                replace(
                    replace(
                        replace(replace(t, "&lt;"@, "<"@), "&gt;"@, ">"@),
                        "&quot;"@,
                        "\""@,
                    ),
                    "&#39;"@,
                    "'"@,
                ),
                "&#039;"@,
                "'"@,
            ),
            "&amp;"@,
            "&"@,
        )
    }
}

/// `s` with every `from` replaced by `to`.
fn replace_str(s: Vec<char>, from: &str, to: &str) -> (r: Vec<char>)
    requires
        from@.len() > 0,
    ensures
        r@ == replace(s@, from@, to@),
{
    let f = chars_of(from);
    let t = chars_of(to);
    replace_exec(&s, &f, &t)
}

/// An episode title as the app shows it: trimmed, with its html entities decoded.
pub fn unescape(text: &str) -> (r: String)
    ensures
        r@ == unescape_spec(text@),
{
    let all = chars_of(text);
    let t = trim_exec(&all);
    let amp = chars_of("&");
    if !contains_exec(&t, &amp) {
        return string_from(&t);
    }
    proof {
        reveal_strlit("&lt;");
        reveal_strlit("&gt;");
        reveal_strlit("&quot;");
        reveal_strlit("&#39;");
        reveal_strlit("&#039;");
        reveal_strlit("&amp;");
    }
    let a = replace_str(t, "&lt;", "<");
    let b = replace_str(a, "&gt;", ">");
    let c = replace_str(b, "&quot;", "\"");
    let d = replace_str(c, "&#39;", "'");
    let e = replace_str(d, "&#039;", "'");
    let f = replace_str(e, "&amp;", "&");
    string_from(&f)
}

/// `a / b` rounded toward zero, as Rust divides integers.
pub open spec fn div_toward_zero(a: int, b: int) -> int {
    if a >= 0 {
        a / b
    } else {
        -((-a) / b)
    }
}

/// The chapter an episode is, numbered `chapter_number`. Canvas links carry a
/// reading language that the site's own links leave out, so the key drops it.
pub open spec fn episode_chapter(e: Episode, chapter_number: ChapterNumber) -> ChapterView {
    let key = replace(e.viewer_link@, "&readingLanguageCode=en"@, Seq::empty());
    ChapterView {
        key,
        title: Some(unescape_spec(e.episode_title@)),
        chapter_number: Some(chapter_number),
        volume_number: None,
        date_uploaded: Some(div_toward_zero(e.exposure_date_millis as int, 1000) as i64),
        scanlators: None,
        url: Some(BASE_URL@ + key),
        language: None,
        thumbnail: match e.thumbnail {
            Some(path) => Some(IMAGE_URL@ + path@),
            None => None,
        },
    }
}

/// Milliseconds as whole seconds, rounded toward zero.
fn seconds_of(millis: i64) -> (r: i64)
    ensures
        r == div_toward_zero(millis as int, 1000),
{
    let m = millis as i128;
    let q: i128 = if m >= 0 {
        m / 1000
    } else {
        -((-m) / 1000)
    };
    q as i64
}

impl Episode {
    /// The chapter this episode is, numbered `chapter_number`.
    pub fn into_chapter(self, chapter_number: ChapterNumber) -> (r: Chapter)
        ensures
            r@ == episode_chapter(self, chapter_number),
    {
        let ghost e = self;
        let link = chars_of(self.viewer_link.as_str());
        proof {
            reveal_strlit("&readingLanguageCode=en");
        }
        let key_chars = replace_str(link, "&readingLanguageCode=en", "");
        let key = string_from(&key_chars);
        proof {
            reveal_strlit("");
        }
        assert(("")@ =~= Seq::<char>::empty());
        assert(key@ == replace(e.viewer_link@, "&readingLanguageCode=en"@, Seq::empty()));
        let seconds = seconds_of(self.exposure_date_millis);
        assert(seconds == div_toward_zero(e.exposure_date_millis as int, 1000) as i64);
        let url = concat_str(BASE_URL, key.as_str());
        Chapter {
            key,
            title: Some(unescape(self.episode_title.as_str())),
            chapter_number: Some(chapter_number),
            volume_number: None,
            date_uploaded: Some(seconds),
            scanlators: None,
            url: Some(url),
            language: None,
            thumbnail: match self.thumbnail {
                Some(path) => Some(concat_str(IMAGE_URL, path.as_str())),
                None => None,
            },
        }
    }
}

/// The chapters of a series' episodes, newest first. Episode numbers can skip
/// deleted episodes, so the chapters are numbered in order instead, from one.
pub open spec fn episode_chapters(episodes: Seq<Episode>) -> Seq<ChapterView> {
    Seq::new(
        episodes.len(),
        |i: int|
            episode_chapter(
                episodes[episodes.len() - 1 - i],
                ChapterNumber::Whole((episodes.len() - i) as u64),
            ),
    )
}

/// The chapters of a series' episodes, newest first.
pub fn chapters_from_episodes(episodes: Vec<Episode>) -> (r: Vec<Chapter>)
    ensures
        r@.map_values(|c: Chapter| c@) == episode_chapters(episodes@),
{
    let ghost ev = episodes@;
    let mut rest = episodes;
    let mut out: Vec<Chapter> = Vec::new();
    let n = rest.len();
    while rest.len() > 0
        invariant
            n == ev.len(),
            rest@ == ev.take(rest@.len() as int),
            out@.len() == n - rest@.len(),
            forall|q: int|
                0 <= q < out@.len() ==> (#[trigger] out@[q])@ == episode_chapter(
                    ev[n - 1 - q],
                    ChapterNumber::Whole((n - q) as u64),
                ),
        decreases rest.len(),
    {
        let k = rest.len();
        let e = rest.pop().unwrap();
        assert(e == ev[k - 1]);
        assert(rest@ =~= ev.take(k - 1));
        out.push(e.into_chapter(ChapterNumber::Whole(k as u64)));
    }
    assert(out@.map_values(|c: Chapter| c@) =~= episode_chapters(ev));
    out
}

/// A title without `&` holds no entity, so it is only trimmed; and a series' chapters
/// are its episodes newest first, the newest numbered with the count of episodes and
/// the oldest with one.
pub proof fn law_episodes(text: Seq<char>, episodes: Seq<Episode>, i: int)
    ensures
        !contains(trim(text), "&"@) ==> unescape_spec(text) == trim(text),
        episode_chapters(episodes).len() == episodes.len(),
        0 <= i < episodes.len() ==> episode_chapters(episodes)[i].chapter_number == Some(
            ChapterNumber::Whole((episodes.len() - i) as u64),
        ),
        0 <= i < episodes.len() ==> episode_chapters(episodes)[i].title == Some(
            unescape_spec(episodes[episodes.len() - 1 - i].episode_title@),
        ),
        episodes.len() > 0 ==> episode_chapters(episodes)[episodes.len() - 1].chapter_number == Some(
            ChapterNumber::Whole(1),
        ),
{
}

} // verus!
