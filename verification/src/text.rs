//! Character-level text operations with their mathematical meaning.
//!
//! Strings are viewed as sequences of `char`; every executable operation here
//! is proved against a spec function over those sequences.
use vstd::prelude::*;

verus! {

/// `p` is a prefix of `s`.
pub open spec fn is_prefix(p: Seq<char>, s: Seq<char>) -> bool {
    p.len() <= s.len() && s.take(p.len() as int) == p
}

/// `p` is a suffix of `s`.
pub open spec fn is_suffix(p: Seq<char>, s: Seq<char>) -> bool {
    p.len() <= s.len() && s.skip(s.len() - p.len()) == p
}

/// `s` without the prefix `p`, if it has it.
pub open spec fn strip_prefix(s: Seq<char>, p: Seq<char>) -> Option<Seq<char>> {
    if is_prefix(p, s) {
        Some(s.skip(p.len() as int))
    } else {
        None
    }
}

/// `s` without the suffix `p`, if it has it.
pub open spec fn strip_suffix(s: Seq<char>, p: Seq<char>) -> Option<Seq<char>> {
    if is_suffix(p, s) {
        Some(s.take(s.len() - p.len()))
    } else {
        None
    }
}

/// `p` occurs in `s` starting at index `i`.
pub open spec fn matches_at(s: Seq<char>, p: Seq<char>, i: int) -> bool {
    0 <= i && i + p.len() <= s.len() && s.subrange(i, i + p.len()) == p
}

/// The first index at or after `i` where `p` occurs in `s`.
pub open spec fn find_from(s: Seq<char>, p: Seq<char>, i: int) -> Option<int>
    decreases s.len() + 1 - i,
{
    if i < 0 || i + p.len() > s.len() {
        None
    } else if matches_at(s, p, i) {
        Some(i)
    } else {
        find_from(s, p, i + 1)
    }
}

/// The first index where `p` occurs in `s`.
pub open spec fn find(s: Seq<char>, p: Seq<char>) -> Option<int> {
    find_from(s, p, 0)
}

/// `p` occurs somewhere in `s`.
pub open spec fn contains(s: Seq<char>, p: Seq<char>) -> bool {
    exists|i: int| matches_at(s, p, i)
}

/// The last index at or before `i` where `p` occurs in `s`.
pub open spec fn rfind_upto(s: Seq<char>, p: Seq<char>, i: int) -> Option<int>
    decreases i + 1,
{
    if i < 0 {
        None
    } else if matches_at(s, p, i) {
        Some(i)
    } else {
        rfind_upto(s, p, i - 1)
    }
}

/// The last index where `p` occurs in `s`.
pub open spec fn rfind(s: Seq<char>, p: Seq<char>) -> Option<int> {
    rfind_upto(s, p, s.len() - p.len())
}

/// What comes before and after the first `p` in `s`.
pub open spec fn split_once(s: Seq<char>, p: Seq<char>) -> Option<(Seq<char>, Seq<char>)> {
    match find(s, p) {
        Some(k) => Some((s.take(k), s.skip(k + p.len()))),
        None => None,
    }
}

/// What comes before and after the last `p` in `s`.
pub open spec fn rsplit_once(s: Seq<char>, p: Seq<char>) -> Option<(Seq<char>, Seq<char>)> {
    match rfind(s, p) {
        Some(k) => Some((s.take(k), s.skip(k + p.len()))),
        None => None,
    }
}

/// The first piece of `s` split at `p`: all of `s` up to the first `p`.
pub open spec fn first_piece(s: Seq<char>, p: Seq<char>) -> Seq<char> {
    match split_once(s, p) {
        Some(parts) => parts.0,
        None => s,
    }
}

/// The last piece of `s` split at `p`: all of `s` after the last `p`.
pub open spec fn last_piece(s: Seq<char>, p: Seq<char>) -> Seq<char> {
    match rsplit_once(s, p) {
        Some(parts) => parts.1,
        None => s,
    }
}

/// The piece after the first `p`, up to the next `p`: the second piece of a split.
pub open spec fn second_piece(s: Seq<char>, p: Seq<char>) -> Option<Seq<char>> {
    match split_once(s, p) {
        Some(parts) => Some(first_piece(parts.1, p)),
        None => None,
    }
}

/// What `find_from` returns is the least match at or after `i`.
pub proof fn lemma_find_from(s: Seq<char>, p: Seq<char>, i: int)
    requires
        0 <= i,
    ensures
        match find_from(s, p, i) {
            Some(k) => i <= k && matches_at(s, p, k) && forall|j: int|
                i <= j < k ==> !matches_at(s, p, j),
            None => forall|j: int| i <= j ==> !matches_at(s, p, j),
        },
    decreases s.len() + 1 - i,
{
    if i + p.len() > s.len() {
    } else if matches_at(s, p, i) {
    } else {
        lemma_find_from(s, p, i + 1);
    }
}

/// What `rfind_upto` returns is the greatest match at or before `i`.
pub proof fn lemma_rfind_upto(s: Seq<char>, p: Seq<char>, i: int)
    ensures
        match rfind_upto(s, p, i) {
            Some(k) => 0 <= k <= i && matches_at(s, p, k) && forall|j: int|
                k < j <= i ==> !matches_at(s, p, j),
            None => forall|j: int| j <= i ==> !matches_at(s, p, j),
        },
    decreases i + 1,
{
    if i < 0 {
    } else if matches_at(s, p, i) {
    } else {
        lemma_rfind_upto(s, p, i - 1);
    }
}

/// `contains` holds exactly when `find` has an answer.
pub proof fn lemma_contains_find(s: Seq<char>, p: Seq<char>)
    ensures
        contains(s, p) <==> find(s, p) is Some,
{
    lemma_find_from(s, p, 0);
    if let Some(k) = find(s, p) {
        assert(matches_at(s, p, k));
    }
}

/// Calls `String::push`: the string gains `c` at its end.
#[verifier::external_body]
pub(crate) fn push_char(s: &mut String, c: char)
    ensures
        final(s)@ == old(s)@.push(c),
{
    s.push(c);
}

/// The characters of `s`, one per element.
pub fn chars_of(s: &str) -> (v: Vec<char>)
    ensures
        v@ == s@,
{
    let n = s.unicode_len();
    let mut v: Vec<char> = Vec::new();
    let mut i: usize = 0;
    while i < n
        invariant
            n == s@.len(),
            i <= n,
            v@ == s@.take(i as int),
        decreases n - i,
    {
        v.push(s.get_char(i));
        i += 1;
        assert(v@ =~= s@.take(i as int));
    }
    assert(s@.take(n as int) =~= s@);
    v
}

/// A string holding the characters `v[from..to]`.
pub fn string_of(v: &[char], from: usize, to: usize) -> (r: String)
    requires
        from <= to <= v@.len(),
    ensures
        r@ == v@.subrange(from as int, to as int),
{
    let mut r = String::new();
    let mut i = from;
    while i < to
        invariant
            from <= i <= to <= v@.len(),
            r@ == v@.subrange(from as int, i as int),
        decreases to - i,
    {
        push_char(&mut r, v[i]);
        i += 1;
        assert(r@ =~= v@.subrange(from as int, i as int));
    }
    r
}

/// A string holding all of `v`.
pub fn string_all(v: &[char]) -> (r: String)
    ensures
        r@ == v@,
{
    let r = string_of(v, 0, v.len());
    assert(v@.subrange(0, v@.len() as int) =~= v@);
    r
}

/// Whether `p` occurs in `s` at index `i`.
pub fn matches_at_exec(s: &[char], p: &[char], i: usize) -> (r: bool)
    ensures
        r == matches_at(s@, p@, i as int),
{
    if i > s.len() || p.len() > s.len() - i {
        return false;
    }
    let mut j: usize = 0;
    while j < p.len()
        invariant
            i + p@.len() <= s@.len(),
            i + p.len() <= s.len(),
            j <= p@.len(),
            forall|k: int| 0 <= k < j ==> s@[i + k] == p@[k],
        decreases p.len() - j,
    {
        if s[i + j] != p[j] {
            assert(s@.subrange(i as int, i + p@.len())[j as int] != p@[j as int]);
            return false;
        }
        j += 1;
    }
    assert(s@.subrange(i as int, i + p@.len()) =~= p@);
    true
}

/// The first index at or after `from` where `p` occurs in `s`.
pub fn find_from_exec(s: &[char], p: &[char], from: usize) -> (r: Option<usize>)
    ensures
        match r {
            Some(k) => find_from(s@, p@, from as int) == Some(k as int),
            None => find_from(s@, p@, from as int) is None,
        },
{
    let mut i = from;
    while i <= s.len() && p.len() <= s.len() - i
        invariant
            from <= i,
            find_from(s@, p@, from as int) == find_from(s@, p@, i as int),
        decreases s.len() + 1 - i,
    {
        if matches_at_exec(s, p, i) {
            return Some(i);
        }
        if i == s.len() {
            assert(find_from(s@, p@, i + 1) is None);
            return None;
        }
        i += 1;
    }
    None
}

/// The last index where `p` occurs in `s`.
pub fn rfind_exec(s: &[char], p: &[char]) -> (r: Option<usize>)
    ensures
        match r {
            Some(k) => rfind(s@, p@) == Some(k as int),
            None => rfind(s@, p@) is None,
        },
{
    if p.len() > s.len() {
        assert(rfind_upto(s@, p@, s@.len() - p@.len()) is None);
        return None;
    }
    let mut i: usize = s.len() - p.len();
    loop
        invariant
            i <= s@.len() - p@.len(),
            p@.len() <= s@.len(),
            rfind(s@, p@) == rfind_upto(s@, p@, i as int),
        decreases i,
    {
        if matches_at_exec(s, p, i) {
            return Some(i);
        }
        if i == 0 {
            assert(rfind_upto(s@, p@, -1) is None);
            return None;
        }
        i -= 1;
    }
}

/// Whether `s` starts with `p`.
pub fn starts_with(s: &[char], p: &[char]) -> (r: bool)
    ensures
        r == is_prefix(p@, s@),
{
    let r = matches_at_exec(s, p, 0);
    proof {
        if p@.len() <= s@.len() {
            assert(s@.subrange(0, p@.len() as int) =~= s@.take(p@.len() as int));
        }
    }
    r
}

/// Whether `s` ends with `p`.
pub fn ends_with(s: &[char], p: &[char]) -> (r: bool)
    ensures
        r == is_suffix(p@, s@),
{
    if p.len() > s.len() {
        return false;
    }
    let r = matches_at_exec(s, p, s.len() - p.len());
    assert(s@.subrange(s@.len() - p@.len(), s@.len() as int) =~= s@.skip(s@.len() - p@.len()));
    r
}

/// Whether `p` occurs in `s`.
pub fn contains_exec(s: &[char], p: &[char]) -> (r: bool)
    ensures
        r == contains(s@, p@),
{
    proof {
        lemma_contains_find(s@, p@);
    }
    find_from_exec(s, p, 0).is_some()
}

/// Whether two character sequences are equal.
pub fn chars_eq(a: &[char], b: &[char]) -> (r: bool)
    ensures
        r == (a@ == b@),
{
    if a.len() != b.len() {
        return false;
    }
    let r = matches_at_exec(a, b, 0);
    assert(a@.subrange(0, b@.len() as int) =~= a@);
    r
}

/// Whether two strings are equal.
pub fn str_eq(a: &str, b: &str) -> (r: bool)
    ensures
        r == (a@ == b@),
{
    let x = chars_of(a);
    let y = chars_of(b);
    chars_eq(&x, &y)
}


/// `c` is whitespace in the sense of Unicode's `White_Space` property, which is
/// how `char::is_whitespace` and `str::trim` decide.
pub open spec fn is_whitespace(c: char) -> bool {
    c == '\t' || c == '\n' || c == '\u{0B}' || c == '\u{0C}' || c == '\r' || c == ' '
        || c == '\u{85}' || c == '\u{A0}' || c == '\u{1680}' || ('\u{2000}' <= c && c
        <= '\u{200A}') || c == '\u{2028}' || c == '\u{2029}' || c == '\u{202F}' || c
        == '\u{205F}' || c == '\u{3000}'
}

/// Whether `c` is whitespace.
pub fn is_whitespace_exec(c: char) -> (r: bool)
    ensures
        r == is_whitespace(c),
{
    c == '\t' || c == '\n' || c == '\u{0B}' || c == '\u{0C}' || c == '\r' || c == ' ' || c
        == '\u{85}' || c == '\u{A0}' || c == '\u{1680}' || ('\u{2000}' <= c && c <= '\u{200A}')
        || c == '\u{2028}' || c == '\u{2029}' || c == '\u{202F}' || c == '\u{205F}' || c
        == '\u{3000}'
}

/// `s` without leading whitespace.
pub open spec fn trim_start(s: Seq<char>) -> Seq<char>
    decreases s.len(),
{
    if s.len() > 0 && is_whitespace(s[0]) {
        trim_start(s.drop_first())
    } else {
        s
    }
}

/// `s` without trailing whitespace.
pub open spec fn trim_end(s: Seq<char>) -> Seq<char>
    decreases s.len(),
{
    if s.len() > 0 && is_whitespace(s.last()) {
        trim_end(s.drop_last())
    } else {
        s
    }
}

/// `s` without leading and trailing whitespace.
pub open spec fn trim(s: Seq<char>) -> Seq<char> {
    trim_end(trim_start(s))
}

/// `s` without any leading copies of `c`.
pub open spec fn trim_start_char(s: Seq<char>, c: char) -> Seq<char>
    decreases s.len(),
{
    if s.len() > 0 && s[0] == c {
        trim_start_char(s.drop_first(), c)
    } else {
        s
    }
}

/// `s` without any trailing copies of `c`.
pub open spec fn trim_end_char(s: Seq<char>, c: char) -> Seq<char>
    decreases s.len(),
{
    if s.len() > 0 && s.last() == c {
        trim_end_char(s.drop_last(), c)
    } else {
        s
    }
}

/// Trimming the start is dropping some prefix.
pub proof fn lemma_trim_start_skip(s: Seq<char>)
    ensures
        trim_start(s).len() <= s.len(),
        trim_start(s) == s.skip(s.len() - trim_start(s).len()),
        trim_start(s).len() > 0 ==> !is_whitespace(trim_start(s)[0]),
    decreases s.len(),
{
    if s.len() > 0 && is_whitespace(s[0]) {
        lemma_trim_start_skip(s.drop_first());
        assert(s.drop_first().skip(s.drop_first().len() - trim_start(s).len()) =~= s.skip(
            s.len() - trim_start(s).len(),
        ));
    } else {
        assert(s.skip(0) =~= s);
    }
}

/// Trimming the end is taking some prefix.
pub proof fn lemma_trim_end_take(s: Seq<char>)
    ensures
        trim_end(s).len() <= s.len(),
        trim_end(s) == s.take(trim_end(s).len() as int),
        trim_end(s).len() > 0 ==> !is_whitespace(trim_end(s).last()),
    decreases s.len(),
{
    if s.len() > 0 && is_whitespace(s.last()) {
        lemma_trim_end_take(s.drop_last());
        assert(s.drop_last().take(trim_end(s).len() as int) =~= s.take(trim_end(s).len() as int));
    } else {
        assert(s.take(s.len() as int) =~= s);
    }
}

/// Index of the first character of `s[from..to]` that is not whitespace, or `to`.
fn skip_whitespace(s: &[char], from: usize, to: usize) -> (r: usize)
    requires
        from <= to <= s@.len(),
    ensures
        from <= r <= to,
        trim_start(s@.subrange(from as int, to as int)) == s@.subrange(r as int, to as int),
{
    let mut i = from;
    while i < to && is_whitespace_exec(s[i])
        invariant
            from <= i <= to <= s@.len(),
            trim_start(s@.subrange(from as int, to as int)) == trim_start(
                s@.subrange(i as int, to as int),
            ),
        decreases to - i,
    {
        assert(s@.subrange(i as int, to as int).drop_first() =~= s@.subrange(
            i + 1,
            to as int,
        ));
        i += 1;
    }
    i
}

/// One past the last character of `s[from..to]` that is not whitespace, or `from`.
fn skip_whitespace_back(s: &[char], from: usize, to: usize) -> (r: usize)
    requires
        from <= to <= s@.len(),
    ensures
        from <= r <= to,
        trim_end(s@.subrange(from as int, to as int)) == s@.subrange(from as int, r as int),
{
    let mut j = to;
    while j > from && is_whitespace_exec(s[j - 1])
        invariant
            from <= j <= to <= s@.len(),
            trim_end(s@.subrange(from as int, to as int)) == trim_end(
                s@.subrange(from as int, j as int),
            ),
        decreases j - from,
    {
        assert(s@.subrange(from as int, j as int).drop_last() =~= s@.subrange(
            from as int,
            j - 1,
        ));
        j -= 1;
    }
    j
}

/// The bounds of `s` trimmed of whitespace.
pub fn trim_bounds(s: &[char]) -> (r: (usize, usize))
    ensures
        r.0 <= r.1 <= s@.len(),
        s@.subrange(r.0 as int, r.1 as int) == trim(s@),
{
    let a = skip_whitespace(s, 0, s.len());
    let b = skip_whitespace_back(s, a, s.len());
    assert(s@.subrange(0, s@.len() as int) =~= s@);
    (a, b)
}

/// `s` trimmed of whitespace at both ends.
pub fn trim_exec(s: &[char]) -> (r: Vec<char>)
    ensures
        r@ == trim(s@),
{
    let (a, b) = trim_bounds(s);
    slice_range(s, a, b)
}

/// `s` trimmed of leading whitespace.
pub fn trim_start_exec(s: &[char]) -> (r: Vec<char>)
    ensures
        r@ == trim_start(s@),
{
    let a = skip_whitespace(s, 0, s.len());
    assert(s@.subrange(0, s@.len() as int) =~= s@);
    slice_range(s, a, s.len())
}

/// `s` trimmed of trailing whitespace.
pub fn trim_end_exec(s: &[char]) -> (r: Vec<char>)
    ensures
        r@ == trim_end(s@),
{
    let b = skip_whitespace_back(s, 0, s.len());
    assert(s@.subrange(0, s@.len() as int) =~= s@);
    slice_range(s, 0, b)
}

/// `s` trimmed of leading copies of `c`.
pub fn trim_start_char_exec(s: &[char], c: char) -> (r: Vec<char>)
    ensures
        r@ == trim_start_char(s@, c),
{
    let mut i: usize = 0;
    assert(s@.skip(0) =~= s@);
    while i < s.len() && s[i] == c
        invariant
            i <= s@.len(),
            trim_start_char(s@, c) == trim_start_char(s@.skip(i as int), c),
        decreases s.len() - i,
    {
        assert(s@.skip(i as int).drop_first() =~= s@.skip(i + 1));
        i += 1;
    }
    assert(s@.skip(i as int) =~= s@.subrange(i as int, s@.len() as int));
    slice_range(s, i, s.len())
}

/// `s` trimmed of trailing copies of `c`.
pub fn trim_end_char_exec(s: &[char], c: char) -> (r: Vec<char>)
    ensures
        r@ == trim_end_char(s@, c),
{
    let mut j: usize = s.len();
    assert(s@.take(s@.len() as int) =~= s@);
    while j > 0 && s[j - 1] == c
        invariant
            j <= s@.len(),
            trim_end_char(s@, c) == trim_end_char(s@.take(j as int), c),
        decreases j,
    {
        assert(s@.take(j as int).drop_last() =~= s@.take(j - 1));
        j -= 1;
    }
    assert(s@.take(s@.len() as int) =~= s@);
    assert(s@.take(j as int) =~= s@.subrange(0, j as int));
    slice_range(s, 0, j)
}

/// A copy of `s[from..to]`.
pub fn slice_range(s: &[char], from: usize, to: usize) -> (r: Vec<char>)
    requires
        from <= to <= s@.len(),
    ensures
        r@ == s@.subrange(from as int, to as int),
{
    let mut r: Vec<char> = Vec::new();
    let mut i = from;
    while i < to
        invariant
            from <= i <= to <= s@.len(),
            r@ == s@.subrange(from as int, i as int),
        decreases to - i,
    {
        r.push(s[i]);
        i += 1;
        assert(r@ =~= s@.subrange(from as int, i as int));
    }
    r
}

/// `s` followed by `t`.
pub fn concat_chars(s: &[char], t: &[char]) -> (r: Vec<char>)
    ensures
        r@ == s@ + t@,
{
    let mut r = slice_range(s, 0, s.len());
    let mut i: usize = 0;
    while i < t.len()
        invariant
            i <= t@.len(),
            r@ == s@ + t@.take(i as int),
        decreases t.len() - i,
    {
        r.push(t[i]);
        i += 1;
        assert(r@ =~= s@ + t@.take(i as int));
    }
    assert(s@.subrange(0, s@.len() as int) =~= s@);
    assert(t@.take(t@.len() as int) =~= t@);
    r
}


/// A match in `s.skip(d)` is a match in `s`, `d` further along.
pub proof fn lemma_matches_at_skip(s: Seq<char>, p: Seq<char>, d: int, k: int)
    requires
        0 <= d <= s.len(),
    ensures
        matches_at(s.skip(d), p, k) <==> (0 <= k && matches_at(s, p, k + d)),
{
    if 0 <= k && k + p.len() <= s.len() - d {
        assert(s.skip(d).subrange(k, k + p.len()) =~= s.subrange(k + d, k + d + p.len()));
    }
}

/// Searching from `d` is searching the rest of `s` after `d`.
pub proof fn lemma_find_from_skip(s: Seq<char>, p: Seq<char>, d: int)
    requires
        0 <= d <= s.len(),
    ensures
        match find(s.skip(d), p) {
            Some(k) => find_from(s, p, d) == Some(k + d),
            None => find_from(s, p, d) is None,
        },
{
    lemma_find_from(s, p, d);
    lemma_find_from(s.skip(d), p, 0);
    match find(s.skip(d), p) {
        Some(k) => {
            lemma_matches_at_skip(s, p, d, k);
            match find_from(s, p, d) {
                Some(m) => {
                    lemma_matches_at_skip(s, p, d, m - d);
                    if m < k + d {
                        assert(!matches_at(s.skip(d), p, m - d));
                    }
                    if m > k + d {
                        assert(!matches_at(s, p, k + d));
                    }
                },
                None => {
                    assert(!matches_at(s, p, k + d));
                },
            }
        },
        None => {
            match find_from(s, p, d) {
                Some(m) => {
                    lemma_matches_at_skip(s, p, d, m - d);
                },
                None => {},
            }
        },
    }
}

/// The first match of `p` in `s` leaves room for `p` after it.
pub proof fn lemma_find_bound(s: Seq<char>, p: Seq<char>)
    ensures
        find(s, p) matches Some(k) ==> 0 <= k && k + p.len() <= s.len(),
{
    lemma_find_from(s, p, 0);
}

/// `s` with every non-overlapping occurrence of `from`, left to right, replaced by `to`,
/// as `str::replace` does; an empty `from` leaves `s` as it is.
pub open spec fn replace(s: Seq<char>, from: Seq<char>, to: Seq<char>) -> Seq<char>
    decreases s.len(),
{
    if from.len() == 0 {
        s
    } else {
        match find(s, from) {
            Some(k) => {
                proof {
                    lemma_find_bound(s, from);
                }
                s.take(k) + to + replace(s.skip(k + from.len()), from, to)
            },
            None => s,
        }
    }
}

/// Appends `s[from..to]` to `r`.
pub fn push_range(r: &mut Vec<char>, s: &[char], from: usize, to: usize)
    requires
        from <= to <= s@.len(),
    ensures
        final(r)@ == old(r)@ + s@.subrange(from as int, to as int),
{
    let mut i = from;
    while i < to
        invariant
            from <= i <= to <= s@.len(),
            r@ == old(r)@ + s@.subrange(from as int, i as int),
        decreases to - i,
    {
        r.push(s[i]);
        i += 1;
        assert(r@ =~= old(r)@ + s@.subrange(from as int, i as int));
    }
}

/// Appends all of `t` to `r`.
pub fn push_all(r: &mut Vec<char>, t: &[char])
    ensures
        final(r)@ == old(r)@ + t@,
{
    push_range(r, t, 0, t.len());
    assert(t@.subrange(0, t@.len() as int) =~= t@);
}

/// `s` with every non-overlapping occurrence of `from` replaced by `to`.
pub fn replace_exec(s: &[char], from: &[char], to: &[char]) -> (r: Vec<char>)
    requires
        from@.len() > 0,
    ensures
        r@ == replace(s@, from@, to@),
{
    let mut r: Vec<char> = Vec::new();
    let mut pos: usize = 0;
    assert(s@.skip(0) =~= s@);
    assert(r@ + replace(s@, from@, to@) =~= replace(s@, from@, to@));
    loop
        invariant
            pos <= s@.len(),
            from@.len() > 0,
            r@ + replace(s@.skip(pos as int), from@, to@) == replace(s@, from@, to@),
        decreases s@.len() - pos,
    {
        let found = find_from_exec(s, from, pos);
        proof {
            lemma_find_from_skip(s@, from@, pos as int);
            lemma_find_from(s@, from@, pos as int);
        }
        let ghost rest = s@.skip(pos as int);
        match found {
            Some(k) => {
                assert(matches_at(s@, from@, k as int));
                assert(k + from@.len() <= s@.len());
                assert(find(rest, from@) == Some(k - pos));
                assert(rest.take(k - pos) =~= s@.subrange(pos as int, k as int));
                assert(rest.skip(k - pos + from@.len()) =~= s@.skip(k + from@.len()));
                assert(replace(rest, from@, to@) == s@.subrange(pos as int, k as int) + to@
                    + replace(s@.skip(k + from@.len()), from@, to@));
                let ghost r0 = r@;
                push_range(&mut r, s, pos, k);
                push_all(&mut r, to);
                assert(r@ + replace(s@.skip(k + from@.len()), from@, to@) =~= r0 + replace(
                    rest,
                    from@,
                    to@,
                ));
                let flen = from.len();
                let slen = s.len();
                assert(k + flen <= slen);
                pos = k + flen;
            },
            None => {
                assert(replace(rest, from@, to@) == rest);
                assert(rest =~= s@.subrange(pos as int, s@.len() as int));
                push_range(&mut r, s, pos, s.len());
                return r;
            },
        }
    }
}


/// `c` with ASCII `A`..`Z` mapped to `a`..`z`.
pub open spec fn ascii_lower(c: char) -> char {
    if 'A' <= c && c <= 'Z' {
        (c as int + 32) as char
    } else {
        c
    }
}

/// `s` with ASCII upper case letters lowered, as `str::to_ascii_lowercase` does.
pub open spec fn to_ascii_lowercase(s: Seq<char>) -> Seq<char> {
    s.map_values(|c: char| ascii_lower(c))
}

/// `a` and `b` are equal up to ASCII case, as `str::eq_ignore_ascii_case` decides.
pub open spec fn eq_ignore_ascii_case(a: Seq<char>, b: Seq<char>) -> bool {
    to_ascii_lowercase(a) == to_ascii_lowercase(b)
}

/// `c` lowered if it is an ASCII upper case letter.
pub fn ascii_lower_exec(c: char) -> (r: char)
    ensures
        r == ascii_lower(c),
{
    match c {
        'A' => 'a',
        'B' => 'b',
        'C' => 'c',
        'D' => 'd',
        'E' => 'e',
        'F' => 'f',
        'G' => 'g',
        'H' => 'h',
        'I' => 'i',
        'J' => 'j',
        'K' => 'k',
        'L' => 'l',
        'M' => 'm',
        'N' => 'n',
        'O' => 'o',
        'P' => 'p',
        'Q' => 'q',
        'R' => 'r',
        'S' => 's',
        'T' => 't',
        'U' => 'u',
        'V' => 'v',
        'W' => 'w',
        'X' => 'x',
        'Y' => 'y',
        'Z' => 'z',
        _ => {
            assert(!('A' <= c && c <= 'Z'));
            c
        },
    }
}

/// `s` with ASCII upper case letters lowered.
pub fn to_ascii_lowercase_exec(s: &[char]) -> (r: Vec<char>)
    ensures
        r@ == to_ascii_lowercase(s@),
{
    let mut r: Vec<char> = Vec::new();
    let mut i: usize = 0;
    while i < s.len()
        invariant
            i <= s@.len(),
            r@ == to_ascii_lowercase(s@.take(i as int)),
        decreases s.len() - i,
    {
        r.push(ascii_lower_exec(s[i]));
        i += 1;
        assert(r@ =~= to_ascii_lowercase(s@.take(i as int)));
    }
    assert(s@.take(s@.len() as int) =~= s@);
    r
}

/// Whether `a` and `b` are equal up to ASCII case.
pub fn eq_ignore_ascii_case_exec(a: &[char], b: &[char]) -> (r: bool)
    ensures
        r == eq_ignore_ascii_case(a@, b@),
{
    let x = to_ascii_lowercase_exec(a);
    let y = to_ascii_lowercase_exec(b);
    chars_eq(&x, &y)
}

/// The length of the longest prefix of `s` holding no whitespace.
pub open spec fn word_len(s: Seq<char>) -> nat
    decreases s.len(),
{
    if s.len() == 0 || is_whitespace(s[0]) {
        0
    } else {
        1 + word_len(s.drop_first())
    }
}

/// A word is no longer than the string it starts, and not empty where the string
/// starts with something other than whitespace.
pub proof fn lemma_word_len(s: Seq<char>)
    ensures
        word_len(s) <= s.len(),
        s.len() > 0 && !is_whitespace(s[0]) ==> word_len(s) > 0,
    decreases s.len(),
{
    if s.len() > 0 && !is_whitespace(s[0]) {
        lemma_word_len(s.drop_first());
    }
}

/// The whitespace-separated words of `s`, as `str::split_whitespace` yields them.
pub open spec fn words(s: Seq<char>) -> Seq<Seq<char>>
    decreases s.len(),
{
    let t = trim_start(s);
    if t.len() == 0 {
        Seq::empty()
    } else {
        proof {
            lemma_trim_start_skip(s);
            lemma_word_len(t);
        }
        seq![t.take(word_len(t) as int)] + words(t.skip(word_len(t) as int))
    }
}

/// The pieces of `ws` joined with `sep` between each two.
pub open spec fn join(ws: Seq<Seq<char>>, sep: Seq<char>) -> Seq<char>
    decreases ws.len(),
{
    if ws.len() == 0 {
        Seq::empty()
    } else if ws.len() == 1 {
        ws[0]
    } else {
        ws[0] + sep + join(ws.drop_first(), sep)
    }
}

/// `s` with runs of whitespace collapsed to single spaces and the ends trimmed: its
/// words joined by one space.
pub open spec fn clean(s: Seq<char>) -> Seq<char> {
    join(words(s), seq![' '])
}

/// Index after the word that starts at `from`.
fn word_end(s: &[char], from: usize) -> (r: usize)
    requires
        from <= s@.len(),
    ensures
        from <= r <= s@.len(),
        r - from == word_len(s@.skip(from as int)),
{
    let mut j = from;
    while j < s.len() && !is_whitespace_exec(s[j])
        invariant
            from <= j <= s@.len(),
            word_len(s@.skip(from as int)) == (j - from) + word_len(s@.skip(j as int)),
        decreases s.len() - j,
    {
        assert(s@.skip(j as int).drop_first() =~= s@.skip(j + 1));
        j += 1;
    }
    j
}

/// `s` with whitespace runs collapsed to single spaces and the ends trimmed.
pub fn clean_exec(s: &[char]) -> (r: Vec<char>)
    ensures
        r@ == clean(s@),
{
    let mut r: Vec<char> = Vec::new();
    let mut i: usize = 0;
    let mut first = true;
    assert(s@.skip(0) =~= s@);
    loop
        invariant
            i <= s@.len(),
            first ==> r@.len() == 0 && words(s@) == words(s@.skip(i as int)),
            !first ==> r@ + (if words(s@.skip(i as int)).len() > 0 {
                seq![' '] + join(words(s@.skip(i as int)), seq![' '])
            } else {
                Seq::empty()
            }) == join(words(s@), seq![' ']),
        decreases s@.len() - i,
    {
        let slen = s.len();
        let a = skip_whitespace(s, i, slen);
        proof {
            assert(s@.subrange(i as int, slen as int) =~= s@.skip(i as int));
            assert(s@.subrange(a as int, slen as int) =~= s@.skip(a as int));
            lemma_trim_start_skip(s@.skip(i as int));
        }
        let ghost t = s@.skip(a as int);
        assert(trim_start(s@.skip(i as int)) == t);
        if a == slen {
            assert(words(s@.skip(i as int)).len() == 0);
            proof {
                if first {
                    assert(words(s@).len() == 0);
                    assert(r@ =~= join(words(s@), seq![' ']));
                } else {
                    assert(r@ =~= join(words(s@), seq![' ']));
                }
            }
            return r;
        }
        let b = word_end(s, a);
        proof {
            lemma_word_len(t);
            assert(t.take(word_len(t) as int) =~= s@.subrange(a as int, b as int));
            assert(t.skip(word_len(t) as int) =~= s@.skip(b as int));
        }
        let ghost w = s@.subrange(a as int, b as int);
        let ghost rest = words(s@.skip(b as int));
        assert(words(s@.skip(i as int)) == seq![w] + rest);
        let ghost r0 = r@;
        let ghost was_first = first;
        if !first {
            r.push(' ');
        }
        push_range(&mut r, s, a, b);
        proof {
            let sp = seq![' '];
            let ws = seq![w] + rest;
            assert(ws.drop_first() =~= rest);
            let tail = if rest.len() > 0 {
                sp + join(rest, sp)
            } else {
                Seq::empty()
            };
            if rest.len() > 0 {
                assert(join(ws, sp) == w + sp + join(rest, sp));
            } else {
                assert(join(ws, sp) == w);
            }
            assert(join(ws, sp) =~= w + tail);
            if was_first {
                assert(r@ =~= w);
                assert(r@ + tail =~= join(words(s@), sp));
            } else {
                assert(r@ =~= r0 + sp + w);
                assert(r@ + tail =~= r0 + (sp + join(ws, sp)));
            }
        }
        first = false;
        i = b;
    }
}


/// The full Unicode upper case mapping of `c`, which `char::to_uppercase` yields.
pub uninterp spec fn char_uppercase(c: char) -> Seq<char>;

/// Whether `c` has Unicode's `Alphabetic` property, which `char::is_alphabetic` decides.
pub uninterp spec fn char_alphabetic(c: char) -> bool;

/// Calls `char::to_uppercase` and collects what it yields. The contract only
/// names the result `char_uppercase(c)`: the Unicode case tables are not stated.
#[verifier::external_body]
fn uppercase_of(c: char) -> (r: Vec<char>)
    ensures
        r@ == char_uppercase(c),
{
    c.to_uppercase().collect()
}

/// Calls `char::is_alphabetic`. The contract only names the result
/// `char_alphabetic(c)`: the Unicode property tables are not stated.
#[verifier::external_body]
fn is_alphabetic(c: char) -> (r: bool)
    ensures
        r == char_alphabetic(c),
{
    c.is_alphabetic()
}

/// `s` with the first letter of each space-separated word upper cased, reading from
/// a word start when `capitalize` holds.
pub open spec fn title_case_from(s: Seq<char>, capitalize: bool) -> Seq<char>
    decreases s.len(),
{
    if s.len() == 0 {
        Seq::empty()
    } else if capitalize && char_alphabetic(s[0]) {
        char_uppercase(s[0]) + title_case_from(s.drop_first(), false)
    } else {
        seq![s[0]] + title_case_from(s.drop_first(), s[0] == ' ')
    }
}

/// `value` with underscores read as spaces and the first letter after the start
/// or a space upper cased.
pub open spec fn title_case(value: Seq<char>) -> Seq<char> {
    title_case_from(replace(value, seq!['_'], seq![' ']), true)
}

/// `value` in title case.
pub fn title_case_exec(value: &[char]) -> (r: Vec<char>)
    ensures
        r@ == title_case(value@),
{
    let underscore = vec!['_'];
    let space = vec![' '];
    let s = replace_exec(value, underscore.as_slice(), space.as_slice());
    assert(underscore@ =~= seq!['_'] && space@ =~= seq![' ']);
    let mut r: Vec<char> = Vec::new();
    let mut capitalize = true;
    let mut i: usize = 0;
    assert(s@.skip(0) =~= s@);
    while i < s.len()
        invariant
            i <= s@.len(),
            r@ + title_case_from(s@.skip(i as int), capitalize) == title_case_from(s@, true),
        decreases s.len() - i,
    {
        let c = s[i];
        assert(s@.skip(i as int).drop_first() =~= s@.skip(i + 1));
        let ghost r0 = r@;
        let ghost cap0 = capitalize;
        if capitalize && is_alphabetic(c) {
            let up = uppercase_of(c);
            push_all(&mut r, up.as_slice());
            capitalize = false;
        } else {
            r.push(c);
            capitalize = c == ' ';
        }
        i += 1;
        assert(r@ + title_case_from(s@.skip(i as int), capitalize) =~= r0 + title_case_from(
            s@.skip(i - 1),
            cap0,
        ));
    }
    assert(s@.skip(s@.len() as int) =~= Seq::<char>::empty());
    assert(r@ =~= title_case_from(s@, true));
    r
}


/// A string with the characters of `v`.
pub fn string_from(v: &Vec<char>) -> (r: String)
    ensures
        r@ == v@,
{
    string_all(v.as_slice())
}

/// Whether `list` holds a string equal to `s`.
pub fn list_contains(list: &[String], s: &[char]) -> (r: bool)
    ensures
        r == list.deep_view().contains(s@),
{
    let mut i: usize = 0;
    while i < list.len()
        invariant
            i <= list@.len(),
            forall|j: int| 0 <= j < i ==> list.deep_view()[j] != s@,
        decreases list.len() - i,
    {
        let item = chars_of(list[i].as_str());
        if chars_eq(&item, s) {
            assert(list.deep_view()[i as int] == s@);
            return true;
        }
        i += 1;
    }
    proof {
        if list.deep_view().contains(s@) {
            let j = choose|j: int| 0 <= j < list.deep_view().len() && list.deep_view()[j] == s@;
            assert(false);
        }
    }
    false
}

/// The position of the first string of `list` equal to `s`.
pub open spec fn position_of(list: Seq<Seq<char>>, s: Seq<char>) -> Option<int>
    decreases list.len(),
{
    if list.len() == 0 {
        None
    } else if list[0] == s {
        Some(0)
    } else {
        match position_of(list.drop_first(), s) {
            Some(p) => Some(p + 1),
            None => None,
        }
    }
}

/// What `position_of` returns is the first position holding `s`.
pub proof fn lemma_position_of(list: Seq<Seq<char>>, s: Seq<char>)
    ensures
        match position_of(list, s) {
            Some(p) => 0 <= p < list.len() && list[p] == s && forall|j: int|
                0 <= j < p ==> list[j] != s,
            None => !list.contains(s),
        },
    decreases list.len(),
{
    if list.len() > 0 && list[0] != s {
        let rest = list.drop_first();
        lemma_position_of(rest, s);
        if list.contains(s) {
            let j = choose|j: int| 0 <= j < list.len() && list[j] == s;
            assert(rest[j - 1] == s);
        }
        if let Some(p) = position_of(rest, s) {
            assert forall|j: int| 0 <= j < p + 1 implies list[j] != s by {
                if j > 0 {
                    assert(list[j] == rest[j - 1]);
                }
            }
        }
    }
}

/// The position of the first string of `list` equal to `s`.
pub fn position_in(list: &[String], s: &[char]) -> (r: Option<usize>)
    ensures
        match r {
            Some(p) => position_of(list.deep_view(), s@) == Some(p as int),
            None => position_of(list.deep_view(), s@) is None,
        },
{
    let ghost l = list.deep_view();
    let mut i: usize = 0;
    assert(l.skip(0) =~= l);
    while i < list.len()
        invariant
            i <= l.len(),
            l == list.deep_view(),
            l.len() == list@.len(),
            position_of(l, s@) == match position_of(l.skip(i as int), s@) {
                Some(p) => Some(p + i),
                None => None::<int>,
            },
        decreases list.len() - i,
    {
        let item = chars_of(list[i].as_str());
        assert(l.skip(i as int)[0] == l[i as int]);
        assert(l.skip(i as int).drop_first() =~= l.skip(i + 1));
        if chars_eq(&item, s) {
            return Some(i);
        }
        i += 1;
    }
    assert(l.skip(i as int).len() == 0);
    None
}


/// Appends `x` to a list of strings.
pub fn push_string(out: &mut Vec<String>, x: String)
    ensures
        final(out).deep_view() == old(out).deep_view().push(x@),
        final(out)@.len() == old(out)@.len() + 1,
{
    out.push(x);
    assert(out.deep_view() =~= old(out).deep_view().push(x@));
}

/// A string made of `a` followed by `b`.
pub fn concat_str(a: &str, b: &str) -> (r: String)
    ensures
        r@ == a@ + b@,
{
    let mut r = String::from_str(a);
    r.append(b);
    r
}

/// A string made of `a`, `b` and `c` in turn.
pub fn concat3(a: &str, b: &str, c: &str) -> (r: String)
    ensures
        r@ == a@ + b@ + c@,
{
    let mut r = String::from_str(a);
    r.append(b);
    r.append(c);
    r
}

/// Whether `s` is one of the strings `lits` lists.
pub fn one_of(s: &[char], lits: &[&str]) -> (r: bool)
    ensures
        r == exists|i: int| 0 <= i < lits@.len() && lits@[i]@ == s@,
{
    let mut i: usize = 0;
    while i < lits.len()
        invariant
            i <= lits@.len(),
            forall|j: int| 0 <= j < i ==> lits@[j]@ != s@,
        decreases lits.len() - i,
    {
        let l = chars_of(lits[i]);
        if chars_eq(&l, s) {
            return true;
        }
        i += 1;
    }
    false
}


/// What comes before and after the first `p` in `s`.
pub fn split_once_exec(s: &[char], p: &[char]) -> (r: Option<(Vec<char>, Vec<char>)>)
    ensures
        match r {
            Some(parts) => split_once(s@, p@) == Some((parts.0@, parts.1@)),
            None => split_once(s@, p@) is None,
        },
{
    let slen = s.len();
    let plen = p.len();
    match find_from_exec(s, p, 0) {
        Some(k) => {
            proof {
                lemma_find_from(s@, p@, 0);
            }
            assert(k + plen <= slen);
            let a = slice_range(s, 0, k);
            let b = slice_range(s, k + plen, slen);
            assert(a@ =~= s@.take(k as int));
            assert(b@ =~= s@.skip(k + p@.len()));
            Some((a, b))
        },
        None => None,
    }
}

/// What comes before and after the last `p` in `s`.
pub fn rsplit_once_exec(s: &[char], p: &[char]) -> (r: Option<(Vec<char>, Vec<char>)>)
    ensures
        match r {
            Some(parts) => rsplit_once(s@, p@) == Some((parts.0@, parts.1@)),
            None => rsplit_once(s@, p@) is None,
        },
{
    let slen = s.len();
    let plen = p.len();
    match rfind_exec(s, p) {
        Some(k) => {
            proof {
                lemma_rfind_upto(s@, p@, s@.len() - p@.len());
            }
            assert(k + plen <= slen);
            let a = slice_range(s, 0, k);
            let b = slice_range(s, k + plen, slen);
            assert(a@ =~= s@.take(k as int));
            assert(b@ =~= s@.skip(k + p@.len()));
            Some((a, b))
        },
        None => None,
    }
}

/// The characters an optional vector holds.
pub open spec fn opt_chars(o: Option<Vec<char>>) -> Option<Seq<char>> {
    match o {
        Some(v) => Some(v@),
        None => None,
    }
}

/// The characters an optional string slice holds.
pub open spec fn opt_str(o: Option<&str>) -> Option<Seq<char>> {
    match o {
        Some(s) => Some(s@),
        None => None,
    }
}

/// `s` without the prefix `p`, if it has it.
pub fn strip_prefix_exec(s: &[char], p: &[char]) -> (r: Option<Vec<char>>)
    ensures
        opt_chars(r) == strip_prefix(s@, p@),
{
    if starts_with(s, p) {
        let r = slice_range(s, p.len(), s.len());
        assert(r@ =~= s@.skip(p@.len() as int));
        Some(r)
    } else {
        None
    }
}

/// `s` without the suffix `p`, if it has it.
pub fn strip_suffix_exec(s: &[char], p: &[char]) -> (r: Option<Vec<char>>)
    ensures
        opt_chars(r) == strip_suffix(s@, p@),
{
    if ends_with(s, p) {
        let r = slice_range(s, 0, s.len() - p.len());
        assert(r@ =~= s@.take(s@.len() - p@.len()));
        Some(r)
    } else {
        None
    }
}


/// A copy of an optional string.
pub fn clone_opt_string(o: &Option<String>) -> (r: Option<String>)
    ensures
        r == *o,
{
    match o {
        Some(s) => Some(s.clone()),
        None => None,
    }
}

/// A copy of a list of strings.
pub fn clone_strings(s: &[String]) -> (r: Vec<String>)
    ensures
        r.deep_view() == s.deep_view(),
{
    let mut r: Vec<String> = Vec::new();
    let mut i: usize = 0;
    while i < s.len()
        invariant
            i <= s@.len(),
            r.deep_view() == s.deep_view().take(i as int),
        decreases s.len() - i,
    {
        push_string(&mut r, s[i].clone());
        i += 1;
        assert(r.deep_view() =~= s.deep_view().take(i as int));
    }
    assert(s.deep_view().take(s@.len() as int) =~= s.deep_view());
    r
}

/// A copy of an optional list of strings.
pub fn clone_opt_strings(o: &Option<Vec<String>>) -> (r: Option<Vec<String>>)
    ensures
        r.deep_view() == o.deep_view(),
{
    match o {
        Some(v) => Some(clone_strings(v.as_slice())),
        None => None,
    }
}


/// The strings an optional list holds, or none.
pub open spec fn opt_list(o: Option<Vec<String>>) -> Seq<Seq<char>> {
    match o {
        Some(v) => v.deep_view(),
        None => Seq::empty(),
    }
}

/// Appends the strings of `b` to `a`.
pub fn append_strings(a: &mut Vec<String>, b: Vec<String>)
    ensures
        final(a).deep_view() == old(a).deep_view() + b.deep_view(),
{
    let mut b = b;
    let ghost bv = b.deep_view();
    a.append(&mut b);
    assert(a.deep_view() =~= old(a).deep_view() + bv);
}

/// The strings an optional list holds, as a list.
pub fn list_or_empty(o: Option<Vec<String>>) -> (r: Vec<String>)
    ensures
        r.deep_view() == opt_list(o),
{
    match o {
        Some(v) => v,
        None => {
            let r: Vec<String> = Vec::new();
            assert(r.deep_view() =~= Seq::<Seq<char>>::empty());
            r
        },
    }
}

/// Whether `s` contains `p`.
pub fn str_contains(s: &str, p: &str) -> (r: bool)
    ensures
        r == contains(s@, p@),
{
    let a = chars_of(s);
    let b = chars_of(p);
    contains_exec(&a, &b)
}


/// All of `s` up to the first `p`.
pub fn first_piece_exec(s: &[char], p: &[char]) -> (r: Vec<char>)
    ensures
        r@ == first_piece(s@, p@),
{
    match split_once_exec(s, p) {
        Some((a, _)) => a,
        None => {
            let r = slice_range(s, 0, s.len());
            assert(r@ =~= s@);
            r
        },
    }
}

/// The piece after the first `p`, up to the next one, if `s` holds a `p`.
pub fn second_piece_exec(s: &[char], p: &[char]) -> (r: Option<Vec<char>>)
    ensures
        opt_chars(r) == second_piece(s@, p@),
{
    match split_once_exec(s, p) {
        Some((_, b)) => Some(first_piece_exec(&b, p)),
        None => None,
    }
}

/// All of `s` after the last `p`.
pub fn last_piece_exec(s: &[char], p: &[char]) -> (r: Vec<char>)
    ensures
        r@ == last_piece(s@, p@),
{
    match rsplit_once_exec(s, p) {
        Some((_, b)) => b,
        None => {
            let r = slice_range(s, 0, s.len());
            assert(r@ =~= s@);
            r
        },
    }
}

/// Joining one more piece adds the separator and the piece to the end.
pub proof fn lemma_join_push(ws: Seq<Seq<char>>, w: Seq<char>, sep: Seq<char>)
    ensures
        join(ws.push(w), sep) == if ws.len() == 0 {
            w
        } else {
            join(ws, sep) + sep + w
        },
    decreases ws.len(),
{
    let all = ws.push(w);
    if ws.len() == 0 {
        assert(all[0] == w);
    } else if ws.len() == 1 {
        assert(all.drop_first() =~= seq![w]);
        assert(join(seq![w], sep) == w);
        assert(all[0] == ws[0]);
        assert(join(ws, sep) == ws[0]);
    } else if ws.len() > 1 {
        assert(all.drop_first() =~= ws.drop_first().push(w));
        lemma_join_push(ws.drop_first(), w, sep);
        assert(join(ws.drop_first().push(w), sep) == join(ws.drop_first(), sep) + sep + w);
        assert(all[0] == ws[0]);
        assert(join(all, sep) == ws[0] + sep + join(ws.drop_first().push(w), sep));
        assert(join(all, sep) =~= ws[0] + sep + join(ws.drop_first(), sep) + sep + w);
    }
}

/// The strings of `parts` joined with `sep` between each two.
pub fn join_strings(parts: &[String], sep: &str) -> (r: String)
    ensures
        r@ == join(parts.deep_view(), sep@),
{
    let ghost pv = parts.deep_view();
    let mut r = String::new();
    let mut i: usize = 0;
    while i < parts.len()
        invariant
            i <= parts@.len(),
            pv == parts.deep_view(),
            r@ == join(pv.take(i as int), sep@),
        decreases parts.len() - i,
    {
        proof {
            lemma_join_push(pv.take(i as int), pv[i as int], sep@);
            assert(pv.take(i + 1) =~= pv.take(i as int).push(pv[i as int]));
        }
        assert(pv[i as int] == parts@[i as int]@);
        if i > 0 {
            r.append(sep);
        }
        r.append(parts[i].as_str());
        i += 1;
    }
    assert(pv.take(parts@.len() as int) =~= pv);
    r
}

/// `c` is none of the characters of `s`.
pub open spec fn lacks(s: Seq<char>, c: char) -> bool {
    forall|i: int| 0 <= i < s.len() ==> s[i] != c
}

/// A character a string lacks is not found in it.
pub proof fn lemma_find_absent(s: Seq<char>, c: char)
    requires
        lacks(s, c),
    ensures
        find(s, seq![c]) is None,
{
    lemma_find_from(s, seq![c], 0);
    if let Some(k) = find(s, seq![c]) {
        assert(s.subrange(k, k + 1)[0] == s[k]);
    }
}

/// Splitting at a character the first part lacks splits right after that part.
pub proof fn lemma_split_once_char(a: Seq<char>, c: char, b: Seq<char>)
    requires
        lacks(a, c),
    ensures
        split_once(a + seq![c] + b, seq![c]) == Some((a, b)),
{
    let s = a + seq![c] + b;
    lemma_find_from(s, seq![c], 0);
    assert(s.subrange(a.len() as int, a.len() + 1 as int) =~= seq![c]);
    assert(matches_at(s, seq![c], a.len() as int));
    if let Some(k) = find(s, seq![c]) {
        if k < a.len() {
            assert(s.subrange(k, k + 1)[0] == a[k]);
        }
        assert(k == a.len());
    }
    assert(s.take(a.len() as int) =~= a);
    assert(s.skip(a.len() + 1 as int) =~= b);
}

/// What comes before the first `c` lacks it.
pub proof fn lemma_split_once_head(s: Seq<char>, c: char)
    ensures
        split_once(s, seq![c]) matches Some((a, _)) ==> lacks(a, c),
{
    lemma_find_from(s, seq![c], 0);
    if let Some(k) = find(s, seq![c]) {
        assert forall|i: int| 0 <= i < s.take(k).len() implies s.take(k)[i] != c by {
            assert(!matches_at(s, seq![c], i));
            if s.take(k)[i] == c {
                assert(s.subrange(i, i + 1) =~= seq![c]);
            }
        }
    }
}

/// A string that lacks `c` cannot be split at it.
pub proof fn lemma_split_once_none(s: Seq<char>, c: char)
    requires
        lacks(s, c),
    ensures
        split_once(s, seq![c]) is None,
{
    lemma_find_absent(s, c);
}

/// A string with no split at `c` lacks it.
pub proof fn lemma_split_once_none_lacks(s: Seq<char>, c: char)
    requires
        split_once(s, seq![c]) is None,
    ensures
        lacks(s, c),
{
    lemma_find_from(s, seq![c], 0);
    assert forall|i: int| 0 <= i < s.len() implies s[i] != c by {
        assert(!matches_at(s, seq![c], i));
        if s[i] == c {
            assert(s.subrange(i, i + 1) =~= seq![c]);
        }
    }
}

/// A string without whitespace is its own trim.
pub proof fn lemma_trim_plain(s: Seq<char>)
    requires
        forall|i: int| 0 <= i < s.len() ==> !is_whitespace(#[trigger] s[i]),
    ensures
        trim(s) == s,
{
    assert(trim_start(s) == s);
    assert(trim_end(s) == s);
}

/// A string that lacks the character `from` has nothing to replace.
pub proof fn lemma_replace_absent(s: Seq<char>, from: char, to: Seq<char>)
    requires
        lacks(s, from),
    ensures
        replace(s, seq![from], to) == s,
{
    lemma_find_absent(s, from);
}

} // verus!
