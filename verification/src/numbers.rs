//! Decimal integers: how `format!` writes them and how `str::parse` reads them.
use vstd::prelude::*;

verus! {

/// `c` is an ASCII digit.
pub open spec fn is_digit(c: char) -> bool {
    48 <= c as int <= 57
}

/// The ASCII digit for `d`, for `0 <= d < 10`.
pub open spec fn digit_char(d: int) -> char {
    (d + 48) as char
}

/// The value of the ASCII digit `c`.
pub open spec fn digit_value(c: char) -> int {
    c as int - 48
}

/// Every character of `s` is an ASCII digit.
pub open spec fn all_digits(s: Seq<char>) -> bool {
    forall|i: int| 0 <= i < s.len() ==> is_digit(#[trigger] s[i])
}

/// The value of a string of decimal digits, most significant first.
pub open spec fn digits_value(s: Seq<char>) -> int
    decreases s.len(),
{
    if s.len() == 0 {
        0
    } else {
        digits_value(s.drop_last()) * 10 + digit_value(s.last())
    }
}

/// The decimal digits of `n`, without leading zeros.
pub open spec fn nat_decimal(n: nat) -> Seq<char>
    decreases n,
{
    if n < 10 {
        seq![digit_char(n as int)]
    } else {
        nat_decimal(n / 10).push(digit_char((n % 10) as int))
    }
}

/// `n` written in decimal, as `format!("{n}")` writes an integer.
pub open spec fn decimal(n: int) -> Seq<char> {
    if n < 0 {
        seq!['-'].add(nat_decimal((-n) as nat))
    } else {
        nat_decimal(n as nat)
    }
}

/// The digits after an optional leading sign, and whether the sign was `-`.
pub open spec fn sign_split(s: Seq<char>) -> (bool, Seq<char>) {
    if s.len() > 0 && s[0] == '-' {
        (true, s.drop_first())
    } else if s.len() > 0 && s[0] == '+' {
        (false, s.drop_first())
    } else {
        (false, s)
    }
}

/// The integer `s` spells, as `str::parse` reads a signed integer: an optional `+`
/// or `-`, then one or more ASCII digits, and nothing else.
pub open spec fn parse_int(s: Seq<char>) -> Option<int> {
    let body = sign_split(s).1;
    if body.len() > 0 && all_digits(body) {
        Some(
            if sign_split(s).0 {
                -digits_value(body)
            } else {
                digits_value(body)
            },
        )
    } else {
        None
    }
}

/// `s.parse::<i64>()`: the integer `s` spells, when it fits in an `i64`.
pub open spec fn parse_i64(s: Seq<char>) -> Option<i64> {
    match parse_int(s) {
        Some(v) => if i64::MIN <= v <= i64::MAX {
            Some(v as i64)
        } else {
            None
        },
        None => None,
    }
}

/// `s.parse::<i32>()`: the integer `s` spells, when it fits in an `i32`.
pub open spec fn parse_i32(s: Seq<char>) -> Option<i32> {
    match parse_int(s) {
        Some(v) => if i32::MIN <= v <= i32::MAX {
            Some(v as i32)
        } else {
            None
        },
        None => None,
    }
}

/// The digit written for `d` is a digit and reads back as `d`.
proof fn lemma_digit_roundtrip(d: int)
    requires
        0 <= d < 10,
    ensures
        is_digit(digit_char(d)),
        digit_value(digit_char(d)) == d,
{
}

/// Decimal digits are digits, and read back as the number they were written from.
pub proof fn lemma_nat_decimal(n: nat)
    ensures
        nat_decimal(n).len() > 0,
        all_digits(nat_decimal(n)),
        digits_value(nat_decimal(n)) == n,
    decreases n,
{
    if n < 10 {
        lemma_digit_roundtrip(n as int);
        assert(nat_decimal(n).drop_last() =~= Seq::<char>::empty());
        assert(digits_value(Seq::<char>::empty()) == 0);
    } else {
        lemma_nat_decimal(n / 10);
        lemma_digit_roundtrip((n % 10) as int);
        assert(n == (n / 10) * 10 + n % 10) by (nonlinear_arith);
        assert(nat_decimal(n).drop_last() =~= nat_decimal(n / 10));
    }
}

/// Reading a number back from its decimal form gives the number.
pub proof fn lemma_parse_decimal(n: int)
    ensures
        parse_int(decimal(n)) == Some(n),
{
    if n < 0 {
        lemma_nat_decimal((-n) as nat);
        assert((seq!['-'].add(nat_decimal((-n) as nat))).drop_first() =~= nat_decimal(
            (-n) as nat,
        ));
    } else {
        lemma_nat_decimal(n as nat);
        lemma_digit_roundtrip(0);
        let s = nat_decimal(n as nat);
        assert(is_digit(s[0]));
    }
}

/// A longer run of digits is worth at least as much as its prefix.
proof fn lemma_digits_value_monotone(s: Seq<char>, k: int)
    requires
        0 <= k <= s.len(),
        all_digits(s),
    ensures
        0 <= digits_value(s.take(k)) <= digits_value(s),
    decreases s.len(),
{
    if k == s.len() {
        assert(s.take(k) =~= s);
        lemma_digits_value_nonneg(s);
    } else {
        assert(s.drop_last().take(k) =~= s.take(k));
        lemma_digits_value_monotone(s.drop_last(), k);
        assert(is_digit(s[s.len() - 1]));
    }
}

proof fn lemma_digits_value_nonneg(s: Seq<char>)
    requires
        all_digits(s),
    ensures
        digits_value(s) >= 0,
    decreases s.len(),
{
    if s.len() > 0 {
        lemma_digits_value_nonneg(s.drop_last());
        assert(is_digit(s[s.len() - 1]));
    }
}

/// The value of `c` if it is an ASCII digit.
fn digit_of(c: char) -> (r: Option<u32>)
    ensures
        match r {
            Some(d) => is_digit(c) && d == digit_value(c) && d < 10,
            None => !is_digit(c),
        },
{
    match c {
        '0' => Some(0),
        '1' => Some(1),
        '2' => Some(2),
        '3' => Some(3),
        '4' => Some(4),
        '5' => Some(5),
        '6' => Some(6),
        '7' => Some(7),
        '8' => Some(8),
        '9' => Some(9),
        _ => None,
    }
}

/// The ASCII digit for `d`.
fn digit_exec(d: u64) -> (c: char)
    requires
        d < 10,
    ensures
        c == digit_char(d as int),
{
    ((d as u8) + 48u8) as char
}

/// Appends the decimal digits of `n` to `r`.
fn push_nat_decimal(r: &mut Vec<char>, n: u64)
    ensures
        final(r)@ == old(r)@ + nat_decimal(n as nat),
    decreases n,
{
    if n >= 10 {
        push_nat_decimal(r, n / 10);
    }
    r.push(digit_exec(n % 10));
    proof {
        if n < 10 {
            assert(final(r)@ =~= old(r)@ + nat_decimal(n as nat));
        } else {
            assert(final(r)@ =~= old(r)@ + nat_decimal(n as nat));
        }
    }
}

/// `n` in decimal.
pub fn decimal_exec(n: i64) -> (r: Vec<char>)
    ensures
        r@ == decimal(n as int),
{
    let mut r: Vec<char> = Vec::new();
    if n < 0 {
        r.push('-');
        let m: u64 = ((-(n as i128)) as u64);
        push_nat_decimal(&mut r, m);
        assert(r@ =~= decimal(n as int));
    } else {
        push_nat_decimal(&mut r, n as u64);
        assert(r@ =~= decimal(n as int));
    }
    r
}

/// `s.parse::<i64>()`.
pub fn parse_i64_exec(s: &[char]) -> (r: Option<i64>)
    ensures
        r == parse_i64(s@),
{
    let n = s.len();
    let mut start: usize = 0;
    let mut negative = false;
    if n > 0 && s[0] == '-' {
        negative = true;
        start = 1;
        assert(s@.skip(1) =~= s@.drop_first());
    } else if n > 0 && s[0] == '+' {
        start = 1;
        assert(s@.skip(1) =~= s@.drop_first());
    } else {
        assert(s@.skip(0) =~= s@);
    }
    let ghost body = s@.skip(start as int);
    assert(body == sign_split(s@).1 && negative == sign_split(s@).0);
    if start == n {
        return None;
    }
    let limit: u128 = 0x1_0000_0000_0000_0000;
    let mut acc: u128 = 0;
    let mut i = start;
    while i < n
        invariant
            n == s@.len(),
            start <= i <= n,
            body == s@.skip(start as int),
            body == sign_split(s@).1,
            negative == sign_split(s@).0,
            all_digits(body.take(i - start)),
            acc as int == digits_value(body.take(i - start)),
            acc <= limit,
            limit == 0x1_0000_0000_0000_0000u128,
        decreases n - i,
    {
        let c = s[i];
        let d = match digit_of(c) {
            Some(d) => d,
            None => {
                assert(body[i - start] == c);
                assert(!is_digit(body[i - start]));
                assert(!all_digits(body));
                assert(parse_int(s@) is None);
                return None;
            },
        };
        acc = acc * 10 + d as u128;
        i += 1;
        assert(body.take(i - start).drop_last() =~= body.take(i - 1 - start));
        assert(all_digits(body.take(i - start)));
        assert(body.take(i - start).last() == c);
        assert(acc as int == digits_value(body.take(i - start)));
        if acc > limit {
            proof {
                if all_digits(body) {
                    lemma_digits_value_monotone(body, i - start);
                }
            }
            return None;
        }
    }
    assert(body.take(n - start) =~= body);
    if negative {
        if acc > 0x8000_0000_0000_0000 {
            return None;
        }
        if acc == 0x8000_0000_0000_0000 {
            return Some(i64::MIN);
        }
        Some(-(acc as i64))
    } else {
        if acc > 0x7fff_ffff_ffff_ffff {
            return None;
        }
        Some(acc as i64)
    }
}

/// `s.parse::<i32>()`.
pub fn parse_i32_exec(s: &[char]) -> (r: Option<i32>)
    ensures
        r == parse_i32(s@),
{
    match parse_i64_exec(s) {
        Some(v) => if i32::MIN as i64 <= v && v <= i32::MAX as i64 {
            Some(v as i32)
        } else {
            None
        },
        None => None,
    }
}

/// Each character of a decimal form is a digit, but for the minus sign that leads
/// the form of a negative number.
pub proof fn lemma_decimal_chars(n: int)
    ensures
        forall|i: int|
            0 <= i < decimal(n).len() ==> is_digit(#[trigger] decimal(n)[i]) || (i == 0 && n < 0
                && decimal(n)[i] == '-'),
        n >= 0 ==> all_digits(decimal(n)),
{
    if n < 0 {
        lemma_nat_decimal((-n) as nat);
        let d = nat_decimal((-n) as nat);
        assert forall|i: int| 0 <= i < decimal(n).len() implies is_digit(#[trigger] decimal(n)[i])
            || (i == 0 && n < 0 && decimal(n)[i] == '-') by {
            if i > 0 {
                assert(decimal(n)[i] == d[i - 1]);
            }
        }
    } else {
        lemma_nat_decimal(n as nat);
    }
}

/// An `i64` read back from its decimal form is itself.
pub proof fn lemma_parse_i64_decimal(n: i64)
    ensures
        parse_i64(decimal(n as int)) == Some(n),
{
    lemma_parse_decimal(n as int);
}

/// An `i32` read back from its decimal form is itself.
pub proof fn lemma_parse_i32_decimal(n: i32)
    ensures
        parse_i32(decimal(n as int)) == Some(n),
{
    lemma_parse_decimal(n as int);
}

} // verus!
