//! Parser for the two human-entered duration formats: decimal hours
//! (`1.5`) and clock form (`2:30`).
use vstd::prelude::*;
use vstd::arithmetic::div_mod::{lemma_div_denominator, lemma_hoist_over_denominator};
use crate::text::to_chars;

verus! {

/// The largest span, in seconds, that a parsed duration may have: the range
/// of a millisecond-precision span held in an `i64`.
pub const MAX_DURATION_SECONDS: u64 = 9_223_372_036_854_775;

pub open spec fn is_digit(c: char) -> bool {
    '0' <= c && c <= '9'
}

pub open spec fn all_digits(s: Seq<char>) -> bool {
    forall|i: int| 0 <= i < s.len() ==> is_digit(#[trigger] s[i])
}

pub open spec fn digit_value(c: char) -> int {
    c as int - '0' as int
}

/// The number that a run of decimal digits denotes.
pub open spec fn digits_value(s: Seq<char>) -> int
    decreases s.len(),
{
    if s.len() == 0 {
        0
    } else {
        digits_value(s.drop_last()) * 10 + digit_value(s.last())
    }
}

pub open spec fn pow10(k: nat) -> int
    decreases k,
{
    if k == 0 {
        1
    } else {
        10 * pow10((k - 1) as nat)
    }
}

/// The number of digits at the front of `s`.
pub open spec fn leading_digits(s: Seq<char>) -> nat
    decreases s.len(),
{
    if s.len() == 0 || !is_digit(s[0]) {
        0
    } else {
        1 + leading_digits(s.drop_first())
    }
}

/// `s` is one or more digits, optionally followed by a dot and one or more digits.
pub open spec fn is_decimal_hours(s: Seq<char>) -> bool {
    let p = leading_digits(s) as int;
    p > 0 && (p == s.len() || (s[p] == '.' && p + 1 < s.len() && all_digits(
        s.subrange(p + 1, s.len() as int),
    )))
}

/// `s` is one or more digits, a colon, and one or more digits.
pub open spec fn is_clock(s: Seq<char>) -> bool {
    let p = leading_digits(s) as int;
    0 < p && p + 1 < s.len() && s[p] == ':' && all_digits(s.subrange(p + 1, s.len() as int))
}

/// Seconds denoted by a decimal count of hours: the decimal value times 3600,
/// truncated toward zero.
pub open spec fn decimal_hours_seconds(s: Seq<char>) -> int {
    let p = leading_digits(s) as int;
    let whole = digits_value(s.subrange(0, p));
    if p == s.len() {
        whole * 3600
    } else {
        let frac = s.subrange(p + 1, s.len() as int);
        let k = frac.len();
        (whole * pow10(k) + digits_value(frac)) * 3600 / pow10(k)
    }
}

/// Seconds denoted by `hours:minutes`; minutes may exceed 59.
pub open spec fn clock_seconds(s: Seq<char>) -> int {
    let p = leading_digits(s) as int;
    digits_value(s.subrange(0, p)) * 3600 + digits_value(s.subrange(p + 1, s.len() as int)) * 60
}

/// The span that `s` denotes, if it is in one of the two formats.
pub open spec fn duration_seconds(s: Seq<char>) -> Option<int> {
    if is_decimal_hours(s) {
        Some(decimal_hours_seconds(s))
    } else if is_clock(s) {
        Some(clock_seconds(s))
    } else {
        None
    }
}

/// What `parse_duration` returns for `s`: the span, where `s` is in one of
/// the formats and the span is within range.
pub open spec fn parse_result(s: Seq<char>) -> Option<i64> {
    match duration_seconds(s) {
        Some(v) => if v <= MAX_DURATION_SECONDS {
            Some(v as i64)
        } else {
            None
        },
        None => None,
    }
}

/// A string of digits followed by `sep` and more: its leading digits are the first part.
proof fn lemma_split_at_separator(w: Seq<char>, sep: char, rest: Seq<char>)
    requires
        w.len() > 0,
        all_digits(w),
        !is_digit(sep),
    ensures
        leading_digits(w + seq![sep] + rest) == w.len(),
        (w + seq![sep] + rest).subrange(0, w.len() as int) =~= w,
        (w + seq![sep] + rest).subrange(w.len() as int + 1, (w + seq![sep] + rest).len() as int)
            =~= rest,
{
    let s = w + seq![sep] + rest;
    assert(s.subrange(0, w.len() as int) =~= w);
    assert(s[w.len() as int] == sep);
    lemma_leading_digits(s, w.len() as int);
}

/// Whole hours: a run of digits `w` denotes `w` times 3600 seconds.
pub proof fn lemma_whole_hours(w: Seq<char>)
    requires
        w.len() > 0,
        all_digits(w),
    ensures
        duration_seconds(w) == Some(digits_value(w) * 3600),
{
    assert(w.subrange(0, w.len() as int) =~= w);
    lemma_leading_digits(w, w.len() as int);
}

/// Decimal hours: `w.f`, with `w` and `f` runs of digits, denotes the
/// decimal value times 3600 seconds, truncated toward zero.
pub proof fn lemma_decimal_hours(w: Seq<char>, f: Seq<char>)
    requires
        w.len() > 0,
        all_digits(w),
        f.len() > 0,
        all_digits(f),
    ensures
        duration_seconds(w + seq!['.'] + f) == Some(
            (digits_value(w) * pow10(f.len()) + digits_value(f)) * 3600 / pow10(f.len()),
        ),
{
    lemma_split_at_separator(w, '.', f);
}

/// Clock form: `h:m`, with `h` and `m` runs of digits, denotes `h` hours
/// and `m` minutes, whatever the size of `m`.
pub proof fn lemma_clock(h: Seq<char>, m: Seq<char>)
    requires
        h.len() > 0,
        all_digits(h),
        m.len() > 0,
        all_digits(m),
    ensures
        duration_seconds(h + seq![':'] + m) == Some(digits_value(h) * 3600 + digits_value(m) * 60),
{
    lemma_split_at_separator(h, ':', m);
}

proof fn lemma_digits_nonneg(s: Seq<char>)
    requires
        all_digits(s),
    ensures
        digits_value(s) >= 0,
    decreases s.len(),
{
    if s.len() > 0 {
        lemma_digits_nonneg(s.drop_last());
    }
}

proof fn lemma_pow10_positive(k: nat)
    ensures
        pow10(k) > 0,
    decreases k,
{
    if k > 0 {
        lemma_pow10_positive((k - 1) as nat);
    }
}

/// Taking more digits never gives a smaller number.
proof fn lemma_digits_prefix_mono(s: Seq<char>, i: int, j: int)
    requires
        all_digits(s),
        0 <= i <= j <= s.len(),
    ensures
        digits_value(s.subrange(0, i)) <= digits_value(s.subrange(0, j)),
    decreases j - i,
{
    if i < j {
        lemma_digits_prefix_mono(s, i, j - 1);
        assert(s.subrange(0, j).drop_last() =~= s.subrange(0, j - 1));
        lemma_digits_nonneg(s.subrange(0, j - 1));
    }
}

/// The value of a run of digits, read from its first digit.
proof fn lemma_digits_cons(s: Seq<char>)
    requires
        s.len() > 0,
    ensures
        digits_value(s) == digit_value(s[0]) * pow10((s.len() - 1) as nat) + digits_value(
            s.drop_first(),
        ),
    decreases s.len(),
{
    if s.len() == 1 {
        assert(s.drop_last() =~= Seq::<char>::empty());
        assert(s.drop_first() =~= Seq::<char>::empty());
    } else {
        let t = s.drop_last();
        lemma_digits_cons(t);
        assert(s.drop_first().drop_last() =~= t.drop_first());
        let a = digit_value(s[0]);
        let p = pow10((t.len() - 1) as nat);
        let b = digits_value(t.drop_first());
        let c = digit_value(s.last());
        assert((a * p + b) * 10 + c == a * (10 * p) + (b * 10 + c)) by (nonlinear_arith);
    }
}

proof fn lemma_leading_digits(s: Seq<char>, i: int)
    requires
        0 <= i <= s.len(),
        all_digits(s.subrange(0, i)),
        i == s.len() || !is_digit(s[i]),
    ensures
        leading_digits(s) == i,
    decreases i,
{
    if i > 0 {
        assert(is_digit(s.subrange(0, i)[0]));
        let t = s.drop_first();
        assert forall|k: int| 0 <= k < i - 1 implies is_digit(#[trigger] t.subrange(0, i - 1)[k]) by {
            assert(s.subrange(0, i)[k + 1] == t.subrange(0, i - 1)[k]);
        }
        lemma_leading_digits(t, i - 1);
    }
}

/// The number of digits at the front of `v`.
fn count_leading_digits(v: &Vec<char>) -> (p: usize)
    ensures
        p == leading_digits(v@),
        p <= v.len(),
{
    let mut i: usize = 0;
    while i < v.len() && '0' <= v[i] && v[i] <= '9'
        invariant
            i <= v.len(),
            all_digits(v@.subrange(0, i as int)),
        decreases v.len() - i,
    {
        assert(v@.subrange(0, i + 1).drop_last() =~= v@.subrange(0, i as int));
        i = i + 1;
    }
    proof {
        lemma_leading_digits(v@, i as int);
    }
    i
}

/// `v[start..end]` holds digits only.
fn digits_only(v: &Vec<char>, start: usize, end: usize) -> (r: bool)
    requires
        start <= end <= v.len(),
    ensures
        r == all_digits(v@.subrange(start as int, end as int)),
{
    let mut i: usize = start;
    while i < end
        invariant
            start <= i <= end <= v.len(),
            all_digits(v@.subrange(start as int, i as int)),
        decreases end - i,
    {
        if !('0' <= v[i] && v[i] <= '9') {
            assert(v@.subrange(start as int, end as int)[i - start] == v[i as int]);
            return false;
        }
        i = i + 1;
    }
    true
}

/// The number that the digits `v[start..end]` denote, where it is at most `cap`.
fn digits_number(v: &Vec<char>, start: usize, end: usize, cap: u64) -> (r: Option<u64>)
    requires
        start <= end <= v.len(),
        all_digits(v@.subrange(start as int, end as int)),
        cap <= 1_000_000_000_000_000_000,
    ensures
        match r {
            Some(n) => n == digits_value(v@.subrange(start as int, end as int)),
            None => digits_value(v@.subrange(start as int, end as int)) > cap,
        },
{
    let ghost t = v@.subrange(start as int, end as int);
    let mut acc: u64 = 0;
    let mut i: usize = start;
    while i < end
        invariant
            start <= i <= end <= v.len(),
            t == v@.subrange(start as int, end as int),
            all_digits(t),
            cap <= 1_000_000_000_000_000_000,
            acc <= cap,
            acc == digits_value(t.subrange(0, i - start)),
        decreases end - i,
    {
        assert(t.subrange(0, i - start + 1).drop_last() =~= t.subrange(0, i - start));
        assert(t[i - start] == v[i as int]);
        let d = (v[i] as u32 - '0' as u32) as u64;
        let next = acc * 10 + d;
        if next > cap {
            proof {
                lemma_digits_prefix_mono(t, i - start + 1, t.len() as int);
                assert(t.subrange(0, t.len() as int) =~= t);
            }
            return None;
        }
        acc = next;
        i = i + 1;
    }
    assert(t.subrange(0, end - start) =~= t);
    Some(acc)
}

/// Seconds in the fraction of an hour written by the digits `v[start..end]`
/// after a decimal point, truncated toward zero.
fn fraction_seconds(v: &Vec<char>, start: usize, end: usize) -> (r: u64)
    requires
        start <= end <= v.len(),
        all_digits(v@.subrange(start as int, end as int)),
    ensures
        r == 3600 * digits_value(v@.subrange(start as int, end as int)) / pow10(
            (end - start) as nat,
        ),
        r < 3600,
{
    let mut carry: u64 = 0;
    let mut i: usize = end;
    assert(v@.subrange(end as int, end as int) =~= Seq::<char>::empty());
    while i > start
        invariant
            start <= i <= end <= v.len(),
            all_digits(v@.subrange(start as int, end as int)),
            carry < 3600,
            carry == 3600 * digits_value(v@.subrange(i as int, end as int)) / pow10(
                (end - i) as nat,
            ),
        decreases i - start,
    {
        let ghost s = v@.subrange(i - 1, end as int);
        let ghost m = (end - i) as nat;
        assert(v@.subrange(start as int, end as int)[i - 1 - start] == v[i - 1]);
        let d = (v[i - 1] as u32 - '0' as u32) as u64;
        proof {
            lemma_digits_cons(s);
            assert(s.drop_first() =~= v@.subrange(i as int, end as int));
            assert(s[0] == v[i - 1]);
            let vv = digits_value(s.drop_first());
            let p = pow10(m);
            lemma_pow10_positive(m);
            assert(all_digits(s.drop_first())) by {
                assert forall|k: int| 0 <= k < s.drop_first().len() implies is_digit(
                    #[trigger] s.drop_first()[k],
                ) by {
                    assert(s.drop_first()[k] == v@.subrange(start as int, end as int)[i - start
                        + k]);
                }
            }
            lemma_digits_nonneg(s.drop_first());
            let dd = d as int;
            lemma_hoist_over_denominator(3600 * vv, 3600 * dd, p as nat);
            assert(3600 * vv + 3600 * dd * p == 3600 * (dd * p + vv)) by (nonlinear_arith);
            assert(3600 * (dd * p + vv) >= 0) by (nonlinear_arith)
                requires
                    dd >= 0,
                    p > 0,
                    vv >= 0,
            ;
            lemma_div_denominator(3600 * (dd * p + vv), p, 10);
            assert(pow10((m + 1) as nat) == 10 * p);
            assert(p * 10 == 10 * p);
        }
        carry = (3600 * d + carry) / 10;
        i = i - 1;
    }
    carry
}

/// Parses a duration typed by a person: decimal hours (`1.5`, whole seconds
/// truncated toward zero) or `hours:minutes` (`2:30`, minutes not limited
/// to 59). Returns the span in seconds, or `None` where the whole string is
/// in neither format or the span is beyond `MAX_DURATION_SECONDS`.
pub fn parse_duration(input: &str) -> (r: Option<i64>)
    ensures
        r == parse_result(input@),
{
    let v = to_chars(input);
    let n = v.len();
    let p = count_leading_digits(&v);
    proof {
        assert forall|k: int| 0 <= k < p implies is_digit(#[trigger] v@.subrange(0, p as int)[k]) by {
            lemma_leading_prefix(v@, k);
        }
    }
    if p == 0 {
        return None;
    }
    if p == n {
        let whole = digits_number(&v, 0, p, MAX_DURATION_SECONDS);
        assert(v@.subrange(0, n as int) =~= v@);
        return match whole {
            Some(h) => if h <= MAX_DURATION_SECONDS / 3600 {
                Some((h * 3600) as i64)
            } else {
                None
            },
            None => None,
        };
    }
    if p + 1 >= n || !digits_only(&v, p + 1, n) {
        return None;
    }
    let sep = v[p];
    if sep == '.' {
        let whole = digits_number(&v, 0, p, MAX_DURATION_SECONDS);
        let frac = fraction_seconds(&v, p + 1, n);
        proof {
            let w = digits_value(v@.subrange(0, p as int));
            let f = digits_value(v@.subrange(p + 1, n as int));
            let k = (n - p - 1) as nat;
            let q = pow10(k);
            lemma_pow10_positive(k);
            lemma_hoist_over_denominator(3600 * f, 3600 * w, q as nat);
            assert((w * q + f) * 3600 == 3600 * f + 3600 * w * q) by (nonlinear_arith);
        }
        match whole {
            Some(h) => if h <= MAX_DURATION_SECONDS / 3600 {
                let total = h * 3600 + frac;
                if total <= MAX_DURATION_SECONDS {
                    Some(total as i64)
                } else {
                    None
                }
            } else {
                None
            },
            None => None,
        }
    } else if sep == ':' {
        let hours = digits_number(&v, 0, p, MAX_DURATION_SECONDS);
        let minutes = digits_number(&v, p + 1, n, MAX_DURATION_SECONDS);
        match (hours, minutes) {
            (Some(h), Some(m)) => if h <= MAX_DURATION_SECONDS / 3600 && m
                <= MAX_DURATION_SECONDS / 60 {
                let total = h * 3600 + m * 60;
                if total <= MAX_DURATION_SECONDS {
                    Some(total as i64)
                } else {
                    None
                }
            } else {
                None
            },
            _ => {
                proof {
                    lemma_digits_nonneg(v@.subrange(0, p as int));
                    lemma_digits_nonneg(v@.subrange(p + 1, n as int));
                }
                None
            },
        }
    } else {
        None
    }
}

proof fn lemma_leading_prefix(s: Seq<char>, k: int)
    requires
        0 <= k < leading_digits(s),
    ensures
        k < s.len(),
        is_digit(s[k]),
    decreases k,
{
    if k > 0 {
        lemma_leading_prefix(s.drop_first(), k - 1);
        assert(s.drop_first()[k - 1] == s[k]);
    }
}

} // verus!
