//! Segment durations: decimal numbers of seconds, held as whole microseconds.

use crate::text::{find_char, first_index_of};
use vstd::prelude::*;

verus! {

/// Microseconds in one second.
pub const MICROS_PER_SECOND: u64 = 1_000_000;

/// Whether `c` is one of the digits `0` to `9`.
pub open spec fn is_digit(c: char) -> bool {
    0x30 <= c as u32 <= 0x39
}

/// The number that the digit `c` stands for.
pub open spec fn digit_value(c: char) -> nat {
    (c as u32 - 0x30) as nat
}

/// Whether `s` holds digits only.
pub open spec fn all_digits(s: Seq<char>) -> bool {
    forall|i: int| 0 <= i < s.len() ==> is_digit(#[trigger] s[i])
}

/// The number that the digit string `s` writes; 0 for the empty string.
pub open spec fn digits_value(s: Seq<char>) -> nat
    decreases s.len(),
{
    if s.len() == 0 {
        0
    } else {
        digits_value(s.drop_last()) * 10 + digit_value(s.last())
    }
}

/// The value of the digits `s` that follow a decimal point, in units of which
/// the first digit counts `unit`, the second a tenth of that, and so on;
/// digits that count less than one unit are cut off.
pub open spec fn fraction_value(s: Seq<char>, unit: nat) -> nat
    decreases s.len(),
{
    if s.len() == 0 || unit == 0 {
        0
    } else {
        digit_value(s[0]) * unit + fraction_value(s.skip(1), unit / 10)
    }
}

/// The digits before the decimal point of `s`: all of `s` where it has none.
pub open spec fn whole_part(s: Seq<char>) -> Seq<char> {
    match first_index_of(s, '.') {
        Some(i) => s.subrange(0, i),
        None => s,
    }
}

/// The digits after the first decimal point of `s`.
pub open spec fn fraction_part(s: Seq<char>) -> Seq<char> {
    match first_index_of(s, '.') {
        Some(i) => s.skip(i + 1),
        None => Seq::<char>::empty(),
    }
}

/// Whether `s` writes a decimal number: digits, then possibly a point and
/// more digits, with at least one digit in all.
pub open spec fn is_decimal(s: Seq<char>) -> bool {
    &&& all_digits(whole_part(s))
    &&& all_digits(fraction_part(s))
    &&& whole_part(s).len() + fraction_part(s).len() > 0
}

/// The decimal number `s` in millionths, cut off after the sixth digit that
/// follows the point.
pub open spec fn decimal_micros(s: Seq<char>) -> nat {
    digits_value(whole_part(s)) * 1_000_000 + fraction_value(fraction_part(s), 100_000)
}

/// The duration that the text `s` gives, in microseconds: none where `s` is
/// no decimal number or the number does not fit.
pub open spec fn duration_micros(s: Seq<char>) -> Option<u64> {
    if is_decimal(s) && decimal_micros(s) <= u64::MAX {
        Some(decimal_micros(s) as u64)
    } else {
        None
    }
}

/// A digit string writes at least what any of its prefixes writes.
pub proof fn lemma_digits_value_prefix(s: Seq<char>, k: int)
    requires
        0 <= k <= s.len(),
    ensures
        digits_value(s.subrange(0, k)) <= digits_value(s),
    decreases s.len(),
{
    if k == s.len() {
        assert(s.subrange(0, k) == s);
    } else {
        lemma_digits_value_prefix(s.drop_last(), k);
        assert(s.drop_last().subrange(0, k) == s.subrange(0, k));
    }
}

/// The digits after the point are worth less than ten of the first digit's
/// units.
pub proof fn lemma_fraction_value_bound(s: Seq<char>, unit: nat)
    requires
        all_digits(s),
    ensures
        fraction_value(s, unit) + 1 <= 10 * unit || unit == 0 && fraction_value(s, unit) == 0,
    decreases s.len(),
{
    if s.len() > 0 && unit > 0 {
        let tail = s.skip(1);
        assert(forall|j: int| 0 <= j < tail.len() ==> tail[j] == s[j + 1]);
        lemma_fraction_value_bound(tail, unit / 10);
        assert(is_digit(s[0]));
        assert(digit_value(s[0]) * unit <= 9 * unit) by (nonlinear_arith)
            requires
                digit_value(s[0]) <= 9,
        ;
    }
}

/// The number that the digit `c` stands for.
fn digit_of(c: char) -> (r: Option<u64>)
    ensures
        match r {
            Some(d) => is_digit(c) && d == digit_value(c) && d <= 9,
            None => !is_digit(c),
        },
{
    let n: u32 = c as u32;
    if 0x30 <= n && n <= 0x39 {
        Some((n - 0x30) as u64)
    } else {
        None
    }
}

/// The number written by the digits `s[from..to]`: none where a character
/// there is no digit or the number does not fit.
fn parse_digits(s: &Vec<char>, from: usize, to: usize) -> (r: Option<u64>)
    requires
        from <= to <= s.len(),
    ensures
        match r {
            Some(n) => all_digits(s@.subrange(from as int, to as int)) && n == digits_value(
                s@.subrange(from as int, to as int),
            ),
            None => !all_digits(s@.subrange(from as int, to as int)) || digits_value(
                s@.subrange(from as int, to as int),
            ) > u64::MAX,
        },
{
    let ghost all = s@.subrange(from as int, to as int);
    let mut acc: u64 = 0;
    let mut i: usize = from;
    while i < to
        invariant
            from <= i <= to <= s.len(),
            all == s@.subrange(from as int, to as int),
            all_digits(s@.subrange(from as int, i as int)),
            acc == digits_value(s@.subrange(from as int, i as int)),
        decreases to - i,
    {
        let ghost head = s@.subrange(from as int, i as int);
        let ghost next = s@.subrange(from as int, i + 1);
        proof {
            assert(next.drop_last() == head);
            assert(next.last() == s@[i as int]);
            assert(next == all.subrange(0, i + 1 - from));
            lemma_digits_value_prefix(all, i + 1 - from);
        }
        let d = match digit_of(s[i]) {
            Some(d) => d,
            None => {
                assert(all[i - from] == s@[i as int]);
                return None;
            },
        };
        let tens = match acc.checked_mul(10) {
            Some(t) => t,
            None => {
                return None;
            },
        };
        acc = match tens.checked_add(d) {
            Some(a) => a,
            None => {
                return None;
            },
        };
        proof {
            assert forall|j: int| 0 <= j < next.len() implies is_digit(#[trigger] next[j]) by {
                if j < head.len() {
                    assert(next[j] == head[j]);
                }
            }
        }
        i += 1;
    }
    Some(acc)
}

/// The value in microseconds of the digits `s[from..]` that follow a decimal
/// point: none where a character there is no digit.
fn parse_fraction(s: &Vec<char>, from: usize) -> (r: Option<u64>)
    requires
        from <= s.len(),
    ensures
        match r {
            Some(n) => all_digits(s@.skip(from as int)) && n == fraction_value(
                s@.skip(from as int),
                100_000,
            ) && n < 1_000_000,
            None => !all_digits(s@.skip(from as int)),
        },
{
    let ghost all = s@.skip(from as int);
    let mut acc: u64 = 0;
    let mut unit: u64 = 100_000;
    let mut i: usize = from;
    while i < s.len()
        invariant
            from <= i <= s.len(),
            all == s@.skip(from as int),
            forall|j: int| from <= j < i ==> is_digit(#[trigger] s@[j]),
            unit <= 100_000,
            acc + 10 * unit <= 1_000_000,
            acc + fraction_value(s@.skip(i as int), unit as nat) == fraction_value(all, 100_000),
        decreases s.len() - i,
    {
        let d = match digit_of(s[i]) {
            Some(d) => d,
            None => {
                assert(all[i - from] == s@[i as int]);
                return None;
            },
        };
        proof {
            assert(s@.skip(i as int).skip(1) == s@.skip(i + 1));
            assert(d * unit <= 9 * unit) by (nonlinear_arith)
                requires
                    d <= 9,
            ;
        }
        acc = acc + d * unit;
        unit = unit / 10;
        i += 1;
    }
    proof {
        assert(s@.skip(s.len() as int).len() == 0);
        assert forall|j: int| 0 <= j < all.len() implies is_digit(#[trigger] all[j]) by {
            assert(all[j] == s@[j + from]);
        }
        lemma_fraction_value_bound(all, 100_000);
    }
    Some(acc)
}

/// Reads a duration in seconds, written as a decimal number, and gives it in
/// microseconds. Digits after the sixth that follows the point are cut off.
pub fn parse_duration(s: &Vec<char>) -> (r: Option<u64>)
    ensures
        r == duration_micros(s@),
{
    let (whole_end, fraction_start) = match find_char(s, '.') {
        Some(i) => (i, i + 1),
        None => (s.len(), s.len()),
    };
    proof {
        assert(s@.subrange(0, s.len() as int) == s@);
        assert(s@.skip(s.len() as int) == Seq::<char>::empty());
        assert(whole_part(s@) == s@.subrange(0, whole_end as int));
        assert(fraction_part(s@) == s@.skip(fraction_start as int));
    }
    if whole_end == 0 && fraction_start == s.len() {
        return None;
    }
    let whole = match parse_digits(s, 0, whole_end) {
        Some(n) => n,
        None => {
            proof {
                let w = digits_value(whole_part(s@));
                assert(w > u64::MAX ==> w * 1_000_000 > u64::MAX) by (nonlinear_arith);
            }
            return None;
        },
    };
    let fraction = match parse_fraction(s, fraction_start) {
        Some(n) => n,
        None => {
            return None;
        },
    };
    let scaled = match whole.checked_mul(MICROS_PER_SECOND) {
        Some(n) => n,
        None => {
            return None;
        },
    };
    scaled.checked_add(fraction)
}

} // verus!
