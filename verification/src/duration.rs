//! Duration parser: turns a token such as `"3 days"` or `"2weeks"` into a
//! strictly-positive number of seconds, or fails with a [`ParseError`].
//!
//! The grammar is `<digits><optional single space><unit>`, where the unit is
//! one of the accepted spellings of seconds, minutes, hours, days or weeks
//! (singular, plural, or abbreviated).

use vstd::prelude::*;
use vstd::string::StrSliceExecFns;

verus! {

/// Why a duration token was rejected.
#[derive(Clone, Copy, Debug, PartialEq, Eq, Structural)]
pub enum ParseError {
    /// The token does not begin with a digit.
    MissingMagnitude,
    /// The text after the magnitude is not an accepted unit spelling.
    UnknownUnit,
    /// The magnitude is zero; durations must be strictly positive.
    ZeroMagnitude,
    /// The total number of seconds does not fit in a `u64`.
    Overflow,
}

pub open spec fn is_digit(c: char) -> bool {
    48 <= c as u32 && c as u32 <= 57
}

/// Numeric value of a single digit character.
pub open spec fn digit_value(c: char) -> nat
    recommends
        is_digit(c),
{
    (c as u32 - 48) as nat
}

/// Length of the run of digit characters starting at position `i`.
pub open spec fn digit_run_len(s: Seq<char>, i: int) -> int
    decreases s.len() - i,
{
    if i < 0 || i >= s.len() || !is_digit(s[i]) {
        0
    } else {
        1 + digit_run_len(s, i + 1)
    }
}

/// Value of a sequence of digit characters read in base ten.
pub open spec fn digits_value(s: Seq<char>) -> nat
    decreases s.len(),
{
    if s.len() == 0 {
        0
    } else {
        digits_value(s.drop_last()) * 10 + digit_value(s.last())
    }
}

/// Seconds per unit, by accepted spelling; `None` for an unknown spelling.
pub open spec fn unit_seconds(u: Seq<char>) -> Option<u64> {
    if u == "s"@ || u == "sec"@ || u == "secs"@ || u == "second"@ || u == "seconds"@ {
        Some(1u64)
    } else if u == "m"@ || u == "min"@ || u == "mins"@ || u == "minute"@ || u == "minutes"@ {
        Some(60u64)
    } else if u == "h"@ || u == "hr"@ || u == "hrs"@ || u == "hour"@ || u == "hours"@ {
        Some(3600u64)
    } else if u == "d"@ || u == "day"@ || u == "days"@ {
        Some(86400u64)
    } else if u == "w"@ || u == "week"@ || u == "weeks"@ {
        Some(604800u64)
    } else {
        None
    }
}

/// What parsing a duration token yields: the magnitude times the unit's
/// seconds on success, and otherwise the reason the token is malformed.
pub open spec fn parse_spec(t: Seq<char>) -> Result<u64, ParseError> {
    let d = digit_run_len(t, 0);
    if d == 0 {
        Err(ParseError::MissingMagnitude)
    } else {
        let unit = if d < t.len() && t[d] == ' ' {
            t.subrange(d + 1, t.len() as int)
        } else {
            t.subrange(d, t.len() as int)
        };
        match unit_seconds(unit) {
            None => Err(ParseError::UnknownUnit),
            Some(us) => {
                let n = digits_value(t.subrange(0, d));
                if n == 0 {
                    Err(ParseError::ZeroMagnitude)
                } else if n * us > u64::MAX {
                    Err(ParseError::Overflow)
                } else {
                    Ok((n * us) as u64)
                }
            },
        }
    }
}

/// Character-wise string equality.
pub(crate) fn str_eq(a: &str, b: &str) -> (r: bool)
    ensures
        r == (a@ == b@),
{
    let alen: usize = a.unicode_len();
    let blen: usize = b.unicode_len();
    if alen != blen {
        return false;
    }
    let mut i: usize = 0;
    while i < alen
        invariant
            i <= alen,
            alen == a@.len(),
            blen == b@.len(),
            alen == blen,
            forall|j: int| 0 <= j < i ==> a@[j] == b@[j],
        decreases alen - i,
    {
        if a.get_char(i) != b.get_char(i) {
            return false;
        }
        i += 1;
    }
    proof {
        assert(a@ =~= b@);
    }
    true
}

/// Seconds per unit spelling, executable counterpart of [`unit_seconds`].
fn unit_secs(u: &str) -> (r: Option<u64>)
    ensures
        r == unit_seconds(u@),
{
    if str_eq(u, "s") || str_eq(u, "sec") || str_eq(u, "secs") || str_eq(u, "second")
        || str_eq(u, "seconds") {
        Some(1)
    } else if str_eq(u, "m") || str_eq(u, "min") || str_eq(u, "mins") || str_eq(u, "minute")
        || str_eq(u, "minutes") {
        Some(60)
    } else if str_eq(u, "h") || str_eq(u, "hr") || str_eq(u, "hrs") || str_eq(u, "hour")
        || str_eq(u, "hours") {
        Some(3600)
    } else if str_eq(u, "d") || str_eq(u, "day") || str_eq(u, "days") {
        Some(86400)
    } else if str_eq(u, "w") || str_eq(u, "week") || str_eq(u, "weeks") {
        Some(604800)
    } else {
        None
    }
}

proof fn lemma_digit_run_len_of(s: Seq<char>, from: int, i: int)
    requires
        0 <= from <= i <= s.len(),
        forall|j: int| from <= j < i ==> is_digit(s[j]),
        i == s.len() || !is_digit(s[i]),
    ensures
        digit_run_len(s, from) == i - from,
    decreases i - from,
{
    if from < i {
        lemma_digit_run_len_of(s, from + 1, i);
    }
}

/// Length of the digit run of `s` starting at `from`.
pub(crate) fn digit_run(s: &str, from: usize) -> (n: usize)
    requires
        from <= s@.len(),
    ensures
        n == digit_run_len(s@, from as int),
        from + n <= s@.len(),
        forall|j: int| from <= j < from + n ==> is_digit(s@[j]),
{
    let len: usize = s.unicode_len();
    let mut i: usize = from;
    loop
        invariant
            from <= i <= len,
            len == s@.len(),
            forall|j: int| from <= j < i ==> is_digit(s@[j]),
        ensures
            from <= i <= len,
            forall|j: int| from <= j < i ==> is_digit(s@[j]),
            i == len || !is_digit(s@[i as int]),
        decreases len - i,
    {
        if i >= len {
            break;
        }
        let c = s.get_char(i);
        if !(c as u32 >= 48 && c as u32 <= 57) {
            break;
        }
        i += 1;
    }
    proof {
        lemma_digit_run_len_of(s@, from as int, i as int);
    }
    i - from
}

proof fn lemma_digits_value_step(s: Seq<char>, i: int)
    requires
        0 <= i < s.len(),
    ensures
        digits_value(s.subrange(0, i + 1)) == digits_value(s.subrange(0, i)) * 10 + digit_value(
            s[i],
        ),
{
    assert(s.subrange(0, i + 1).drop_last() =~= s.subrange(0, i));
    assert(s.subrange(0, i + 1).last() == s[i]);
}

proof fn lemma_digits_value_mono(s: Seq<char>, i: int, j: int)
    requires
        0 <= i <= j <= s.len(),
    ensures
        digits_value(s.subrange(0, i)) <= digits_value(s.subrange(0, j)),
    decreases j - i,
{
    if i < j {
        lemma_digits_value_mono(s, i, j - 1);
        lemma_digits_value_step(s, j - 1);
    }
}

/// Base-ten value of the first `d` characters of `s`, which must all be
/// digits; `None` when the value does not fit in a `u64`.
fn parse_magnitude(s: &str, d: usize) -> (r: Option<u64>)
    requires
        d <= s@.len(),
        forall|j: int| 0 <= j < d ==> is_digit(s@[j]),
    ensures
        match r {
            Some(v) => v == digits_value(s@.subrange(0, d as int)),
            None => digits_value(s@.subrange(0, d as int)) > u64::MAX,
        },
{
    let mut acc: u64 = 0;
    let mut i: usize = 0;
    while i < d
        invariant
            i <= d,
            d <= s@.len(),
            forall|j: int| 0 <= j < d ==> is_digit(s@[j]),
            acc == digits_value(s@.subrange(0, i as int)),
        decreases d - i,
    {
        let c = s.get_char(i);
        let cv: u32 = c as u32;
        let dv: u64 = (cv - 48) as u64;
        let shifted = match acc.checked_mul(10) {
            Some(x) => x,
            None => {
                proof {
                    lemma_digits_value_step(s@, i as int);
                    lemma_digits_value_mono(s@, i + 1, d as int);
                }
                return None;
            },
        };
        acc = match shifted.checked_add(dv) {
            Some(x) => x,
            None => {
                proof {
                    lemma_digits_value_step(s@, i as int);
                    lemma_digits_value_mono(s@, i + 1, d as int);
                }
                return None;
            },
        };
        proof {
            lemma_digits_value_step(s@, i as int);
        }
        i += 1;
    }
    Some(acc)
}

/// Parses a duration token of the form `<digits><optional single space><unit>`
/// into a strictly-positive number of seconds.
pub fn parse_duration(text: &str) -> (r: Result<u64, ParseError>)
    ensures
        r == parse_spec(text@),
{
    let len: usize = text.unicode_len();
    let d: usize = digit_run(text, 0);
    if d == 0 {
        return Err(ParseError::MissingMagnitude);
    }
    let unit_start: usize = if d < len && text.get_char(d) == ' ' {
        d + 1
    } else {
        d
    };
    let unit = text.substring_char(unit_start, len);
    let us = match unit_secs(unit) {
        Some(us) => us,
        None => {
            return Err(ParseError::UnknownUnit);
        },
    };
    let n = match parse_magnitude(text, d) {
        Some(n) => n,
        None => {
            proof {
                let nv = digits_value(text@.subrange(0, d as int));
                assert(nv * us >= nv * 1) by (nonlinear_arith)
                    requires
                        us >= 1,
                        nv >= 0,
                ;
            }
            return Err(ParseError::Overflow);
        },
    };
    if n == 0 {
        return Err(ParseError::ZeroMagnitude);
    }
    match n.checked_mul(us) {
        Some(v) => Ok(v),
        None => Err(ParseError::Overflow),
    }
}

} // verus!
