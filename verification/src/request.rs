//! Request matcher: recognizes the "in `<duration>`" phrase inside an inbound
//! message and extracts the duration token.
//!
//! The rule is a fixed textual pattern, constructed explicitly rather than
//! held in process-wide state: the leftmost occurrence of `in ` followed by a
//! run of digits, then either a run of ASCII letters or a single space and a
//! run of ASCII letters. The extracted token is the digits, the optional
//! space, and the letters — exactly what the duration parser accepts.

use vstd::prelude::*;
use vstd::string::StrSliceExecFns;
use crate::duration::{digit_run, digit_run_len, is_digit};

verus! {

pub open spec fn is_letter(c: char) -> bool {
    (65 <= c as u32 && c as u32 <= 90) || (97 <= c as u32 && c as u32 <= 122)
}

/// Length of the run of ASCII letters starting at position `i`.
pub open spec fn letter_run_len(s: Seq<char>, i: int) -> int
    decreases s.len() - i,
{
    if i < 0 || i >= s.len() || !is_letter(s[i]) {
        0
    } else {
        1 + letter_run_len(s, i + 1)
    }
}

/// The request pattern matches at position `i`: `in ` followed by at least
/// one digit, then letters either directly or after a single space.
pub open spec fn match_at(s: Seq<char>, i: int) -> bool {
    &&& 0 <= i
    &&& i + 3 <= s.len()
    &&& s[i] == 'i'
    &&& s[i + 1] == 'n'
    &&& s[i + 2] == ' '
    &&& digit_run_len(s, i + 3) >= 1
    &&& {
        let j = i + 3 + digit_run_len(s, i + 3);
        letter_run_len(s, j) >= 1 || (j < s.len() && s[j] == ' ' && letter_run_len(s, j + 1) >= 1)
    }
}

/// Where the duration token of a match at `i` ends.
pub open spec fn capture_end(s: Seq<char>, i: int) -> int
    recommends
        match_at(s, i),
{
    let j = i + 3 + digit_run_len(s, i + 3);
    if letter_run_len(s, j) >= 1 {
        j + letter_run_len(s, j)
    } else {
        j + 1 + letter_run_len(s, j + 1)
    }
}

/// The duration token of a match at `i`: digits, optional space, letters.
pub open spec fn capture_at(s: Seq<char>, i: int) -> Seq<char>
    recommends
        match_at(s, i),
{
    s.subrange(i + 3, capture_end(s, i))
}

/// The leftmost position at or after `i` where the pattern matches.
pub open spec fn first_match(s: Seq<char>, i: int) -> Option<int>
    decreases s.len() - i,
{
    if i < 0 || i >= s.len() {
        None
    } else if match_at(s, i) {
        Some(i)
    } else {
        first_match(s, i + 1)
    }
}

/// The duration token of the leftmost match, if the message contains one.
pub open spec fn extracted(s: Seq<char>) -> Option<Seq<char>> {
    match first_match(s, 0) {
        None => None,
        Some(i) => Some(capture_at(s, i)),
    }
}

/// Length of the letter run of `s` starting at `from`.
fn letter_run(s: &str, from: usize) -> (n: usize)
    requires
        from <= s@.len(),
    ensures
        n == letter_run_len(s@, from as int),
        from + n <= s@.len(),
{
    let len: usize = s.unicode_len();
    let mut i: usize = from;
    loop
        invariant
            from <= i <= len,
            len == s@.len(),
            forall|j: int| from <= j < i ==> is_letter(s@[j]),
        ensures
            from <= i <= len,
            forall|j: int| from <= j < i ==> is_letter(s@[j]),
            i == len || !is_letter(s@[i as int]),
        decreases len - i,
    {
        if i >= len {
            break;
        }
        let c = s.get_char(i);
        let cv: u32 = c as u32;
        if !((65 <= cv && cv <= 90) || (97 <= cv && cv <= 122)) {
            break;
        }
        i += 1;
    }
    proof {
        lemma_letter_run_len_of(s@, from as int, i as int);
    }
    i - from
}

proof fn lemma_letter_run_len_of(s: Seq<char>, from: int, i: int)
    requires
        0 <= from <= i <= s.len(),
        forall|j: int| from <= j < i ==> is_letter(s[j]),
        i == s.len() || !is_letter(s[i]),
    ensures
        letter_run_len(s, from) == i - from,
    decreases i - from,
{
    if from < i {
        lemma_letter_run_len_of(s, from + 1, i);
    }
}

/// Whether the request pattern matches at position `i`.
fn pattern_match_at(s: &str, i: usize) -> (b: bool)
    requires
        i <= s@.len(),
    ensures
        b == match_at(s@, i as int),
{
    let len: usize = s.unicode_len();
    if len - i < 3 {
        return false;
    }
    if !(s.get_char(i) == 'i' && s.get_char(i + 1) == 'n' && s.get_char(i + 2) == ' ') {
        return false;
    }
    let d: usize = digit_run(s, i + 3);
    if d == 0 {
        return false;
    }
    let j: usize = i + 3 + d;
    let l1: usize = letter_run(s, j);
    if l1 >= 1 {
        return true;
    }
    if j < len && s.get_char(j) == ' ' {
        let l2: usize = letter_run(s, j + 1);
        return l2 >= 1;
    }
    false
}

/// Extracts the duration token from an inbound message's content: the token
/// of the leftmost occurrence of the request pattern, or `None` when the
/// message does not contain one and so is not a reminder request.
pub fn extract_duration_text(content: &str) -> (r: Option<String>)
    ensures
        r is Some <==> extracted(content@) is Some,
        r matches Some(t) ==> t@ == extracted(content@).unwrap(),
{
    let len: usize = content.unicode_len();
    let mut i: usize = 0;
    while i < len
        invariant
            i <= len,
            len == content@.len(),
            first_match(content@, 0) == first_match(content@, i as int),
        decreases len - i,
    {
        if pattern_match_at(content, i) {
            let d: usize = digit_run(content, i + 3);
            let j: usize = i + 3 + d;
            let l1: usize = letter_run(content, j);
            let end: usize = if l1 >= 1 {
                j + l1
            } else {
                j + 1 + letter_run(content, j + 1)
            };
            let cap = content.substring_char(i + 3, end);
            proof {
                assert(first_match(content@, i as int) == Some(i as int));
                assert(end == capture_end(content@, i as int));
            }
            return Some(cap.to_owned());
        }
        i += 1;
    }
    None
}

} // verus!
