//! Milliday and microday text: the strict grammar of a decimal number
//! followed by a unit suffix, and rounding of seconds to whole millidays.

use vstd::prelude::*;
use vstd::string::{StrSliceExecFns, StringExecFns};
use crate::digits::is_digit;
use vstd::arithmetic::div_mod::lemma_fundamental_div_mod;

verus! {

/// Whether position `p` splits `b` into digits, a dot, and one or more
/// digits.
pub open spec fn dot_split(b: Seq<char>, p: int) -> bool {
    &&& 0 <= p < b.len() - 1
    &&& b[p] == '.'
    &&& forall|j: int| 0 <= j < p ==> is_digit(#[trigger] b[j])
    &&& forall|j: int| p < j < b.len() ==> is_digit(#[trigger] b[j])
}

/// Whether `b` is a decimal number body: digits alone (possibly none), or
/// digits, a dot and at least one further digit.
pub open spec fn decimal_text(b: Seq<char>) -> bool {
    ||| forall|j: int| 0 <= j < b.len() ==> is_digit(#[trigger] b[j])
    ||| exists|p: int| #[trigger] dot_split(b, p)
}

/// The index of the first character of `s` in `[from, to)` that is not a
/// digit, or `to` when all are digits.
fn first_non_digit(s: &str, from: usize, to: usize) -> (r: usize)
    requires
        from <= to,
        to as int <= s@.len(),
    ensures
        from <= r <= to,
        forall|j: int| from <= j < r ==> is_digit(#[trigger] s@[j]),
        r < to ==> !is_digit(s@[r as int]),
{
    let mut i = from;
    while i < to
        invariant
            from <= i <= to,
            to as int <= s@.len(),
            forall|j: int| from <= j < i ==> is_digit(#[trigger] s@[j]),
        decreases to - i,
    {
        let c = s.get_char(i);
        let u = c as u32;
        if u < 48 || u > 57 {
            return i;
        }
        i += 1;
    }
    i
}

/// Whether the first `m` characters of `s` form a decimal number body.
fn decimal_text_check(s: &str, m: usize) -> (r: bool)
    requires
        m as int <= s@.len(),
    ensures
        r == decimal_text(s@.subrange(0, m as int)),
{
    let ghost b = s@.subrange(0, m as int);
    let i = first_non_digit(s, 0, m);
    if i == m {
        proof {
            assert(forall|j: int| 0 <= j < b.len() ==> is_digit(#[trigger] b[j]));
        }
        return true;
    }
    let c = s.get_char(i);
    if c != '.' {
        proof {
            assert(!is_digit(b[i as int]));
            assert(b[i as int] != '.');
            assert forall|p: int| !(#[trigger] dot_split(b, p)) by {
                if dot_split(b, p) {
                    if p < i as int {
                        assert(is_digit(b[p]));
                        assert(b[p] == '.');
                    } else if p > i as int {
                        assert(is_digit(b[i as int]));
                    }
                }
            }
        }
        return false;
    }
    if i + 1 >= m {
        // the dot is last: no digit can follow it
        proof {
            assert(!is_digit(b[i as int]));
            assert forall|p: int| !(#[trigger] dot_split(b, p)) by {
                if dot_split(b, p) {
                    if p < i as int {
                        assert(is_digit(b[p]));
                        assert(b[p] == '.');
                    } else if p > i as int {
                        assert(is_digit(b[i as int]));
                    }
                }
            }
        }
        return false;
    }
    let j = first_non_digit(s, i + 1, m);
    if j == m {
        proof {
            assert(dot_split(b, i as int));
        }
        return true;
    }
    proof {
        assert(!is_digit(b[i as int]));
        assert(!is_digit(b[j as int]));
        assert forall|p: int| !(#[trigger] dot_split(b, p)) by {
            if dot_split(b, p) {
                if p < i as int {
                    assert(is_digit(b[p]));
                    assert(b[p] == '.');
                } else if p > i as int {
                    assert(is_digit(b[i as int]));
                } else {
                    assert(is_digit(b[j as int]));
                }
            }
        }
    }
    false
}

/// Whether `s` is milliday text: a decimal number body followed by `md`.
pub open spec fn milli_text(s: Seq<char>) -> bool {
    &&& s.len() >= 2
    &&& s[s.len() - 2] == 'm'
    &&& s[s.len() - 1] == 'd'
    &&& decimal_text(s.subrange(0, s.len() - 2))
}

/// The Greek small mu that begins the microday unit suffix.
pub open spec fn is_micro_sign(c: char) -> bool {
    c as int == 956
}

/// Whether `s` is microday text: a decimal number body followed by the mu
/// sign and `d`.
pub open spec fn micro_text(s: Seq<char>) -> bool {
    &&& s.len() >= 2
    &&& is_micro_sign(s[s.len() - 2])
    &&& s[s.len() - 1] == 'd'
    &&& decimal_text(s.subrange(0, s.len() - 2))
}

/// The numeric body of milliday text, everything before the `md` suffix;
/// `None` when the text does not match the grammar.  The body may be empty
/// (the suffix alone), which no later numeric parse will accept.
pub fn millis_text_body(s: &str) -> (r: Option<String>)
    ensures
        r is Some <==> milli_text(s@),
        r matches Some(b) ==> b@ == s@.subrange(0, s@.len() - 2),
{
    let n = s.unicode_len();
    if n < 2 {
        return None;
    }
    if s.get_char(n - 2) != 'm' {
        return None;
    }
    if s.get_char(n - 1) != 'd' {
        return None;
    }
    if !decimal_text_check(s, n - 2) {
        return None;
    }
    let b = s.substring_char(0, n - 2);
    Some(b.to_owned())
}

/// The numeric body of microday text, everything before the mu-and-`d`
/// suffix; `None` when the text does not match the grammar.  The body may
/// be empty (the suffix alone).
pub fn micros_text_body(s: &str) -> (r: Option<String>)
    ensures
        r is Some <==> micro_text(s@),
        r matches Some(b) ==> b@ == s@.subrange(0, s@.len() - 2),
{
    let n = s.unicode_len();
    if n < 2 {
        return None;
    }
    let c = s.get_char(n - 2);
    if (c as u32) != 956 {
        return None;
    }
    if s.get_char(n - 1) != 'd' {
        return None;
    }
    if !decimal_text_check(s, n - 2) {
        return None;
    }
    let b = s.substring_char(0, n - 2);
    Some(b.to_owned())
}

/// The count of whole millidays nearest to `s` seconds, halves rounding up.
/// A milliday is a thousandth of a day, 86.4 seconds, so this is `s / 86.4`
/// rounded: the numerator and denominator are scaled by ten to stay whole.
pub open spec fn millis_of_seconds_rounded(s: int) -> int {
    (10 * s + 432) / 864
}

/// Rounds a count of seconds to whole millidays, halves rounding up.
pub fn seconds_to_millis_rounded(seconds: u32) -> (r: u32)
    ensures
        r == millis_of_seconds_rounded(seconds as int),
        864 * r <= 10 * seconds + 432,
        10 * seconds + 432 < 864 * (r + 1),
{
    let q: u64 = (10 * (seconds as u64) + 432) / 864;
    proof {
        lemma_fundamental_div_mod(10 * seconds + 432, 864);
    }
    q as u32
}

} // verus!
