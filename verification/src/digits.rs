//! Decimal digits: spec-level views of numbers as character sequences,
//! executable rendering of integers to text, and single-digit parsing.

use vstd::prelude::*;

verus! {

/// Whether `c` is an ASCII decimal digit.
pub open spec fn is_digit(c: char) -> bool {
    48 <= c as int <= 57
}

/// The numeric value of a digit character.
pub open spec fn digit_val(c: char) -> int {
    c as int - 48
}

/// The digit character for a value 0..=9.
pub open spec fn char_of_digit(d: int) -> char {
    if d == 0 {
        '0'
    } else if d == 1 {
        '1'
    } else if d == 2 {
        '2'
    } else if d == 3 {
        '3'
    } else if d == 4 {
        '4'
    } else if d == 5 {
        '5'
    } else if d == 6 {
        '6'
    } else if d == 7 {
        '7'
    } else if d == 8 {
        '8'
    } else {
        '9'
    }
}

/// The plain decimal rendering of a nonnegative number, most significant
/// digit first, with no padding (a single `0` for zero).
pub open spec fn dec_digits(n: int) -> Seq<char>
    recommends
        n >= 0,
    decreases n,
{
    if n < 10 {
        seq![char_of_digit(n)]
    } else {
        dec_digits(n / 10) + seq![char_of_digit(n % 10)]
    }
}

/// The decimal rendering of a possibly negative number, as `{}` prints it.
pub open spec fn dec_int(n: int) -> Seq<char> {
    if n < 0 {
        seq!['-'] + dec_digits(-n)
    } else {
        dec_digits(n)
    }
}

/// The decimal rendering padded to width two, as `{:02}` prints a
/// nonnegative number.
pub open spec fn pad2(n: int) -> Seq<char> {
    if n < 10 {
        seq!['0'] + dec_digits(n)
    } else {
        dec_digits(n)
    }
}

/// Whether every character of `s` is a decimal digit.
pub open spec fn all_digits(s: Seq<char>) -> bool {
    forall|i: int| 0 <= i < s.len() ==> is_digit(#[trigger] s[i])
}

/// The number a digit sequence denotes, most significant digit first.
pub open spec fn digits_val(s: Seq<char>) -> int
    decreases s.len(),
{
    if s.len() == 0 {
        0
    } else {
        digits_val(s.drop_last()) * 10 + digit_val(s.last())
    }
}

/// The value of a one-digit sequence.
pub proof fn lemma_digits_val_1(t: Seq<char>)
    requires
        t.len() == 1,
    ensures
        digits_val(t) == digit_val(t[0]),
{
    assert(digits_val(t.drop_last()) == 0);
}

/// The value of a two-digit sequence.
pub proof fn lemma_digits_val_2(t: Seq<char>)
    requires
        t.len() == 2,
    ensures
        digits_val(t) == digit_val(t[0]) * 10 + digit_val(t[1]),
{
    lemma_digits_val_1(t.drop_last());
}

/// The value of a three-digit sequence.
pub proof fn lemma_digits_val_3(t: Seq<char>)
    requires
        t.len() == 3,
    ensures
        digits_val(t) == (digit_val(t[0]) * 10 + digit_val(t[1])) * 10 + digit_val(t[2]),
{
    lemma_digits_val_2(t.drop_last());
}

/// The value of a four-digit sequence.
pub proof fn lemma_digits_val_4(t: Seq<char>)
    requires
        t.len() == 4,
    ensures
        digits_val(t) == ((digit_val(t[0]) * 10 + digit_val(t[1])) * 10 + digit_val(t[2])) * 10
            + digit_val(t[3]),
{
    lemma_digits_val_3(t.drop_last());
}

/// The digit character of a digit value is the inverse of reading it.
pub proof fn lemma_digit_char_inverse(k: int)
    requires
        0 <= k <= 9,
    ensures
        is_digit(char_of_digit(k)),
        digit_val(char_of_digit(k)) == k,
{
}

/// Reading a digit character and rendering it again gives the character.
pub proof fn lemma_char_digit_inverse(c: char)
    requires
        is_digit(c),
    ensures
        char_of_digit(digit_val(c)) == c,
{
    assert(char_of_digit(digit_val(c)) as int == c as int);
}

/// A two-digit rendering spelt out digit by digit.
pub proof fn lemma_dec_digits_2(n: int)
    requires
        10 <= n <= 99,
    ensures
        dec_digits(n) =~= seq![char_of_digit(n / 10), char_of_digit(n % 10)],
{
    assert(1 <= n / 10 <= 9);
    assert(dec_digits(n / 10) == seq![char_of_digit(n / 10)]);
}

/// A four-digit rendering spelt out digit by digit.
pub proof fn lemma_dec_digits_4(n: int)
    requires
        1000 <= n <= 9999,
    ensures
        dec_digits(n) =~= seq![
            char_of_digit(n / 1000),
            char_of_digit(n / 100 % 10),
            char_of_digit(n / 10 % 10),
            char_of_digit(n % 10),
        ],
{
    let q1 = n / 10;
    assert(100 <= q1 <= 999);
    assert(dec_digits(n) == dec_digits(q1) + seq![char_of_digit(n % 10)]);
    let q2 = q1 / 10;
    assert(10 <= q2 <= 99);
    assert(dec_digits(q1) == dec_digits(q2) + seq![char_of_digit(q1 % 10)]);
    lemma_dec_digits_2(q2);
    vstd::arithmetic::div_mod::lemma_div_denominator(n, 10, 10);
    vstd::arithmetic::div_mod::lemma_div_denominator(n, 100, 10);
    assert(q2 == n / 100);
    assert(q2 / 10 == n / 1000);
}

/// One digit as a borrowed string.
pub(crate) fn digit_str(d: u32) -> (r: &'static str)
    requires
        d < 10,
    ensures
        r@ =~= seq![char_of_digit(d as int)],
{
    let r: &'static str = if d == 0 {
        "0"
    } else if d == 1 {
        "1"
    } else if d == 2 {
        "2"
    } else if d == 3 {
        "3"
    } else if d == 4 {
        "4"
    } else if d == 5 {
        "5"
    } else if d == 6 {
        "6"
    } else if d == 7 {
        "7"
    } else if d == 8 {
        "8"
    } else {
        "9"
    };
    proof {
        reveal_strlit("0");
        reveal_strlit("1");
        reveal_strlit("2");
        reveal_strlit("3");
        reveal_strlit("4");
        reveal_strlit("5");
        reveal_strlit("6");
        reveal_strlit("7");
        reveal_strlit("8");
        reveal_strlit("9");
    }
    r
}

/// Renders a nonnegative number in plain decimal.
pub fn u32_dec(n: u32) -> (r: String)
    ensures
        r@ == dec_digits(n as int),
    decreases n,
{
    if n < 10 {
        digit_str(n).to_owned()
    } else {
        let hi = u32_dec(n / 10);
        let lo = digit_str(n % 10);
        let r = hi.concat(lo);
        proof {
            assert(r@ == dec_digits(n as int / 10) + seq![char_of_digit(n as int % 10)]);
        }
        r
    }
}

/// Renders a number in plain decimal with a leading minus sign when negative,
/// as `{}` prints it.
pub fn i32_dec(n: i32) -> (r: String)
    ensures
        r@ == dec_int(n as int),
{
    if n >= 0 {
        u32_dec(n as u32)
    } else {
        let mag: u32 = (-(n as i64)) as u32;
        let r = "-".to_owned().concat(u32_dec(mag).as_str());
        proof {
            reveal_strlit("-");
            assert(r@ =~= seq!['-'] + dec_digits(mag as int));
        }
        r
    }
}

/// Renders a nonnegative number zero-padded to width two, as `{:02}` does.
pub fn u32_pad2(n: u32) -> (r: String)
    ensures
        r@ == pad2(n as int),
{
    if n < 10 {
        let r = "0".to_owned().concat(digit_str(n));
        proof {
            reveal_strlit("0");
            assert(r@ =~= seq!['0'] + dec_digits(n as int));
        }
        r
    } else {
        u32_dec(n)
    }
}

/// Parses two characters as a two-digit number.
pub fn parse_2digits(a: char, b: char) -> (r: Option<u32>)
    ensures
        r is Some <==> is_digit(a) && is_digit(b),
        r matches Some(v) ==> v as int == digit_val(a) * 10 + digit_val(b) && v <= 99,
{
    match (parse_digit(a), parse_digit(b)) {
        (Some(x), Some(y)) => Some(x * 10 + y),
        _ => None,
    }
}

/// Parses three characters as a three-digit number.
pub fn parse_3digits(a: char, b: char, c: char) -> (r: Option<u32>)
    ensures
        r is Some <==> is_digit(a) && is_digit(b) && is_digit(c),
        r matches Some(v) ==> v as int == (digit_val(a) * 10 + digit_val(b)) * 10 + digit_val(c)
            && v <= 999,
{
    match (parse_2digits(a, b), parse_digit(c)) {
        (Some(x), Some(y)) => Some(x * 10 + y),
        _ => None,
    }
}

/// Parses four characters as a four-digit number.
pub fn parse_4digits(a: char, b: char, c: char, d: char) -> (r: Option<u32>)
    ensures
        r is Some <==> is_digit(a) && is_digit(b) && is_digit(c) && is_digit(d),
        r matches Some(v) ==> v as int == ((digit_val(a) * 10 + digit_val(b)) * 10 + digit_val(c))
            * 10 + digit_val(d) && v <= 9999,
{
    match (parse_3digits(a, b, c), parse_digit(d)) {
        (Some(x), Some(y)) => Some(x * 10 + y),
        _ => None,
    }
}

/// Parses one character as a decimal digit.
pub fn parse_digit(c: char) -> (r: Option<u32>)
    ensures
        r is Some <==> is_digit(c),
        r matches Some(d) ==> d == digit_val(c) && d <= 9,
{
    let u = c as u32;
    if 48 <= u && u <= 57 {
        Some(u - 48)
    } else {
        None
    }
}

} // verus!
