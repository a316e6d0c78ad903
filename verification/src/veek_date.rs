//! The `VeekDate` value type: a year, a veek (a seven-day grouping of the
//! year counted from ordinal day 1) and a day position within that veek.

use vstd::prelude::*;
use vstd::string::{StrSliceExecFns, StringExecFns};
use crate::calendar::{valid_ymd, ordinal_of_ymd, days_in_year, lemma_ordinal_in_year,
    chrono_ordinal_from_ymd, chrono_date_from_year_ordinal, chrono_year_ordinal, nd_year,
    nd_ordinal};
use crate::digits::{is_digit, digit_val, char_of_digit, dec_digits, pad2, all_digits, digits_val,
    parse_digit, parse_2digits, parse_4digits, lemma_digits_val_2, lemma_digits_val_4, u32_dec,
    u32_pad2, digit_str, lemma_dec_digits_2, lemma_dec_digits_4, lemma_digit_char_inverse,
    lemma_char_digit_inverse};
use vstd::arithmetic::div_mod::{lemma_fundamental_div_mod, lemma_fundamental_div_mod_converse,
    lemma_div_denominator};

verus! {

/// The veek that ordinal day `od` of a year falls in: days 1..=7 are veek 1,
/// days 8..=14 are veek 2, and so on.
pub open spec fn veek_of_ordinal(od: int) -> int {
    (od - 1) / 7 + 1
}

/// The position of ordinal day `od` within its veek, 1..=7.
pub open spec fn day_of_ordinal(od: int) -> int {
    (od - 1) % 7 + 1
}

/// Whether `s` has the shape of the twelve-character veek-date text:
/// four year digits, `c `, two veek digits, `v `, one day digit and `d`.
pub open spec fn veek_text_parses(s: Seq<char>) -> bool {
    &&& s.len() == 12
    &&& all_digits(s.subrange(0, 4))
    &&& s[4] == 'c'
    &&& s[5] == ' '
    &&& all_digits(s.subrange(6, 8))
    &&& s[8] == 'v'
    &&& s[9] == ' '
    &&& is_digit(s[10])
    &&& s[11] == 'd'
}

/// The year a veek-date text denotes.
pub open spec fn veek_text_year(s: Seq<char>) -> int {
    digits_val(s.subrange(0, 4))
}

/// The veek a veek-date text denotes.
pub open spec fn veek_text_veek(s: Seq<char>) -> int {
    digits_val(s.subrange(6, 8))
}

/// The day a veek-date text denotes.
pub open spec fn veek_text_day(s: Seq<char>) -> int {
    digit_val(s[10])
}

/// Whether a veek-date text is accepted: it parses and its three fields
/// are in range.
pub open spec fn veek_text_accepts(s: Seq<char>) -> bool {
    &&& veek_text_parses(s)
    &&& 1000 <= veek_text_year(s) <= 9999
    &&& 1 <= veek_text_veek(s) <= 53
    &&& 1 <= veek_text_day(s) <= 7
}

/// The canonical text of a veek-date: the year in four digits, `c `, the
/// veek zero-padded to two digits, `v `, the day digit and `d`.
pub open spec fn veek_fmt(y: int, v: int, d: int) -> Seq<char> {
    dec_digits(y) + seq!['c', ' '] + pad2(v) + seq!['v', ' '] + seq![char_of_digit(d), 'd']
}

/// A veek-date: `year` 1000..=9999, `veek` 1..=53, `day` 1..=7.
///
/// The canonical text form is twelve characters, `YYYYc VVv Dd`,
/// for example `2021c 09v 3d`.
pub struct VeekDate {
    year: u32,
    veek: u32,
    day: u32,
}

impl VeekDate {
    /// The year field, as seen by contracts.
    pub closed spec fn spec_year(self) -> u32 {
        self.year
    }

    /// The veek field, as seen by contracts.
    pub closed spec fn spec_veek(self) -> u32 {
        self.veek
    }

    /// The day field, as seen by contracts.
    pub closed spec fn spec_day(self) -> u32 {
        self.day
    }

    /// The ranges every constructed value satisfies.
    pub open spec fn wf(self) -> bool {
        &&& 1000 <= self.spec_year() <= 9999
        &&& 1 <= self.spec_veek() <= 53
        &&& 1 <= self.spec_day() <= 7
    }

    /// Constructor from explicit year, veek and day; `None` when any
    /// field is out of its range.
    pub fn from_yvd(year: u32, veek: u32, day: u32) -> (r: Option<Self>)
        ensures
            r is Some <==> (1000 <= year <= 9999 && 1 <= veek <= 53 && 1 <= day <= 7),
            r matches Some(v) ==> v.wf() && v.spec_year() == year && v.spec_veek() == veek
                && v.spec_day() == day,
    {
        if year < 1000 || year > 9999 || veek < 1 || veek > 53 || day < 1 || day > 7 {
            return None;
        }
        Some(VeekDate { year, veek, day })
    }

    /// Constructor from a year and a 1-based ordinal day of that year;
    /// `None` when the year or the derived veek and day are out of range.
    /// No check is made that the ordinal day exists in the year.
    pub fn from_year_ordinal_day(year: u32, ordinal_day: u32) -> (r: Option<Self>)
        ensures
            r is Some <==> (1000 <= year <= 9999 && 1 <= ordinal_day && veek_of_ordinal(
                ordinal_day as int,
            ) <= 53),
            r matches Some(v) ==> v.wf() && v.spec_year() == year && v.spec_veek()
                == veek_of_ordinal(ordinal_day as int) && v.spec_day() == day_of_ordinal(
                ordinal_day as int,
            ),
    {
        if ordinal_day == 0 {
            // the day position would fall below 1
            return None;
        }
        let veek = (ordinal_day - 1) / 7 + 1;
        let day = (ordinal_day - 1) % 7 + 1;
        Self::from_yvd(year, veek, day)
    }

    /// Constructor from a calendar date held by chrono.  Succeeds exactly
    /// when the date's year is in range; the result then derives from the
    /// date's own year and ordinal day, which that year holds, so converting
    /// it back to a calendar date succeeds.
    pub fn from_naive_date(nd: chrono::NaiveDate) -> (r: Option<Self>)
        ensures
            r is Some <==> 1000 <= nd_year(nd) <= 9999,
            r matches Some(v) ==> v.wf() && v.spec_year() as int == nd_year(nd) && v.spec_veek()
                == veek_of_ordinal(nd_ordinal(nd)) && v.spec_day() == day_of_ordinal(
                nd_ordinal(nd),
            ) && 1 <= nd_ordinal(nd) <= days_in_year(nd_year(nd)),
    {
        let (y, od) = chrono_year_ordinal(&nd);
        if y < 1000 || y > 9999 {
            return None;
        }
        Self::from_year_ordinal_day(y as u32, od)
    }

    /// Constructor from a calendar year, month and day; `None` when the
    /// month and day do not form a date of that year, or the year is out
    /// of range.
    pub fn from_ymd(year: u32, month: u32, day: u32) -> (r: Option<Self>)
        ensures
            r is Some <==> (1000 <= year <= 9999 && valid_ymd(
                year as int,
                month as int,
                day as int,
            )),
            r matches Some(v) ==> v.wf() && v.spec_year() == year && v.spec_veek()
                == veek_of_ordinal(ordinal_of_ymd(year as int, month as int, day as int))
                && v.spec_day() == day_of_ordinal(
                ordinal_of_ymd(year as int, month as int, day as int),
            ),
    {
        if year < 1000 || year > 9999 {
            return None;
        }
        match chrono_ordinal_from_ymd(year, month, day) {
            Some(od) => {
                proof {
                    lemma_ordinal_in_year(year as int, month as int, day as int);
                }
                Self::from_year_ordinal_day(year, od)
            },
            None => None,
        }
    }

    /// Constructor from the twelve-character veek-date text `YYYYc VVv Dd`;
    /// `None` when the text does not have that shape or a field is out of
    /// range.
    pub fn from_str(s: &str) -> (r: Option<Self>)
        ensures
            r is Some <==> veek_text_accepts(s@),
            r matches Some(v) ==> v.wf() && v.spec_year() as int == veek_text_year(s@)
                && v.spec_veek() as int == veek_text_veek(s@) && v.spec_day() as int
                == veek_text_day(s@),
    {
        let n = s.unicode_len();
        if n != 12 {
            return None;
        }
        if s.get_char(4) != 'c' || s.get_char(5) != ' ' {
            return None;
        }
        if s.get_char(8) != 'v' || s.get_char(9) != ' ' {
            return None;
        }
        if s.get_char(11) != 'd' {
            return None;
        }
        let ghost yf = s@.subrange(0, 4);
        let ghost vf = s@.subrange(6, 8);
        let parsed_year = parse_4digits(s.get_char(0), s.get_char(1), s.get_char(2), s.get_char(3));
        proof {
            assert(yf =~= seq![s@[0], s@[1], s@[2], s@[3]]);
            lemma_digits_val_4(yf);
            if parsed_year is Some {
                assert(all_digits(yf));
                assert(parsed_year->0 as int == digits_val(yf));
            } else {
                assert(!all_digits(yf));
            }
        }
        let year = match parsed_year {
            Some(y) => y,
            None => {
                return None;
            },
        };
        let parsed_veek = parse_2digits(s.get_char(6), s.get_char(7));
        proof {
            assert(vf =~= seq![s@[6], s@[7]]);
            lemma_digits_val_2(vf);
            if parsed_veek is Some {
                assert(all_digits(vf));
                assert(parsed_veek->0 as int == digits_val(vf));
            } else {
                assert(!all_digits(vf));
            }
        }
        let veek = match parsed_veek {
            Some(v) => v,
            None => {
                return None;
            },
        };
        let day = match parse_digit(s.get_char(10)) {
            Some(d) => d,
            None => {
                return None;
            },
        };
        Self::from_yvd(year, veek, day)
    }

    /// The calendar date whose ordinal day of year is `(veek - 1) * 7 + day`;
    /// `None` when that ordinal day does not exist in the year.
    pub fn to_naive_date(&self) -> (r: Option<chrono::NaiveDate>)
        requires
            self.wf(),
        ensures
            r is Some <==> (self.spec_veek() - 1) * 7 + self.spec_day() <= days_in_year(
                self.spec_year() as int,
            ),
            r matches Some(nd) ==> nd_year(nd) == self.spec_year() && nd_ordinal(nd) == (
            self.spec_veek() - 1) * 7 + self.spec_day(),
    {
        let od = (self.veek - 1) * 7 + self.day;
        chrono_date_from_year_ordinal(self.year, od)
    }

    /// The canonical twelve-character text of this veek-date,
    /// `YYYYc VVv Dd`.
    pub fn to_string(&self) -> (r: String)
        requires
            self.wf(),
        ensures
            r@ == veek_fmt(
                self.spec_year() as int,
                self.spec_veek() as int,
                self.spec_day() as int,
            ),
            r@.len() == 12,
    {
        let mut r = u32_dec(self.year);
        r.append("c ");
        let vv = u32_pad2(self.veek);
        r.append(vv.as_str());
        r.append("v ");
        r.append(digit_str(self.day));
        r.append("d");
        proof {
            reveal_strlit("c ");
            reveal_strlit("v ");
            reveal_strlit("d");
            lemma_dec_digits_4(self.spec_year() as int);
            if self.spec_veek() >= 10 {
                lemma_dec_digits_2(self.spec_veek() as int);
            }
            assert(r@ =~= veek_fmt(
                self.spec_year() as int,
                self.spec_veek() as int,
                self.spec_day() as int,
            ));
        }
        r
    }

    /// Getter for the year.
    pub fn year(&self) -> (r: u32)
        ensures
            r == self.spec_year(),
    {
        self.year
    }

    /// Getter for the veek.
    pub fn veek(&self) -> (r: u32)
        ensures
            r == self.spec_veek(),
    {
        self.veek
    }

    /// Getter for the day.
    pub fn day(&self) -> (r: u32)
        ensures
            r == self.spec_day(),
    {
        self.day
    }
}

/// Law: a veek-date derived from an ordinal day of a year in range recovers
/// that ordinal day, `(veek - 1) * 7 + day == ordinal`, with the veek and
/// day in range; so converting a calendar date to a veek-date and back
/// yields the same date.
pub proof fn lemma_calendar_round_trip(y: int, od: int)
    requires
        1000 <= y <= 9999,
        1 <= od <= days_in_year(y),
    ensures
        1 <= veek_of_ordinal(od) <= 53,
        1 <= day_of_ordinal(od) <= 7,
        (veek_of_ordinal(od) - 1) * 7 + day_of_ordinal(od) == od,
{
    lemma_fundamental_div_mod(od - 1, 7);
}

proof fn lemma_digits_4_recover(t: Seq<char>)
    requires
        t.len() == 4,
        all_digits(t),
        1000 <= digits_val(t),
    ensures
        digits_val(t) <= 9999,
        dec_digits(digits_val(t)) =~= t,
{
    let a = digit_val(t[0]);
    let b = digit_val(t[1]);
    let c = digit_val(t[2]);
    let d = digit_val(t[3]);
    let y = digits_val(t);
    lemma_digits_val_4(t);
    lemma_fundamental_div_mod_converse(y, 10, (a * 10 + b) * 10 + c, d);
    lemma_fundamental_div_mod_converse((a * 10 + b) * 10 + c, 10, a * 10 + b, c);
    lemma_fundamental_div_mod_converse(a * 10 + b, 10, a, b);
    lemma_div_denominator(y, 10, 10);
    lemma_div_denominator(y, 100, 10);
    assert(y / 100 == a * 10 + b);
    assert(y / 1000 == a);
    lemma_dec_digits_4(y);
    lemma_char_digit_inverse(t[0]);
    lemma_char_digit_inverse(t[1]);
    lemma_char_digit_inverse(t[2]);
    lemma_char_digit_inverse(t[3]);
}

proof fn lemma_digits_2_recover(t: Seq<char>)
    requires
        t.len() == 2,
        all_digits(t),
    ensures
        0 <= digits_val(t) <= 99,
        pad2(digits_val(t)) =~= t,
{
    let a = digit_val(t[0]);
    let b = digit_val(t[1]);
    let v = digits_val(t);
    lemma_digits_val_2(t);
    lemma_char_digit_inverse(t[0]);
    lemma_char_digit_inverse(t[1]);
    if v < 10 {
        assert(a == 0);
        assert(pad2(v) == seq!['0'] + dec_digits(v));
        assert(dec_digits(v) == seq![char_of_digit(v)]);
    } else {
        lemma_dec_digits_2(v);
        lemma_fundamental_div_mod_converse(v, 10, a, b);
    }
}

/// Law: parsing an accepted veek-date text and formatting the parsed value
/// yields the text unchanged.
pub proof fn lemma_text_round_trip(s: Seq<char>)
    requires
        veek_text_accepts(s),
    ensures
        veek_fmt(veek_text_year(s), veek_text_veek(s), veek_text_day(s)) =~= s,
{
    let yf = s.subrange(0, 4);
    let vf = s.subrange(6, 8);
    assert(veek_text_year(s) == digits_val(yf));
    assert(veek_text_veek(s) == digits_val(vf));
    lemma_digits_4_recover(yf);
    lemma_digits_2_recover(vf);
    lemma_char_digit_inverse(s[10]);
    assert(veek_fmt(veek_text_year(s), veek_text_veek(s), veek_text_day(s)) =~= s);
}

/// Law: the canonical text of in-range fields is twelve characters that
/// parse back to the same year, veek and day.
pub proof fn lemma_format_parses(y: int, v: int, d: int)
    requires
        1000 <= y <= 9999,
        1 <= v <= 53,
        1 <= d <= 7,
    ensures
        veek_fmt(y, v, d).len() == 12,
        veek_text_accepts(veek_fmt(y, v, d)),
        veek_text_year(veek_fmt(y, v, d)) == y,
        veek_text_veek(veek_fmt(y, v, d)) == v,
        veek_text_day(veek_fmt(y, v, d)) == d,
{
    let s = veek_fmt(y, v, d);
    lemma_dec_digits_4(y);
    lemma_digit_char_inverse(y / 1000);
    lemma_digit_char_inverse(y / 100 % 10);
    lemma_digit_char_inverse(y / 10 % 10);
    lemma_digit_char_inverse(y % 10);
    lemma_digit_char_inverse(d);
    let yf = s.subrange(0, 4);
    assert(yf =~= dec_digits(y));
    lemma_digits_val_4(yf);
    lemma_fundamental_div_mod(y, 10);
    lemma_fundamental_div_mod(y / 10, 10);
    lemma_fundamental_div_mod(y / 100, 10);
    lemma_div_denominator(y, 10, 10);
    lemma_div_denominator(y, 100, 10);
    assert(digits_val(yf) == y);
    let vf = s.subrange(6, 8);
    if v < 10 {
        assert(vf =~= seq!['0', char_of_digit(v)]);
        lemma_digit_char_inverse(v);
        lemma_digit_char_inverse(0);
        lemma_digits_val_2(vf);
    } else {
        lemma_dec_digits_2(v);
        assert(vf =~= seq![char_of_digit(v / 10), char_of_digit(v % 10)]);
        lemma_digit_char_inverse(v / 10);
        lemma_digit_char_inverse(v % 10);
        lemma_digits_val_2(vf);
        lemma_fundamental_div_mod(v, 10);
    }
    assert(s[10] == char_of_digit(d));
    assert(all_digits(yf));
    assert(all_digits(vf));
}

} // verus!

