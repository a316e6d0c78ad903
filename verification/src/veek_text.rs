//! Free functions that render a chrono date as veek-date text and parse
//! veek-date text back into a chrono date.

use vstd::prelude::*;
use vstd::string::StringExecFns;
use crate::calendar::{days_in_year, chrono_year_ordinal, nd_year, nd_ordinal};
use crate::digits::{char_of_digit, dec_int, pad2, i32_dec, u32_pad2, digit_str};
use crate::veek_date::{VeekDate, veek_of_ordinal, day_of_ordinal, veek_text_accepts,
    veek_text_year, veek_text_veek, veek_text_day};

verus! {

/// The veek-date line for year `y` and ordinal day `od`: the year as `{}`
/// prints it, `c `, the veek zero-padded to two digits, `v `, the day digit
/// and `d`.
pub open spec fn veek_line(y: int, od: int) -> Seq<char> {
    dec_int(y) + seq!['c', ' '] + pad2(veek_of_ordinal(od)) + seq!['v', ' ']
        + seq![char_of_digit(day_of_ordinal(od)), 'd']
}

/// Renders the veek-date text for a year and a 1-based ordinal day of that
/// year.
pub fn veek_date_text(year: i32, ordinal_day: u32) -> (r: String)
    requires
        1 <= ordinal_day,
    ensures
        r@ == veek_line(year as int, ordinal_day as int),
{
    let veek = (ordinal_day - 1) / 7 + 1;
    let day = (ordinal_day - 1) % 7 + 1;
    let mut r = i32_dec(year);
    r.append("c ");
    let vv = u32_pad2(veek);
    r.append(vv.as_str());
    r.append("v ");
    r.append(digit_str(day));
    r.append("d");
    proof {
        reveal_strlit("c ");
        reveal_strlit("v ");
        reveal_strlit("d");
        assert(r@ =~= veek_line(year as int, ordinal_day as int));
    }
    r
}

/// Renders a chrono date as veek-date text, from the date's own year and
/// ordinal day.
pub fn naive_date_to_veek_date(nd: chrono::NaiveDate) -> (r: String)
    ensures
        r@ == veek_line(nd_year(nd), nd_ordinal(nd)),
        1 <= nd_ordinal(nd) <= days_in_year(nd_year(nd)),
{
    let (y, od) = chrono_year_ordinal(&nd);
    veek_date_text(y, od)
}

/// Parses veek-date text and returns the calendar date that its ordinal day
/// `(veek - 1) * 7 + day` names; `None` when the text is not an accepted
/// veek-date (twelve characters, digit fields, year 1000..=9999, veek
/// 1..=53, day 1..=7) or the ordinal day does not exist in the year.
pub fn veek_to_naive_date_opt(s: &str) -> (r: Option<chrono::NaiveDate>)
    ensures
        r is Some <==> (veek_text_accepts(s@) && (veek_text_veek(s@) - 1) * 7 + veek_text_day(s@)
            <= days_in_year(veek_text_year(s@))),
        r matches Some(nd) ==> nd_year(nd) == veek_text_year(s@) && nd_ordinal(nd) == (
        veek_text_veek(s@) - 1) * 7 + veek_text_day(s@),
{
    match VeekDate::from_str(s) {
        Some(v) => v.to_naive_date(),
        None => None,
    }
}

} // verus!
