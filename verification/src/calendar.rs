//! The proleptic Gregorian calendar: spec-level month lengths and ordinal
//! days, and the trusted calls into chrono that construct and read dates.

use vstd::prelude::*;

verus! {

/// Whether `y` is a leap year of the proleptic Gregorian calendar.
pub open spec fn is_leap_year(y: int) -> bool {
    (y % 4 == 0 && y % 100 != 0) || y % 400 == 0
}

/// The number of days in year `y`.
pub open spec fn days_in_year(y: int) -> int {
    if is_leap_year(y) {
        366
    } else {
        365
    }
}

/// The number of days in month `m` of year `y` (zero outside 1..=12).
pub open spec fn days_in_month(y: int, m: int) -> int {
    if m == 1 {
        31
    } else if m == 2 {
        if is_leap_year(y) {
            29
        } else {
            28
        }
    } else if m == 3 {
        31
    } else if m == 4 {
        30
    } else if m == 5 {
        31
    } else if m == 6 {
        30
    } else if m == 7 {
        31
    } else if m == 8 {
        31
    } else if m == 9 {
        30
    } else if m == 10 {
        31
    } else if m == 11 {
        30
    } else if m == 12 {
        31
    } else {
        0
    }
}

/// Whether `(y, m, d)` is a calendar date.
pub open spec fn valid_ymd(y: int, m: int, d: int) -> bool {
    1 <= m <= 12 && 1 <= d <= days_in_month(y, m)
}

/// The number of days of year `y` that precede month `m`.
pub open spec fn days_before_month(y: int, m: int) -> int
    decreases m,
{
    if m <= 1 {
        0
    } else {
        days_before_month(y, m - 1) + days_in_month(y, m - 1)
    }
}

/// The 1-based ordinal day of year of the date `(y, m, d)`.
pub open spec fn ordinal_of_ymd(y: int, m: int, d: int) -> int {
    days_before_month(y, m) + d
}

proof fn lemma_days_before_month_nonneg(y: int, m: int)
    requires
        m <= 13,
    ensures
        days_before_month(y, m) >= 0,
    decreases m,
{
    if m > 1 {
        lemma_days_before_month_nonneg(y, m - 1);
    }
}

proof fn lemma_days_before_month_upto(y: int, m: int)
    requires
        1 <= m <= 12,
    ensures
        days_before_month(y, m) + days_in_month(y, m) <= days_in_year(y),
    decreases 12 - m,
{
    if m == 12 {
        reveal_with_fuel(days_before_month, 13);
        assert(days_before_month(y, 12) + days_in_month(y, 12) == days_in_year(y));
    } else {
        lemma_days_before_month_upto(y, m + 1);
    }
}

/// The ordinal day of a calendar date lies within its year.
pub proof fn lemma_ordinal_in_year(y: int, m: int, d: int)
    requires
        valid_ymd(y, m, d),
    ensures
        1 <= ordinal_of_ymd(y, m, d) <= days_in_year(y),
{
    lemma_days_before_month_nonneg(y, m);
    lemma_days_before_month_upto(y, m);
}

#[verifier::external_type_specification]
#[verifier::external_body]
pub struct ExNaiveDate(chrono::NaiveDate);

/// The year a chrono date holds, what `chrono::Datelike::year` returns.
pub uninterp spec fn nd_year(nd: chrono::NaiveDate) -> int;

/// The 1-based ordinal day of year a chrono date holds, what
/// `chrono::Datelike::ordinal` returns.
pub uninterp spec fn nd_ordinal(nd: chrono::NaiveDate) -> int;

/// Relies on `chrono::NaiveDate::from_ymd_opt`, which returns `None` exactly
/// on invalid calendar dates (the year range asked of it here is well inside
/// chrono's), and on `chrono::Datelike::ordinal`, the 1-based day of year.
#[verifier::external_body]
pub(crate) fn chrono_ordinal_from_ymd(year: u32, month: u32, day: u32) -> (r: Option<u32>)
    requires
        year <= 9999,
    ensures
        r is Some <==> valid_ymd(year as int, month as int, day as int),
        r matches Some(o) ==> o as int == ordinal_of_ymd(year as int, month as int, day as int),
{
    match chrono::NaiveDate::from_ymd_opt(year as i32, month, day) {
        Some(nd) => Some(chrono::Datelike::ordinal(&nd)),
        None => None,
    }
}

/// Relies on `chrono::NaiveDate::from_yo_opt`, which returns `None` exactly
/// when the ordinal day does not exist in the year (the year range asked of
/// it here is well inside chrono's), and otherwise a date holding that year
/// and that ordinal day.
#[verifier::external_body]
pub(crate) fn chrono_date_from_year_ordinal(year: u32, ordinal: u32) -> (r: Option<
    chrono::NaiveDate,
>)
    requires
        year <= 9999,
    ensures
        r is Some <==> 1 <= ordinal as int <= days_in_year(year as int),
        r matches Some(nd) ==> nd_year(nd) == year as int && nd_ordinal(nd) == ordinal as int,
{
    chrono::NaiveDate::from_yo_opt(year as i32, ordinal)
}

/// Relies on `chrono::Datelike::year` and `chrono::Datelike::ordinal`: they
/// read the date's own year and 1-based ordinal day, and the ordinal never
/// exceeds that year's length.
#[verifier::external_body]
pub(crate) fn chrono_year_ordinal(nd: &chrono::NaiveDate) -> (r: (i32, u32))
    ensures
        r.0 as int == nd_year(*nd),
        r.1 as int == nd_ordinal(*nd),
        1 <= r.1 as int <= days_in_year(r.0 as int),
{
    (chrono::Datelike::year(nd), chrono::Datelike::ordinal(nd))
}

} // verus!
