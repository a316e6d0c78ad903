use chrono::NaiveDate;
use veeks_millis::{
    millis_text_body, micros_text_body, naive_date_to_veek_date, seconds_to_millis_rounded,
    veek_date_text, veek_to_naive_date_opt,
};

#[test]
pub fn veeks_millis_mod_t01_naive_date_to_veek_date() {
    let nd = NaiveDate::from_ymd(2021, 02, 28);
    let veeks = naive_date_to_veek_date(nd);
    assert_eq!(veeks, "2021c 09v 3d");
}

#[test]
pub fn veeks_millis_mod_t02_naive_date_to_veek_date() {
    let nd = NaiveDate::from_ymd(2021, 05, 01);
    let veeks = naive_date_to_veek_date(nd);
    assert_eq!(veeks, "2021c 18v 2d");
}

#[test]
pub fn veeks_millis_mod_t03_naive_date_to_veek_date() {
    let nd = NaiveDate::from_ymd(2021, 12, 25);
    let veeks = naive_date_to_veek_date(nd);
    assert_eq!(veeks, "2021c 52v 2d");
}

#[test]
pub fn veeks_millis_mod_t04_veek_to_naive_date_opt() {
    let nd = veek_to_naive_date_opt("2021c 09v 3d").unwrap();
    assert_eq!(nd, NaiveDate::from_ymd(2021, 02, 28));
}

#[test]
pub fn veeks_millis_mod_t05_veek_to_naive_date_opt() {
    let nd = veek_to_naive_date_opt("2021c 52v 2d").unwrap();
    assert_eq!(nd, NaiveDate::from_ymd(2021, 12, 25));
}

#[test]
#[should_panic]
pub fn veeks_millis_mod_t06_veek_to_naive_date_opt_should_panic() {
    // panic because the veek format is wrong
    let _nd = veek_to_naive_date_opt("2021c-09v-3d").unwrap();
}

#[test]
fn veek_date_text_renders_year_and_ordinal() {
    assert_eq!(veek_date_text(2021, 59), "2021c 09v 3d");
    assert_eq!(veek_date_text(2021, 1), "2021c 01v 1d");
    assert_eq!(veek_date_text(500, 1), "500c 01v 1d");
    assert_eq!(veek_date_text(-1, 8), "-1c 02v 1d");
}

#[test]
fn veek_to_naive_date_opt_rejects_nonmatching_text() {
    assert!(veek_to_naive_date_opt("2021c 00v 3d").is_none());
    assert!(veek_to_naive_date_opt("2021c 54v 1d").is_none());
    assert!(veek_to_naive_date_opt("2021c 59v 1d").is_none());
    assert!(veek_to_naive_date_opt("2021c 60v 1d").is_none());
    assert!(veek_to_naive_date_opt("2021c 09v 8d").is_none());
    assert!(veek_to_naive_date_opt("2021c 09v 0d").is_none());
    assert!(veek_to_naive_date_opt("2021c  9v 3d").is_none());
    assert!(veek_to_naive_date_opt("+021c 09v 3d").is_none());
}

#[test]
fn veek_to_naive_date_opt_rejects_days_past_year_end() {
    // ordinal day 366 exists only in leap years
    assert!(veek_to_naive_date_opt("2021c 53v 2d").is_none());
    assert_eq!(
        veek_to_naive_date_opt("2020c 53v 2d").unwrap(),
        NaiveDate::from_ymd(2020, 12, 31)
    );
}

#[test]
fn veek_to_naive_date_opt_rejects_out_of_range_years() {
    // the year range is 1000..=9999, as everywhere in the library
    assert!(veek_to_naive_date_opt("0500c 09v 3d").is_none());
    assert!(veek_to_naive_date_opt("0999c 01v 1d").is_none());
    assert_eq!(
        veek_to_naive_date_opt("1000c 01v 1d").unwrap(),
        NaiveDate::from_ymd(1000, 1, 1)
    );
}

#[test]
fn millis_text_body_accepts_the_grammar() {
    assert_eq!(millis_text_body("560md").unwrap(), "560");
    assert_eq!(millis_text_body("560.0md").unwrap(), "560.0");
    assert_eq!(millis_text_body(".5md").unwrap(), ".5");
    // an empty body matches the grammar; the numeric parse rejects it later
    assert_eq!(millis_text_body("md").unwrap(), "");
}

#[test]
fn millis_text_body_rejects_everything_else() {
    assert!(millis_text_body("560 md").is_none());
    assert!(millis_text_body("560").is_none());
    assert!(millis_text_body("560.md").is_none());
    assert!(millis_text_body("5.6.0md").is_none());
    assert!(millis_text_body("-5md").is_none());
    assert!(millis_text_body("560\u{3bc}d").is_none());
    assert!(millis_text_body("").is_none());
}

#[test]
fn micros_text_body_accepts_the_grammar() {
    assert_eq!(micros_text_body("110\u{3bc}d").unwrap(), "110");
    assert_eq!(micros_text_body("110.25\u{3bc}d").unwrap(), "110.25");
    assert_eq!(micros_text_body("\u{3bc}d").unwrap(), "");
}

#[test]
fn micros_text_body_rejects_everything_else() {
    assert!(micros_text_body("110 \u{3bc}d").is_none());
    assert!(micros_text_body("110md").is_none());
    assert!(micros_text_body("110d").is_none());
    assert!(micros_text_body("110.\u{3bc}d").is_none());
}

#[test]
fn seconds_round_to_nearest_milliday() {
    // 13:30:00 is 48600 seconds: 562.5 millidays, the half rounds up
    assert_eq!(seconds_to_millis_rounded(48600), 563);
    // 13:26:24 is 48384 seconds: exactly 560 millidays
    assert_eq!(seconds_to_millis_rounded(48384), 560);
    assert_eq!(seconds_to_millis_rounded(0), 0);
    // the last second of the day rounds up to a full thousand
    assert_eq!(seconds_to_millis_rounded(86399), 1000);
    // 43 seconds is 0.497... millidays, just below the half
    assert_eq!(seconds_to_millis_rounded(43), 0);
    assert_eq!(seconds_to_millis_rounded(44), 1);
}
