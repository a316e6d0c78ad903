use chrono::NaiveDate;
use veeks_millis::VeekDate;

#[test]
pub fn veek_date_mod_t01_naive_date_to_veek_date() {
    let nd = NaiveDate::from_ymd(2021, 02, 28);
    let veeks = VeekDate::from_naive_date(nd).unwrap();
    assert_eq!(veeks.to_string(), "2021c 09v 3d");
}

#[test]
pub fn veek_date_mod_t02_naive_date_to_veek_date() {
    let nd = NaiveDate::from_ymd(2021, 05, 01);
    let veeks = VeekDate::from_naive_date(nd).unwrap();
    assert_eq!(veeks.to_string(), "2021c 18v 2d");
}

#[test]
pub fn veek_date_mod_t03_naive_date_to_veek_date() {
    let nd = NaiveDate::from_ymd(2021, 12, 25);
    let veeks = VeekDate::from_naive_date(nd).unwrap();
    assert_eq!(veeks.to_string(), "2021c 52v 2d");
}

#[test]
pub fn veek_date_mod_t04_veek_to_naive_date_opt() {
    let veek = VeekDate::from_str("2021c 09v 3d").unwrap();
    let nd = veek.to_naive_date().unwrap();
    assert_eq!(nd, NaiveDate::from_ymd(2021, 02, 28));
}

#[test]
pub fn veek_date_mod_t05_veek_to_naive_date_opt() {
    let veek = VeekDate::from_str("2021c 52v 2d").unwrap();
    let nd = veek.to_naive_date().unwrap();
    assert_eq!(nd, NaiveDate::from_ymd(2021, 12, 25));
}

#[test]
#[should_panic]
pub fn veek_date_mod_t06_veek_to_naive_date_opt_should_panic() {
    // panic because the veek format is wrong
    let _veek = VeekDate::from_str("2021c-09v-3d").unwrap();
}

#[test]
fn from_yvd_accepts_and_reads_back() {
    let v = VeekDate::from_yvd(2021, 9, 3).unwrap();
    assert_eq!(v.year(), 2021);
    assert_eq!(v.veek(), 9);
    assert_eq!(v.day(), 3);
}

#[test]
fn from_yvd_rejects_out_of_range_fields() {
    assert!(VeekDate::from_yvd(999, 9, 3).is_none());
    assert!(VeekDate::from_yvd(10000, 9, 3).is_none());
    assert!(VeekDate::from_yvd(2021, 0, 3).is_none());
    assert!(VeekDate::from_yvd(2021, 54, 3).is_none());
    assert!(VeekDate::from_yvd(2021, 9, 0).is_none());
    assert!(VeekDate::from_yvd(2021, 9, 8).is_none());
}

#[test]
fn ordinal_day_boundaries() {
    let v = VeekDate::from_year_ordinal_day(2021, 1).unwrap();
    assert_eq!((v.veek(), v.day()), (1, 1));
    let v = VeekDate::from_year_ordinal_day(2021, 7).unwrap();
    assert_eq!((v.veek(), v.day()), (1, 7));
    let v = VeekDate::from_year_ordinal_day(2021, 8).unwrap();
    assert_eq!((v.veek(), v.day()), (2, 1));
    let v = VeekDate::from_year_ordinal_day(2021, 371).unwrap();
    assert_eq!((v.veek(), v.day()), (53, 7));
}

#[test]
fn ordinal_day_out_of_range() {
    assert!(VeekDate::from_year_ordinal_day(2021, 0).is_none());
    assert!(VeekDate::from_year_ordinal_day(2021, 372).is_none());
}

#[test]
fn from_ymd_literal_scenarios() {
    assert_eq!(VeekDate::from_ymd(2021, 2, 28).unwrap().to_string(), "2021c 09v 3d");
    assert_eq!(VeekDate::from_ymd(2021, 5, 1).unwrap().to_string(), "2021c 18v 2d");
    assert_eq!(VeekDate::from_ymd(2021, 12, 25).unwrap().to_string(), "2021c 52v 2d");
}

#[test]
fn from_ymd_checks_the_calendar() {
    assert!(VeekDate::from_ymd(2021, 2, 29).is_none());
    assert_eq!(VeekDate::from_ymd(2020, 2, 29).unwrap().to_string(), "2020c 09v 4d");
    assert!(VeekDate::from_ymd(2021, 13, 1).is_none());
    assert!(VeekDate::from_ymd(2021, 4, 31).is_none());
    assert!(VeekDate::from_ymd(999, 6, 15).is_none());
}

#[test]
fn from_str_rejects_wrong_separators() {
    assert!(VeekDate::from_str("2021c-09v-3d").is_none());
    assert!(VeekDate::from_str("2021c 09v 3x").is_none());
    assert!(VeekDate::from_str("2021c 09v 3d ").is_none());
    assert!(VeekDate::from_str("2021x 09v 3d").is_none());
}

#[test]
fn from_str_rejects_out_of_range_fields() {
    assert!(VeekDate::from_str("0999c 09v 3d").is_none());
    assert!(VeekDate::from_str("2021c 00v 3d").is_none());
    assert!(VeekDate::from_str("2021c 54v 3d").is_none());
    assert!(VeekDate::from_str("2021c 09v 0d").is_none());
    assert!(VeekDate::from_str("2021c 09v 8d").is_none());
}

#[test]
fn from_str_rejects_signed_fields() {
    // the fixed grammar is digit-only: no sign is accepted anywhere
    assert!(VeekDate::from_str("2021c +5v 3d").is_none());
    assert!(VeekDate::from_str("2021c +9v 3d").is_none());
    assert!(VeekDate::from_str("+999c 09v 3d").is_none());
    assert!(VeekDate::from_str("-999c 09v 3d").is_none());
}

#[test]
fn text_round_trip_is_identity() {
    for s in ["2021c 09v 3d", "1000c 01v 1d", "9999c 53v 7d", "2020c 10v 5d"] {
        assert_eq!(VeekDate::from_str(s).unwrap().to_string(), s);
    }
}

#[test]
fn to_naive_date_rejects_days_past_year_end() {
    // ordinal day 366 exists only in leap years
    let v = VeekDate::from_yvd(2021, 53, 2).unwrap();
    assert!(v.to_naive_date().is_none());
    let v = VeekDate::from_yvd(2020, 53, 2).unwrap();
    assert_eq!(v.to_naive_date().unwrap(), NaiveDate::from_ymd(2020, 12, 31));
}

#[test]
fn calendar_round_trip_over_a_year() {
    let mut nd = NaiveDate::from_ymd(2020, 1, 1);
    let last = NaiveDate::from_ymd(2021, 12, 31);
    while nd <= last {
        let v = VeekDate::from_naive_date(nd).unwrap();
        assert_eq!(v.to_naive_date().unwrap(), nd);
        nd = nd.succ_opt().unwrap();
    }
}
