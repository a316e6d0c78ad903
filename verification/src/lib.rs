//! Veek-date and decimal-day conversions.
//!
//! A veek is a seven-day grouping of the year, numbered from the first
//! ordinal day rather than from any weekday epoch.  This crate converts
//! proleptic-Gregorian calendar dates to and from `(year, veek, day)`
//! triples and their fixed twelve-character text form, and validates the
//! text grammars for milliday and microday quantities.

pub mod calendar;
pub mod digits;
pub mod millis;
pub mod veek_date;
pub mod veek_text;

pub use veek_date::VeekDate;
pub use veek_text::{naive_date_to_veek_date, veek_date_text, veek_to_naive_date_opt};
pub use millis::{millis_text_body, micros_text_body, seconds_to_millis_rounded};
