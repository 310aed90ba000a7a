//! The calls into `chrono`, which keeps the proleptic Gregorian calendar.
//!
//! The contracts in this file are taken on trust: they describe what
//! `chrono` does, and nothing here proves them.

use crate::date::Date;
use chrono::{Datelike, Duration, Local, NaiveDate};
use vstd::prelude::*;

verus! {

/// Adds `days` days to `date` with `chrono`'s `NaiveDate + Duration`.
///
/// Trusted: the sum is the valid date whose day number is that of `date`
/// plus `days`. `chrono` panics where the sum leaves the dates it can hold,
/// which the precondition rules out.
#[verifier::external_body]
pub(crate) fn shift_days(date: Date, days: i64) -> (shifted: Date)
    requires
        date@.valid(),
        crate::date::Ymd::first().day_number() <= date@.day_number() + days
            <= crate::date::Ymd::last().day_number(),
    ensures
        shifted@.valid(),
        shifted@.day_number() == date@.day_number() + days,
{
    let day = NaiveDate::from_ymd_opt(date.year, date.month, date.day).unwrap() + Duration::days(days);
    Date { year: day.year(), month: day.month(), day: day.day() }
}

/// Asks `chrono` for the weekday of `date`, with `NaiveDate::weekday` and
/// `Weekday::num_days_from_monday`.
///
/// Trusted: the answer is the number of days since Monday, 0 to 6, of the
/// date in the proleptic Gregorian calendar.
#[verifier::external_body]
pub(crate) fn weekday_from_monday(date: Date) -> (weekday: u32)
    requires
        date@.valid(),
    ensures
        weekday == date@.weekday(),
{
    NaiveDate::from_ymd_opt(date.year, date.month, date.day).unwrap().weekday().num_days_from_monday()
}

/// Writes `date` with `chrono`'s `NaiveDate::format` and the pattern
/// `%Y-%m-%d`.
///
/// Trusted: the text is the year in four digits (with a sign before it where
/// the year is not in 0 to 9999), the month and the day in two digits each,
/// with hyphens between them.
#[verifier::external_body]
pub(crate) fn format_iso(date: Date) -> (text: String)
    requires
        date@.valid(),
    ensures
        text@ == date@.iso_text(),
{
    NaiveDate::from_ymd_opt(date.year, date.month, date.day).unwrap().format("%Y-%m-%d").to_string()
}

/// Reads the local date from the system clock with `chrono`'s `Local::now`.
///
/// Trusted: whatever the clock says, `chrono` hands out a date that exists,
/// in a year it covers.
#[verifier::external_body]
pub(crate) fn local_today() -> (today: Date)
    ensures
        today@.valid(),
{
    let today = Local::now().naive_local().date();
    Date { year: today.year(), month: today.month(), day: today.day() }
}

} // verus!
