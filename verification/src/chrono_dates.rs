//! The calls into `chrono`.
//!
//! Each function here is trusted: its body is not verified, and its contract
//! restates over the calendar model what `chrono` documents. They take and
//! return plain integers, so that nothing of `chrono` shows in the rest of the
//! library.

use crate::calendar::{ymd, Date};
use chrono::{Datelike, Days, Local, NaiveDate};
use vstd::prelude::*;

verus! {

/// The date that a triple of year, month and day stands for.
pub open spec fn date_of(t: (i32, u32, u32)) -> Date {
    Date { year: t.0 as int, month: t.1 as int, day: t.2 as int }
}

/// The year of `NaiveDate::MIN`, which is 1 January of that year.
pub const NAIVE_MIN_YEAR: i32 = -262_143;

/// The year of `NaiveDate::MAX`, which is 31 December of that year.
pub const NAIVE_MAX_YEAR: i32 = 262_142;

/// Whether `chrono::NaiveDate` can hold the date: it exists, and lies between
/// `NaiveDate::MIN` and `NaiveDate::MAX`.
pub open spec fn representable(d: Date) -> bool {
    d.valid() && NAIVE_MIN_YEAR <= d.year <= NAIVE_MAX_YEAR
}

/// The date before `d`, where `NaiveDate` holds both.
pub open spec fn checked_prev_day(d: Date) -> Option<Date> {
    if representable(d) && d != ymd(NAIVE_MIN_YEAR as int, 1, 1) {
        Some(d.prev_day())
    } else {
        None
    }
}

/// The date `n` days after `d`, where `NaiveDate` holds both.
pub open spec fn checked_plus_days(d: Date, n: nat) -> Option<Date> {
    if representable(d) && representable(d.plus_days(n)) {
        Some(d.plus_days(n))
    } else {
        None
    }
}

/// The day number of `d`, where `NaiveDate` holds it.
pub open spec fn checked_day_number(d: Date) -> Option<int> {
    if representable(d) {
        Some(d.day_number())
    } else {
        None
    }
}

/// The date that an optional triple stands for.
pub open spec fn date_of_option(r: Option<(i32, u32, u32)>) -> Option<Date> {
    match r {
        Some(t) => Some(date_of(t)),
        None => None,
    }
}

/// The integer that an optional `i32` stands for.
pub open spec fn int_of_option(r: Option<i32>) -> Option<int> {
    match r {
        Some(n) => Some(n as int),
        None => None,
    }
}

/// `NaiveDate::from_ymd_opt`, asked only whether it returns a date.
///
/// Trusted: it returns a date exactly when the day exists in the calendar and
/// the year is within the range of `NaiveDate`.
#[verifier::external_body]
pub(crate) fn date_exists(year: i32, month: u32, day: u32) -> (found: bool)
    ensures
        found == representable(ymd(year as int, month as int, day as int)),
{
    NaiveDate::from_ymd_opt(year, month, day).is_some()
}

/// `NaiveDate::pred_opt` on the date with the given year, month and day.
///
/// Trusted: it returns the previous calendar date, and `None` exactly when
/// there is no such `NaiveDate`: the argument is not a date that `NaiveDate`
/// holds, or it is `NaiveDate::MIN`.
#[verifier::external_body]
pub(crate) fn day_before(year: i32, month: u32, day: u32) -> (r: Option<(i32, u32, u32)>)
    ensures
        date_of_option(r) == checked_prev_day(ymd(year as int, month as int, day as int)),
{
    let date = NaiveDate::from_ymd_opt(year, month, day)?;
    let before = date.pred_opt()?;
    Some((before.year(), before.month(), before.day()))
}

/// `Datelike::num_days_from_ce` on the date with the given year, month and day.
///
/// Trusted: it counts the days of the proleptic Gregorian calendar with
/// 1 January of year 1 as day 1. `None` exactly when the argument is not a
/// date that `NaiveDate` holds.
#[verifier::external_body]
pub(crate) fn days_from_ce(year: i32, month: u32, day: u32) -> (r: Option<i32>)
    ensures
        int_of_option(r) == checked_day_number(ymd(year as int, month as int, day as int)),
{
    let date = NaiveDate::from_ymd_opt(year, month, day)?;
    Some(date.num_days_from_ce())
}

/// `NaiveDate::checked_add_days` on the date with the given year, month and
/// day.
///
/// Trusted: it returns the date `n` days later, and `None` exactly when the
/// argument or the later date is not a date that `NaiveDate` holds.
#[verifier::external_body]
pub(crate) fn date_plus_days(year: i32, month: u32, day: u32, n: u64) -> (r: Option<(i32, u32, u32)>)
    ensures
        date_of_option(r) == checked_plus_days(ymd(year as int, month as int, day as int), n as nat),
{
    let date = NaiveDate::from_ymd_opt(year, month, day)?;
    let later = date.checked_add_days(Days::new(n))?;
    Some((later.year(), later.month(), later.day()))
}

/// `Local::now`, reduced to the year, month and day of the local date.
///
/// Trusted, and nothing is claimed of the result: it is whatever the system
/// clock and time zone say. `chrono` panics where the clock is set to a time
/// before 1970.
#[verifier::external_body]
pub(crate) fn local_today() -> (today: (i32, u32, u32)) {
    let now = Local::now().date_naive();
    (now.year(), now.month(), now.day())
}

} // verus!
