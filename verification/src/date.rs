//! The executable date type and the date arithmetic built on it.

use crate::calendar::{
    days_between, days_in_month, lemma_day_number_within_year, lemma_plus_days, ymd, Date,
};
use crate::chrono_dates::{
    date_exists, date_plus_days, day_before, days_from_ce, local_today, NAIVE_MAX_YEAR,
    NAIVE_MIN_YEAR,
};
use crate::error::EstimateError;
use vstd::prelude::*;

verus! {

/// The first year that a [`CalendarDate`] can lie in: -262143, the first that
/// the date arithmetic underneath can hold.
pub const MIN_YEAR: i32 = NAIVE_MIN_YEAR;

/// The last year that a [`CalendarDate`] can lie in: 262141. It is one less
/// than the date arithmetic underneath can hold, so that the first day of the
/// month after any supported date is still within its reach.
pub const MAX_YEAR: i32 = NAIVE_MAX_YEAR - 1;

/// Whether `d` is a date that a [`CalendarDate`] can hold.
pub open spec fn supported(d: Date) -> bool {
    d.valid() && MIN_YEAR <= d.year <= MAX_YEAR
}

/// The day numbers of the supported dates, and with them the spans between
/// two such dates, fit in 32 bits.
pub proof fn lemma_supported_day_number(d: Date)
    requires
        supported(d),
    ensures
        -96_000_000 < d.day_number() < 96_000_000,
{
    lemma_day_number_within_year(d);
}

/// A date of the Gregorian calendar. Every value is a day that exists, in a
/// year from [`MIN_YEAR`] to [`MAX_YEAR`].
#[derive(Clone, Copy, Debug, PartialEq, Eq)]
pub struct CalendarDate {
    year: i32,
    month: u32,
    day: u32,
}

impl View for CalendarDate {
    type V = Date;

    closed spec fn view(&self) -> Date {
        Date { year: self.year as int, month: self.month as int, day: self.day as int }
    }
}

impl CalendarDate {
    /// What holds of every value: its date is supported.
    #[verifier::type_invariant]
    pub open spec fn well_formed(self) -> bool {
        supported(self@)
    }

    /// The date with the given year, month and day, if it exists and is
    /// supported.
    pub fn from_ymd(year: i32, month: u32, day: u32) -> (r: Option<CalendarDate>)
        ensures
            r is Some <==> supported(ymd(year as int, month as int, day as int)),
            r matches Some(date) ==> date@ == ymd(year as int, month as int, day as int),
    {
        if year <= MAX_YEAR && date_exists(year, month, day) {
            Some(CalendarDate { year, month, day })
        } else {
            None
        }
    }

    /// The year of the date.
    pub fn year(&self) -> (year: i32)
        ensures
            year == self@.year,
            supported(self@),
    {
        proof {
            use_type_invariant(self);
        }
        self.year
    }

    /// The month of the date, from 1 to 12.
    pub fn month(&self) -> (month: u32)
        ensures
            month == self@.month,
            supported(self@),
    {
        proof {
            use_type_invariant(self);
        }
        self.month
    }

    /// The day of the month, from 1.
    pub fn day(&self) -> (day: u32)
        ensures
            day == self@.day,
            supported(self@),
    {
        proof {
            use_type_invariant(self);
        }
        self.day
    }
}

/// Today's date by the local clock, read once.
///
/// Which date comes back is for the clock to say. It fails with
/// [`EstimateError::CalendarOverflow`] where the clock's date is not a
/// supported one.
pub fn today() -> (r: Result<CalendarDate, EstimateError>)
    ensures
        r matches Ok(date) ==> supported(date@),
        r matches Err(e) ==> e == EstimateError::CalendarOverflow,
{
    let now: (i32, u32, u32) = local_today();
    match CalendarDate::from_ymd(now.0, now.1, now.2) {
        Some(date) => Ok(date),
        None => Err(EstimateError::CalendarOverflow),
    }
}

/// The number of the last day of `month` in `year`: the day before the first
/// day of the following month. The month is one from 1 to 12 of a supported
/// year.
pub fn last_day_of_month(year: i32, month: u32) -> (last: u32)
    requires
        MIN_YEAR <= year <= MAX_YEAR,
        1 <= month <= 12,
    ensures
        last == days_in_month(year as int, month as int),
        28 <= last <= 31,
{
    let following: (i32, u32) = if date_exists(year, month + 1, 1) {
        (year, month + 1)
    } else {
        (year + 1, 1)
    };
    match day_before(following.0, following.1, 1) {
        Some(last_date) => last_date.2,
        None => unreached(),
    }
}

/// The signed number of days from `start_date` to `end_date`: the difference
/// of their day numbers, negative when `end_date` precedes `start_date`.
pub fn days_between_dates(start_date: CalendarDate, end_date: CalendarDate) -> (days: i64)
    ensures
        days == days_between(start_date@, end_date@),
{
    proof {
        use_type_invariant(&start_date);
        use_type_invariant(&end_date);
    }
    let from: i32 = match days_from_ce(start_date.year, start_date.month, start_date.day) {
        Some(n) => n,
        None => unreached(),
    };
    let to: i32 = match days_from_ce(end_date.year, end_date.month, end_date.day) {
        Some(n) => n,
        None => unreached(),
    };
    to as i64 - from as i64
}

/// The date `n` days after `date`.
///
/// Fails with [`EstimateError::CalendarOverflow`] exactly when that date lies
/// after the last supported year.
pub fn advance_days(date: CalendarDate, n: u64) -> (r: Result<CalendarDate, EstimateError>)
    ensures
        r is Ok <==> supported(date@.plus_days(n as nat)),
        r matches Ok(later) ==> later@ == date@.plus_days(n as nat),
        r matches Err(e) ==> e == EstimateError::CalendarOverflow,
{
    proof {
        use_type_invariant(&date);
        lemma_plus_days(date@, n as nat);
    }
    match date_plus_days(date.year, date.month, date.day, n) {
        Some(later) => {
            if later.0 <= MAX_YEAR {
                Ok(CalendarDate { year: later.0, month: later.1, day: later.2 })
            } else {
                Err(EstimateError::CalendarOverflow)
            }
        },
        None => Err(EstimateError::CalendarOverflow),
    }
}

} // verus!
