//! The proleptic Gregorian calendar as a mathematical model.
//!
//! Everything here is ghost code over unbounded integers. The executable date
//! type views into [`Date`], and every contract of the library that speaks of
//! dates is stated over the functions of this module.

use vstd::prelude::*;

verus! {

/// Whether `year` has 366 days. Year 0 is 1 BCE and is a leap year.
pub open spec fn is_leap_year(year: int) -> bool {
    year % 4 == 0 && (year % 100 != 0 || year % 400 == 0)
}

/// The number of days of `month` in `year`; meaningful for months 1 to 12.
pub open spec fn days_in_month(year: int, month: int) -> int {
    if month == 2 {
        if is_leap_year(year) {
            29
        } else {
            28
        }
    } else if month == 4 || month == 6 || month == 9 || month == 11 {
        30
    } else {
        31
    }
}

/// The number of days of `year`.
pub open spec fn days_in_year(year: int) -> int {
    if is_leap_year(year) {
        366
    } else {
        365
    }
}

/// The number of days in the years 1 to `year - 1`; negative for years before 1.
pub open spec fn days_before_year(year: int) -> int {
    let y = year - 1;
    365 * y + y / 4 - y / 100 + y / 400
}

/// The number of days in the months of `year` that precede `month`.
pub open spec fn days_before_month(year: int, month: int) -> int
    decreases month,
{
    if month <= 1 {
        0
    } else {
        days_before_month(year, month - 1) + days_in_month(year, month - 1)
    }
}

/// A calendar date as three unbounded integers.
pub struct Date {
    pub year: int,
    pub month: int,
    pub day: int,
}

/// The date with the given year, month and day.
pub open spec fn ymd(year: int, month: int, day: int) -> Date {
    Date { year, month, day }
}

impl Date {
    /// The date exists in the calendar.
    pub open spec fn valid(self) -> bool {
        &&& 1 <= self.month <= 12
        &&& 1 <= self.day <= days_in_month(self.year, self.month)
    }

    /// The date that follows this one.
    pub open spec fn next_day(self) -> Date {
        if self.day < days_in_month(self.year, self.month) {
            Date { year: self.year, month: self.month, day: self.day + 1 }
        } else if self.month < 12 {
            Date { year: self.year, month: self.month + 1, day: 1 }
        } else {
            Date { year: self.year + 1, month: 1, day: 1 }
        }
    }

    /// The date that precedes this one.
    pub open spec fn prev_day(self) -> Date {
        if self.day > 1 {
            Date { year: self.year, month: self.month, day: self.day - 1 }
        } else if self.month > 1 {
            Date {
                year: self.year,
                month: self.month - 1,
                day: days_in_month(self.year, self.month - 1),
            }
        } else {
            Date { year: self.year - 1, month: 12, day: 31 }
        }
    }

    /// The date `n` days after this one.
    pub open spec fn plus_days(self, n: nat) -> Date
        decreases n,
    {
        if n == 0 {
            self
        } else {
            self.next_day().plus_days((n - 1) as nat)
        }
    }

    /// The position of the date in the calendar, counting 1 January of year 1
    /// as day 1.
    pub open spec fn day_number(self) -> int {
        days_before_year(self.year) + days_before_month(self.year, self.month) + self.day
    }

    /// The first day of the month after the one this date lies in.
    pub open spec fn first_of_next_month(self) -> Date {
        if self.month < 12 {
            Date { year: self.year, month: self.month + 1, day: 1 }
        } else {
            Date { year: self.year + 1, month: 1, day: 1 }
        }
    }
}

/// The signed number of days from `start` to `end`.
pub open spec fn days_between(start: Date, end: Date) -> int {
    end.day_number() - start.day_number()
}

/// A valid date is followed by a valid date, in the same year or the next,
/// and is the date that precedes it.
pub proof fn lemma_next_day_valid(d: Date)
    requires
        d.valid(),
    ensures
        d.next_day().valid(),
        d.next_day().year >= d.year,
        d.next_day().prev_day() == d,
{
}

/// The days of a year are those between its first day and the first day of
/// the next year, and those of its twelve months.
pub proof fn lemma_year_length(year: int)
    ensures
        days_before_year(year + 1) - days_before_year(year) == days_in_year(year),
        days_before_month(year, 12) + days_in_month(year, 12) == days_in_year(year),
{
    reveal_with_fuel(days_before_month, 13);
}

/// The day number grows by one from each day to the next.
pub proof fn lemma_day_number_next(d: Date)
    requires
        d.valid(),
    ensures
        d.next_day().day_number() == d.day_number() + 1,
{
    lemma_year_length(d.year);
    reveal_with_fuel(days_before_month, 2);
}

/// Adding days keeps a date valid, never moves it to an earlier year, and
/// moves its day number by exactly the days added.
pub proof fn lemma_plus_days(d: Date, n: nat)
    requires
        d.valid(),
    ensures
        d.plus_days(n).valid(),
        d.plus_days(n).year >= d.year,
        d.plus_days(n).day_number() == d.day_number() + n,
    decreases n,
{
    if n > 0 {
        lemma_next_day_valid(d);
        lemma_day_number_next(d);
        lemma_plus_days(d.next_day(), (n - 1) as nat);
    }
}

/// The date one day later is the next day.
pub proof fn lemma_plus_one_day(d: Date)
    ensures
        d.plus_days(1) == d.next_day(),
{
    assert(d.plus_days(1) == d.next_day().plus_days(0));
}

/// Adding days in two steps is adding their sum.
pub proof fn lemma_plus_days_sum(d: Date, a: nat, b: nat)
    ensures
        d.plus_days(a + b) == d.plus_days(a).plus_days(b),
    decreases a,
{
    if a > 0 {
        lemma_plus_days_sum(d.next_day(), (a - 1) as nat, b);
    }
}

/// Adding days that the month still has changes the day alone.
pub proof fn lemma_plus_days_same_month(d: Date, n: nat)
    requires
        d.valid(),
        d.day + n <= days_in_month(d.year, d.month),
    ensures
        d.plus_days(n) == ymd(d.year, d.month, d.day + n),
    decreases n,
{
    if n > 0 {
        lemma_plus_days_same_month(d.next_day(), (n - 1) as nat);
    }
}

/// Adding the days that the month has left, and one more, leads to the first
/// day of the next month.
pub proof fn lemma_plus_days_next_month(d: Date)
    requires
        d.valid(),
    ensures
        d.plus_days((days_in_month(d.year, d.month) - d.day + 1) as nat)
            == d.first_of_next_month(),
{
    let left = (days_in_month(d.year, d.month) - d.day) as nat;
    lemma_plus_days_same_month(d, left);
    lemma_plus_days_sum(d, left, 1);
    lemma_plus_one_day(ymd(d.year, d.month, days_in_month(d.year, d.month)));
}

/// No days lie between a date and itself.
pub proof fn lemma_days_between_same(d: Date)
    ensures
        days_between(d, d) == 0,
{
}

/// Swapping the two ends of a span negates its length.
pub proof fn lemma_days_between_swapped(a: Date, b: Date)
    ensures
        days_between(a, b) == -days_between(b, a),
{
}

/// The span from a date to the date `n` days after it is `n` days long.
pub proof fn lemma_days_between_plus_days(d: Date, n: nat)
    requires
        d.valid(),
    ensures
        days_between(d, d.plus_days(n)) == n,
{
    lemma_plus_days(d, n);
}

/// The day number of a date lies among those of its year.
pub proof fn lemma_day_number_within_year(d: Date)
    requires
        d.valid(),
    ensures
        days_before_year(d.year) < d.day_number() <= days_before_year(d.year + 1),
{
    reveal_with_fuel(days_before_month, 13);
    lemma_year_length(d.year);
}

} // verus!
