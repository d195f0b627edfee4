//! Counting how often a recurring event resets within a span of days.
//!
//! A schedule names the day of the month on which an event resets. What is
//! counted is stated day by day: the resets that fall on the days that follow
//! the start date, up to the last day of the span. The counter itself walks
//! from reset to reset for as long as the days that are left reach the next
//! one, and is proved to count the same.

use crate::calendar::{
    days_between, days_in_month, lemma_plus_days, lemma_plus_days_next_month,
    lemma_plus_days_same_month, lemma_plus_days_sum, lemma_plus_one_day, ymd, Date,
};
use crate::date::{advance_days, last_day_of_month, supported, today, CalendarDate};
use crate::error::EstimateError;
use vstd::prelude::*;

verus! {

/// The day of the month on which the mid-month event resets.
pub const ABYSS_RESET_DAY: u32 = 16;

/// The rule by which a recurring event resets.
#[derive(Clone, Copy, Debug, PartialEq, Eq, Structural)]
pub enum RotationSchedule {
    /// The event resets on the given day of every month.
    MidMonth { day: u32 },
    /// The event resets on the first day of every month.
    MonthStart,
}

impl RotationSchedule {
    /// The schedule names a day that every month has: a mid-month day lies
    /// between 1 and 28.
    pub open spec fn wf(self) -> bool {
        match self {
            RotationSchedule::MidMonth { day } => 1 <= day <= 28,
            RotationSchedule::MonthStart => true,
        }
    }

    /// The day of the month on which the event resets.
    pub open spec fn reset_day(self) -> int {
        match self {
            RotationSchedule::MidMonth { day } => day as int,
            RotationSchedule::MonthStart => 1,
        }
    }

    /// The schedule that resets on `day` of every month, for a day from 1 to 28.
    pub fn mid_month(day: u32) -> (r: Option<RotationSchedule>)
        ensures
            r is Some <==> 1 <= day <= 28,
            r matches Some(schedule) ==> schedule == (RotationSchedule::MidMonth { day }),
    {
        if 1 <= day && day <= 28 {
            Some(RotationSchedule::MidMonth { day })
        } else {
            None
        }
    }

    /// The schedule of the mid-month event: it resets on day 16.
    pub fn abyss() -> (schedule: RotationSchedule)
        ensures
            schedule == (RotationSchedule::MidMonth { day: ABYSS_RESET_DAY }),
            schedule.wf(),
    {
        RotationSchedule::MidMonth { day: ABYSS_RESET_DAY }
    }

    /// The schedule of the two month-start events.
    pub fn month_start() -> (schedule: RotationSchedule)
        ensures
            schedule == RotationSchedule::MonthStart,
            schedule.wf(),
    {
        RotationSchedule::MonthStart
    }
}

/// Whether `schedule` resets on `date`.
pub open spec fn resets_on(schedule: RotationSchedule, date: Date) -> bool {
    date.day == schedule.reset_day()
}

/// The number of resets of `schedule` on the `days` days that follow `start`.
/// The start date itself is not among them; the last day of the span is.
pub open spec fn resets_within(schedule: RotationSchedule, start: Date, days: nat) -> nat
    decreases days,
{
    if days == 0 {
        0
    } else if resets_on(schedule, start.plus_days(days)) {
        resets_within(schedule, start, (days - 1) as nat) + 1
    } else {
        resets_within(schedule, start, (days - 1) as nat)
    }
}

/// The date of the last reset of `schedule` on the `days` days that follow
/// `start`, or `start` itself where there is none.
pub open spec fn last_reset_within(schedule: RotationSchedule, start: Date, days: nat) -> Date
    decreases days,
{
    if days == 0 {
        start
    } else if resets_on(schedule, start.plus_days(days)) {
        start.plus_days(days)
    } else {
        last_reset_within(schedule, start, (days - 1) as nat)
    }
}

/// What counting the resets of `schedule` within `days` days from `start`
/// comes to: the count, or an overflow where the last reset of the span lies
/// outside the supported years.
pub open spec fn count_outcome(schedule: RotationSchedule, start: Date, days: nat) -> Result<
    nat,
    EstimateError,
> {
    if supported(last_reset_within(schedule, start, days)) {
        Ok(resets_within(schedule, start, days))
    } else {
        Err(EstimateError::CalendarOverflow)
    }
}

/// Whether `r` is what counting from today can come to: an overflow, or the
/// count from some supported start date.
pub open spec fn counted_from_today(
    schedule: RotationSchedule,
    days: nat,
    r: Result<u32, EstimateError>,
) -> bool {
    match r {
        Ok(count) => exists|start: Date|
            supported(start) && #[trigger] count_outcome(schedule, start, days) == Ok::<
                nat,
                EstimateError,
            >(count as nat),
        Err(e) => e == EstimateError::CalendarOverflow,
    }
}

/// The number of days from `date` to the next reset of `schedule` after it.
pub open spec fn boundary_distance(schedule: RotationSchedule, date: Date) -> int {
    match schedule {
        RotationSchedule::MidMonth { day } => if date.day < day {
            day - date.day
        } else {
            days_in_month(date.year, date.month) - date.day + day
        },
        RotationSchedule::MonthStart => days_in_month(date.year, date.month) - date.day + 1,
    }
}

/// The date of the next reset of `schedule` after `date`: its day in this
/// month where that is still to come, and in the next month otherwise.
pub open spec fn next_reset(schedule: RotationSchedule, date: Date) -> Date {
    if date.day < schedule.reset_day() {
        ymd(date.year, date.month, schedule.reset_day())
    } else {
        let following = date.first_of_next_month();
        ymd(following.year, following.month, schedule.reset_day())
    }
}

/// The number of resets that the counter's walk crosses: from `cursor` it
/// steps to the next reset for as long as the `remaining` days reach it.
///
/// The distance to the next reset is at least 1 wherever the schedule is well
/// formed and the cursor a valid date (`lemma_boundary_distance`); the
/// definition asks for it so that it is one for all arguments.
pub open spec fn walk_count(schedule: RotationSchedule, cursor: Date, remaining: nat) -> nat
    decreases remaining,
{
    let distance = boundary_distance(schedule, cursor);
    if 1 <= distance <= remaining {
        1 + walk_count(
            schedule,
            cursor.plus_days(distance as nat),
            (remaining - distance) as nat,
        )
    } else {
        0
    }
}

/// The date on which the counter's walk ends: the last reset that it steps
/// to, or `cursor` itself where it makes no step.
pub open spec fn walk_cursor(schedule: RotationSchedule, cursor: Date, remaining: nat) -> Date
    decreases remaining,
{
    let distance = boundary_distance(schedule, cursor);
    if 1 <= distance <= remaining {
        walk_cursor(schedule, cursor.plus_days(distance as nat), (remaining - distance) as nat)
    } else {
        cursor
    }
}

/// The result of counting: how many resets fall within the span, and the date
/// of the last of them (the start date where there is none).
#[derive(Clone, Copy, Debug, PartialEq, Eq)]
pub struct RotationCount {
    /// The number of resets within the span.
    pub count: u32,
    /// The date of the last reset within the span, or the start date.
    pub cursor: CalendarDate,
}

/// The next reset is at least one day and less than two months away.
pub proof fn lemma_boundary_distance(schedule: RotationSchedule, date: Date)
    requires
        schedule.wf(),
        date.valid(),
    ensures
        1 <= boundary_distance(schedule, date) <= 58,
{
}

/// The month-start schedule is the mid-month schedule of day 1.
pub proof fn lemma_month_start_is_day_one(date: Date)
    requires
        date.valid(),
    ensures
        boundary_distance(RotationSchedule::MonthStart, date) == boundary_distance(
            RotationSchedule::MidMonth { day: 1 },
            date,
        ),
        next_reset(RotationSchedule::MonthStart, date) == next_reset(
            RotationSchedule::MidMonth { day: 1 },
            date,
        ),
{
}

/// The distance to the next reset leads to the date of the next reset, which
/// is a day on which the schedule resets, and is the number of days between
/// the two dates.
pub proof fn lemma_next_reset(schedule: RotationSchedule, date: Date)
    requires
        schedule.wf(),
        date.valid(),
    ensures
        date.plus_days(boundary_distance(schedule, date) as nat) == next_reset(schedule, date),
        next_reset(schedule, date).valid(),
        resets_on(schedule, next_reset(schedule, date)),
        boundary_distance(schedule, date) == days_between(date, next_reset(schedule, date)),
{
    let distance = boundary_distance(schedule, date) as nat;
    let day = schedule.reset_day();
    if date.day < day {
        lemma_plus_days_same_month(date, distance);
    } else {
        let to_first = (days_in_month(date.year, date.month) - date.day + 1) as nat;
        lemma_plus_days_next_month(date);
        lemma_plus_days_sum(date, to_first, (day - 1) as nat);
        lemma_plus_days_same_month(date.first_of_next_month(), (day - 1) as nat);
    }
    lemma_plus_days(date, distance);
}

/// The schedule does not reset on any day before the next reset.
pub proof fn lemma_no_reset_before_next(schedule: RotationSchedule, date: Date, days: nat)
    requires
        schedule.wf(),
        date.valid(),
        1 <= days < boundary_distance(schedule, date),
    ensures
        !resets_on(schedule, date.plus_days(days)),
{
    let left = days_in_month(date.year, date.month) - date.day;
    if days <= left {
        lemma_plus_days_same_month(date, days);
    } else {
        let into_next = (days - left - 1) as nat;
        lemma_plus_days_next_month(date);
        lemma_plus_days_sum(date, (left + 1) as nat, into_next);
        lemma_plus_days_same_month(date.first_of_next_month(), into_next);
    }
}

/// A span that ends before the next reset holds no reset.
pub proof fn lemma_no_resets_before_next(schedule: RotationSchedule, start: Date, days: nat)
    requires
        schedule.wf(),
        start.valid(),
        days < boundary_distance(schedule, start),
    ensures
        resets_within(schedule, start, days) == 0,
        last_reset_within(schedule, start, days) == start,
    decreases days,
{
    if days > 0 {
        lemma_no_reset_before_next(schedule, start, days);
        lemma_no_resets_before_next(schedule, start, (days - 1) as nat);
    }
}

/// The resets of a span are those of its first days and those of the days
/// after them; the last reset lies among the later days where they hold one,
/// and among the first days otherwise.
pub proof fn lemma_resets_within_split(
    schedule: RotationSchedule,
    start: Date,
    first: nat,
    rest: nat,
)
    ensures
        resets_within(schedule, start, first + rest) == resets_within(schedule, start, first)
            + resets_within(schedule, start.plus_days(first), rest),
        resets_within(schedule, start.plus_days(first), rest) > 0 ==> last_reset_within(
            schedule,
            start,
            first + rest,
        ) == last_reset_within(schedule, start.plus_days(first), rest),
        resets_within(schedule, start.plus_days(first), rest) == 0 ==> last_reset_within(
            schedule,
            start,
            first + rest,
        ) == last_reset_within(schedule, start, first),
    decreases rest,
{
    if rest > 0 {
        lemma_resets_within_split(schedule, start, first, (rest - 1) as nat);
        lemma_plus_days_sum(start, first, rest);
    }
}

/// The last reset of a span without resets is the start date.
pub proof fn lemma_last_reset_of_none(schedule: RotationSchedule, start: Date, days: nat)
    requires
        resets_within(schedule, start, days) == 0,
    ensures
        last_reset_within(schedule, start, days) == start,
    decreases days,
{
    if days > 0 {
        lemma_last_reset_of_none(schedule, start, (days - 1) as nat);
    }
}

/// The walk from reset to reset counts the resets of the span, and ends on
/// the last of them.
pub proof fn lemma_walk_counts_resets(schedule: RotationSchedule, start: Date, days: nat)
    requires
        schedule.wf(),
        start.valid(),
    ensures
        walk_count(schedule, start, days) == resets_within(schedule, start, days),
        walk_cursor(schedule, start, days) == last_reset_within(schedule, start, days),
    decreases days,
{
    let distance = boundary_distance(schedule, start) as nat;
    lemma_boundary_distance(schedule, start);
    if distance <= days {
        let landing = start.plus_days(distance);
        let rest = (days - distance) as nat;
        lemma_next_reset(schedule, start);
        lemma_no_resets_before_next(schedule, start, (distance - 1) as nat);
        lemma_walk_counts_resets(schedule, landing, rest);
        lemma_resets_within_split(schedule, start, distance, rest);
        if resets_within(schedule, landing, rest) == 0 {
            lemma_last_reset_of_none(schedule, landing, rest);
        }
    } else {
        lemma_no_resets_before_next(schedule, start, days);
    }
}

/// The walk ends on a valid date, not in an earlier year than it began, and
/// makes at most one step per day.
pub proof fn lemma_walk_end(schedule: RotationSchedule, cursor: Date, remaining: nat)
    requires
        schedule.wf(),
        cursor.valid(),
    ensures
        walk_cursor(schedule, cursor, remaining).valid(),
        walk_cursor(schedule, cursor, remaining).year >= cursor.year,
        walk_count(schedule, cursor, remaining) <= remaining,
    decreases remaining,
{
    let distance = boundary_distance(schedule, cursor);
    if 1 <= distance <= remaining {
        lemma_plus_days(cursor, distance as nat);
        lemma_walk_end(
            schedule,
            cursor.plus_days(distance as nat),
            (remaining - distance) as nat,
        );
    }
}

/// A longer span never holds fewer resets than a shorter one from the same
/// start, and its last reset never lies in an earlier year.
pub proof fn lemma_resets_monotonic(
    schedule: RotationSchedule,
    start: Date,
    shorter: nat,
    longer: nat,
)
    requires
        start.valid(),
        shorter <= longer,
    ensures
        resets_within(schedule, start, shorter) <= resets_within(schedule, start, longer),
        last_reset_within(schedule, start, shorter).year <= last_reset_within(
            schedule,
            start,
            longer,
        ).year,
    decreases longer,
{
    if shorter < longer {
        lemma_resets_monotonic(schedule, start, shorter, (longer - 1) as nat);
        lemma_last_reset_year(schedule, start, (longer - 1) as nat);
        lemma_plus_days(start, (longer - 1) as nat);
        lemma_plus_days_sum(start, (longer - 1) as nat, 1);
        lemma_plus_one_day(start.plus_days((longer - 1) as nat));
    }
}

/// The last reset of a span is a valid date between its start and its end.
pub proof fn lemma_last_reset_year(schedule: RotationSchedule, start: Date, days: nat)
    requires
        start.valid(),
    ensures
        last_reset_within(schedule, start, days).valid(),
        start.year <= last_reset_within(schedule, start, days).year <= start.plus_days(days).year,
    decreases days,
{
    lemma_plus_days(start, days);
    if days > 0 {
        lemma_last_reset_year(schedule, start, (days - 1) as nat);
        lemma_plus_days(start, (days - 1) as nat);
        lemma_plus_days_sum(start, (days - 1) as nat, 1);
        lemma_plus_one_day(start.plus_days((days - 1) as nat));
    }
}

/// Where a span from a supported start can be counted, every shorter span
/// from that start can be counted too, and its count is no larger.
pub proof fn lemma_count_outcome_monotonic(
    schedule: RotationSchedule,
    start: Date,
    shorter: nat,
    longer: nat,
)
    requires
        supported(start),
        shorter <= longer,
        count_outcome(schedule, start, longer) is Ok,
    ensures
        count_outcome(schedule, start, shorter) is Ok,
        count_outcome(schedule, start, shorter).unwrap() <= count_outcome(
            schedule,
            start,
            longer,
        ).unwrap(),
{
    lemma_last_reset_year(schedule, start, shorter);
    lemma_resets_monotonic(schedule, start, shorter, longer);
}

/// A span of no days holds no reset, whatever the schedule and the start.
pub proof fn lemma_no_days_no_resets(schedule: RotationSchedule, start: Date)
    ensures
        resets_within(schedule, start, 0) == 0,
        last_reset_within(schedule, start, 0) == start,
{
}

/// The boundary is inclusive: a span that ends on the day of the next reset
/// holds that reset, and a span one day shorter holds none.
pub proof fn lemma_boundary_inclusive(schedule: RotationSchedule, start: Date)
    requires
        schedule.wf(),
        start.valid(),
    ensures
        resets_within(schedule, start, boundary_distance(schedule, start) as nat) == 1,
        resets_within(schedule, start, (boundary_distance(schedule, start) - 1) as nat) == 0,
{
    lemma_boundary_distance(schedule, start);
    lemma_next_reset(schedule, start);
    lemma_no_resets_before_next(
        schedule,
        start,
        (boundary_distance(schedule, start) - 1) as nat,
    );
}

/// The number of days from `cursor` to the next reset of `schedule`.
pub fn distance_to_next_boundary(schedule: RotationSchedule, cursor: CalendarDate) -> (distance: u32)
    requires
        schedule.wf(),
    ensures
        distance == boundary_distance(schedule, cursor@),
        1 <= distance <= 58,
{
    let cursor_day: u32 = cursor.day();
    match schedule {
        RotationSchedule::MidMonth { day } => {
            if cursor_day < day {
                day - cursor_day
            } else {
                last_day_of_month(cursor.year(), cursor.month()) - cursor_day + day
            }
        },
        RotationSchedule::MonthStart => {
            last_day_of_month(cursor.year(), cursor.month()) - cursor_day + 1
        },
    }
}

/// Counts the resets of `schedule` within `days` days from `start`.
///
/// The counter steps from reset to reset while the days that are left reach
/// the next one, so a reset on the last day counts and a span of no days
/// counts none. It fails with [`EstimateError::CalendarOverflow`] exactly when
/// the last reset of the span lies after the supported years.
pub fn rotation_count(schedule: RotationSchedule, start: CalendarDate, days: u32) -> (r: Result<
    RotationCount,
    EstimateError,
>)
    requires
        schedule.wf(),
    ensures
        r is Ok <==> supported(last_reset_within(schedule, start@, days as nat)),
        r matches Ok(counted) ==> counted.count == resets_within(schedule, start@, days as nat),
        r matches Ok(counted) ==> counted.cursor@ == last_reset_within(
            schedule,
            start@,
            days as nat,
        ),
        r matches Err(e) ==> e == EstimateError::CalendarOverflow,
{
    proof {
        use_type_invariant(&start);
    }
    let mut cursor: CalendarDate = start;
    let mut remaining: u32 = days;
    let mut count: u32 = 0;
    let mut distance: u32 = distance_to_next_boundary(schedule, cursor);
    while remaining >= distance
        invariant
            schedule.wf(),
            supported(start@),
            supported(cursor@),
            distance == boundary_distance(schedule, cursor@),
            1 <= distance,
            count + remaining <= days,
            walk_count(schedule, start@, days as nat) == count + walk_count(
                schedule,
                cursor@,
                remaining as nat,
            ),
            walk_cursor(schedule, start@, days as nat) == walk_cursor(
                schedule,
                cursor@,
                remaining as nat,
            ),
        decreases remaining,
    {
        proof {
            lemma_walk_counts_resets(schedule, start@, days as nat);
            lemma_plus_days(cursor@, distance as nat);
            lemma_walk_end(
                schedule,
                cursor@.plus_days(distance as nat),
                (remaining - distance) as nat,
            );
        }
        match advance_days(cursor, distance as u64) {
            Ok(next) => {
                cursor = next;
            },
            Err(e) => {
                return Err(e);
            },
        }
        count = count + 1;
        remaining = remaining - distance;
        distance = distance_to_next_boundary(schedule, cursor);
    }
    proof {
        lemma_walk_counts_resets(schedule, start@, days as nat);
    }
    Ok(RotationCount { count, cursor })
}

/// Counts the resets of `schedule` within `days` days from today, with the
/// clock read once.
fn rotation_count_from_today(schedule: RotationSchedule, days: u32) -> (r: Result<
    u32,
    EstimateError,
>)
    requires
        schedule.wf(),
    ensures
        counted_from_today(schedule, days as nat, r),
{
    let start: CalendarDate = match today() {
        Ok(date) => date,
        Err(e) => {
            return Err(e);
        },
    };
    match rotation_count(schedule, start, days) {
        Ok(counted) => {
            assert(count_outcome(schedule, start@, days as nat) == Ok::<nat, EstimateError>(
                counted.count as nat,
            ));
            Ok(counted.count)
        },
        Err(e) => Err(e),
    }
}

/// The number of resets of the mid-month event, on day 16 of each month,
/// within `days` days from today.
pub fn get_abyss_rotation_count(days: u32) -> (r: Result<u32, EstimateError>)
    ensures
        counted_from_today(RotationSchedule::MidMonth { day: ABYSS_RESET_DAY }, days as nat, r),
{
    rotation_count_from_today(RotationSchedule::abyss(), days)
}

/// The number of resets of the month-start stage event within `days` days from
/// today.
pub fn get_imaginarium_theater_rotation_count(days: u32) -> (r: Result<u32, EstimateError>)
    ensures
        counted_from_today(RotationSchedule::MonthStart, days as nat, r),
{
    rotation_count_from_today(RotationSchedule::month_start(), days)
}

/// The number of shop resets, on the first day of each month, within `days`
/// days from today.
pub fn get_shop_reset_count(days: u32) -> (r: Result<u32, EstimateError>)
    ensures
        counted_from_today(RotationSchedule::MonthStart, days as nat, r),
{
    rotation_count_from_today(RotationSchedule::month_start(), days)
}

} // verus!
