use primobot::date::{
    advance_days, days_between_dates, last_day_of_month, today, CalendarDate, MAX_YEAR, MIN_YEAR,
};
use primobot::error::EstimateError;

fn date(year: i32, month: u32, day: u32) -> CalendarDate {
    CalendarDate::from_ymd(year, month, day).unwrap()
}

#[test]
fn from_ymd_keeps_year_month_and_day() {
    let d = date(2024, 2, 29);
    assert_eq!(d.year(), 2024);
    assert_eq!(d.month(), 2);
    assert_eq!(d.day(), 29);
}

#[test]
fn from_ymd_refuses_days_that_do_not_exist() {
    assert_eq!(CalendarDate::from_ymd(2023, 2, 29), None);
    assert_eq!(CalendarDate::from_ymd(2023, 4, 31), None);
    assert_eq!(CalendarDate::from_ymd(2023, 0, 1), None);
    assert_eq!(CalendarDate::from_ymd(2023, 13, 1), None);
    assert_eq!(CalendarDate::from_ymd(2023, 1, 0), None);
    assert_eq!(CalendarDate::from_ymd(2023, 1, 32), None);
    assert_eq!(CalendarDate::from_ymd(1900, 2, 29), None);
}

#[test]
fn from_ymd_accepts_leap_days() {
    assert!(CalendarDate::from_ymd(2000, 2, 29).is_some());
    assert!(CalendarDate::from_ymd(2024, 2, 29).is_some());
    assert!(CalendarDate::from_ymd(0, 2, 29).is_some());
    assert!(CalendarDate::from_ymd(-4, 2, 29).is_some());
}

#[test]
fn from_ymd_stops_at_the_supported_years() {
    assert!(CalendarDate::from_ymd(MIN_YEAR, 1, 1).is_some());
    assert!(CalendarDate::from_ymd(MAX_YEAR, 12, 31).is_some());
    assert_eq!(CalendarDate::from_ymd(MIN_YEAR - 1, 12, 31), None);
    assert_eq!(CalendarDate::from_ymd(MAX_YEAR + 1, 1, 1), None);
    assert_eq!(CalendarDate::from_ymd(i32::MAX, 1, 1), None);
    assert_eq!(CalendarDate::from_ymd(i32::MIN, 1, 1), None);
}

#[test]
fn last_day_of_february_follows_the_leap_years() {
    assert_eq!(last_day_of_month(2024, 2), 29);
    assert_eq!(last_day_of_month(2023, 2), 28);
    assert_eq!(last_day_of_month(2000, 2), 29);
    assert_eq!(last_day_of_month(1900, 2), 28);
    assert_eq!(last_day_of_month(2100, 2), 28);
}

#[test]
fn last_day_of_december_is_reached_over_the_new_year() {
    assert_eq!(last_day_of_month(2024, 12), 31);
    assert_eq!(last_day_of_month(MAX_YEAR, 12), 31);
    assert_eq!(last_day_of_month(MIN_YEAR, 12), 31);
}

#[test]
fn last_day_of_every_month_of_a_common_year() {
    let expected = [31, 28, 31, 30, 31, 30, 31, 31, 30, 31, 30, 31];
    for month in 1..=12u32 {
        assert_eq!(last_day_of_month(2023, month), expected[(month - 1) as usize]);
    }
}

#[test]
fn last_day_of_month_lies_between_28_and_31() {
    for year in [MIN_YEAR, -1, 0, 1, 1999, 2024, MAX_YEAR] {
        for month in 1..=12u32 {
            let last = last_day_of_month(year, month);
            assert!(28 <= last && last <= 31);
        }
    }
}

#[test]
fn days_between_a_date_and_itself_is_zero() {
    for d in [date(2024, 2, 29), date(1, 1, 1), date(MIN_YEAR, 1, 1), date(MAX_YEAR, 12, 31)] {
        assert_eq!(days_between_dates(d, d), 0);
    }
}

#[test]
fn days_between_changes_sign_when_the_ends_are_swapped() {
    let a = date(2023, 11, 5);
    let b = date(2024, 3, 1);
    assert_eq!(days_between_dates(a, b), 117);
    assert_eq!(days_between_dates(b, a), -117);
}

#[test]
fn days_between_counts_over_years_and_leap_days() {
    assert_eq!(days_between_dates(date(2024, 1, 1), date(2025, 1, 1)), 366);
    assert_eq!(days_between_dates(date(2023, 1, 1), date(2024, 1, 1)), 365);
    assert_eq!(days_between_dates(date(2023, 12, 31), date(2024, 1, 1)), 1);
    assert_eq!(days_between_dates(date(2024, 2, 28), date(2024, 3, 1)), 2);
    assert_eq!(days_between_dates(date(1, 1, 1), date(1970, 1, 1)), 719_162);
    assert_eq!(days_between_dates(date(0, 1, 1), date(1, 1, 1)), 366);
    assert_eq!(days_between_dates(date(2000, 1, 1), date(2400, 1, 1)), 146_097);
}

#[test]
fn days_between_the_first_and_the_last_supported_date() {
    let first = date(MIN_YEAR, 1, 1);
    let last = date(MAX_YEAR, 12, 31);
    assert_eq!(days_between_dates(first, last), 191_491_163);
    assert_eq!(days_between_dates(last, first), -191_491_163);
}

#[test]
fn advance_days_rolls_over_months_and_years() {
    assert_eq!(advance_days(date(2022, 2, 20), 9), Ok(date(2022, 3, 1)));
    assert_eq!(advance_days(date(2022, 7, 31), 2), Ok(date(2022, 8, 2)));
    assert_eq!(advance_days(date(2023, 12, 31), 1), Ok(date(2024, 1, 1)));
    assert_eq!(advance_days(date(2024, 2, 28), 1), Ok(date(2024, 2, 29)));
    assert_eq!(advance_days(date(2023, 2, 28), 1), Ok(date(2023, 3, 1)));
    assert_eq!(advance_days(date(2024, 1, 1), 3653), Ok(date(2034, 1, 1)));
}

#[test]
fn advance_days_by_nothing_is_the_same_date() {
    let d = date(2024, 5, 17);
    assert_eq!(advance_days(d, 0), Ok(d));
}

#[test]
fn advance_days_agrees_with_days_between() {
    let start = date(2019, 6, 30);
    for n in [0u64, 1, 27, 28, 29, 30, 31, 59, 365, 366, 1000, 36_525] {
        let later = advance_days(start, n).unwrap();
        assert_eq!(days_between_dates(start, later), n as i64);
    }
}

#[test]
fn advance_days_fails_past_the_last_supported_year() {
    let last = date(MAX_YEAR, 12, 31);
    assert_eq!(advance_days(last, 0), Ok(last));
    assert_eq!(advance_days(last, 1), Err(EstimateError::CalendarOverflow));
    assert_eq!(advance_days(last, 365), Err(EstimateError::CalendarOverflow));
    assert_eq!(advance_days(last, 366), Err(EstimateError::CalendarOverflow));
    assert_eq!(advance_days(date(2024, 1, 1), u64::MAX), Err(EstimateError::CalendarOverflow));
    assert_eq!(
        advance_days(date(2024, 1, 1), 1_000_000_000_000),
        Err(EstimateError::CalendarOverflow)
    );
    assert_eq!(advance_days(date(MAX_YEAR, 12, 30), 1), Ok(last));
}

#[test]
fn today_is_a_supported_date() {
    let now = today().unwrap();
    assert!(MIN_YEAR <= now.year() && now.year() <= MAX_YEAR);
    assert!(1 <= now.month() && now.month() <= 12);
    assert!(1 <= now.day() && now.day() <= last_day_of_month(now.year(), now.month()));
    assert!(now.year() >= 2024);
}
