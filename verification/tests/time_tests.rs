use chrono::{DateTime, NaiveDate, TimeDelta};
use leaderboard::api::ApiResetDate;
use leaderboard::time::{
    CalendarDate, Timestamp, duration_minutes, event_time_minutes, parse_reset_date,
};

fn instant(seconds: i64, nanos: u32) -> (Timestamp, chrono::NaiveDateTime) {
    (Timestamp::new(seconds, nanos), DateTime::from_timestamp(seconds, nanos).unwrap().naive_utc())
}

#[test]
fn reset_dates_are_read_as_year_month_and_day() {
    assert_eq!(parse_reset_date("2024-03-10"), Some(CalendarDate::new(2024, 3, 10)));
    assert_eq!(parse_reset_date("2024-02-29"), Some(CalendarDate::new(2024, 2, 29)));
    assert_eq!(parse_reset_date("1999-12-31"), Some(CalendarDate::new(1999, 12, 31)));
    assert_eq!(parse_reset_date("2023-02-29"), None);
    assert_eq!(parse_reset_date("2024-13-01"), None);
    assert_eq!(parse_reset_date("2024-03"), None);
    assert_eq!(parse_reset_date("10.03.2024"), None);
    assert_eq!(parse_reset_date(""), None);
}

#[test]
fn reset_dates_are_written_as_year_month_and_day() {
    assert_eq!(ApiResetDate::try_from(CalendarDate::new(2024, 3, 10)).unwrap().0, "2024-03-10");
    assert_eq!(ApiResetDate::try_from(CalendarDate::new(2024, 12, 1)).unwrap().0, "2024-12-01");
    assert!(ApiResetDate::try_from(CalendarDate::new(2024, 2, 30)).is_err());
    assert!(ApiResetDate::try_from(CalendarDate::new(2024, 0, 1)).is_err());
    assert!(ApiResetDate::try_from(CalendarDate::new(2024, 1, 0)).is_err());
}

#[test]
fn a_date_that_was_written_reads_back() {
    for (y, m, d) in [(2024, 3, 10), (2000, 2, 29), (1970, 1, 1), (9999, 12, 31)] {
        let date = CalendarDate::new(y, m, d);
        let text = ApiResetDate::try_from(date).unwrap().0;
        assert_eq!(text, NaiveDate::from_ymd_opt(y, m, d).unwrap().format("%Y-%m-%d").to_string());
        assert_eq!(parse_reset_date(&text), Some(date));
    }
}

#[test]
fn event_time_counts_as_the_calendar_library_does() {
    let samples = [
        (0, 0),
        (59, 999_999_999),
        (60, 0),
        (61, 1),
        (-1, 0),
        (-60, 0),
        (-61, 999_999_999),
        (1_710_000_000, 123_456_789),
        (1_710_413_999, 999_999_999),
        (1_710_414_000, 0),
        (-86_400, 500_000_000),
    ];
    for (s1, n1) in samples {
        for (s2, n2) in samples {
            let (first, first_naive) = instant(s1, n1);
            let (later, later_naive) = instant(s2, n2);
            let expected = (later_naive - first_naive).num_minutes();
            assert_eq!(event_time_minutes(first, later), expected);
            assert_eq!(duration_minutes(first, later), expected.abs() as u32);
        }
    }
}

#[test]
fn six_hours_and_one_day_in_minutes() {
    assert_eq!(leaderboard::server::SIX_HOURS_MINUTES, TimeDelta::hours(6).num_minutes());
    assert_eq!(leaderboard::server::ONE_DAY_MINUTES, TimeDelta::days(1).num_minutes());
}
