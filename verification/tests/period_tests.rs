use std::ops::Add;

use chrono::TimeDelta;
use leaderboard::db::ResetDate;
use leaderboard::server::{
    ApiResetAgentPeriodFilterBody, RangeSelectionMode, extract_reset_period,
    extract_reset_period_from_filter, safe_range,
};
use leaderboard::time::{CalendarDate, Timestamp};

fn last_week_test_data() -> ApiResetAgentPeriodFilterBody {
    ApiResetAgentPeriodFilterBody {
        agent_symbols: vec![],
        event_time_minutes_lte: TimeDelta::weeks(1).num_minutes() as u32,
        event_time_minutes_gte: None,
        selection_mode: RangeSelectionMode::Last,
    }
}

fn last_day_test_data() -> ApiResetAgentPeriodFilterBody {
    ApiResetAgentPeriodFilterBody {
        agent_symbols: vec![],
        event_time_minutes_lte: TimeDelta::days(1).num_minutes() as u32,
        event_time_minutes_gte: None,
        selection_mode: RangeSelectionMode::Last,
    }
}

#[test]
fn test_last_week_of_reset_when_reset_is_less_than_one_week_old() {
    let age_of_reset = TimeDelta::days(4).add(TimeDelta::hours(19));
    let data = last_week_test_data();
    let actual = extract_reset_period(
        RangeSelectionMode::Last,
        data.event_time_minutes_gte,
        data.event_time_minutes_lte,
        age_of_reset.num_minutes() as u32,
    );
    assert_eq!(actual.resolution_minutes, 60);
    assert_eq!(actual.from_event_time_minutes, 0);
    assert_eq!(actual.to_event_time_minutes, age_of_reset.num_minutes());
}

#[test]
fn test_last_day_of_reset_when_reset_is_one_week_old() {
    let age_of_reset = TimeDelta::days(7);
    let data = last_day_test_data();
    let actual = extract_reset_period(
        RangeSelectionMode::Last,
        data.event_time_minutes_gte,
        data.event_time_minutes_lte,
        age_of_reset.num_minutes() as u32,
    );
    assert_eq!(actual.resolution_minutes, 60);
    assert_eq!(actual.from_event_time_minutes, TimeDelta::days(6).num_minutes());
    assert_eq!(actual.to_event_time_minutes, age_of_reset.num_minutes());
}

#[test]
fn last_mode_uses_the_whole_epoch_when_it_is_younger_than_the_span() {
    let actual = extract_reset_period(RangeSelectionMode::Last, None, 10080, 6900);
    assert_eq!(actual.from_event_time_minutes, 0);
    assert_eq!(actual.to_event_time_minutes, 6900);
}

#[test]
fn last_mode_reaches_back_from_the_age_of_the_epoch() {
    let actual = extract_reset_period(RangeSelectionMode::Last, None, 1440, 10080);
    assert_eq!(actual.from_event_time_minutes, 8640);
    assert_eq!(actual.to_event_time_minutes, 10080);
}

#[test]
fn last_mode_ignores_the_lower_bound() {
    let actual = extract_reset_period(RangeSelectionMode::Last, Some(5000), 1440, 10080);
    assert_eq!(actual.from_event_time_minutes, 8640);
    assert_eq!(actual.to_event_time_minutes, 10080);
}

#[test]
fn resolution_changes_at_six_hours_and_at_one_day() {
    let width = |w: u32| extract_reset_period(RangeSelectionMode::First, None, w, 0).resolution_minutes;
    assert_eq!(width(359), 5);
    assert_eq!(width(360), 15);
    assert_eq!(width(1439), 15);
    assert_eq!(width(1440), 60);
}

#[test]
fn a_window_without_width_is_sampled_every_five_minutes() {
    let actual = extract_reset_period(RangeSelectionMode::First, Some(77), 77, 500);
    assert_eq!(actual.from_event_time_minutes, 77);
    assert_eq!(actual.to_event_time_minutes, 77);
    assert_eq!(actual.resolution_minutes, 5);
}

#[test]
fn first_mode_starts_at_zero_without_a_lower_bound() {
    let actual = extract_reset_period(RangeSelectionMode::First, None, 600, 99999);
    assert_eq!(actual.from_event_time_minutes, 0);
    assert_eq!(actual.to_event_time_minutes, 600);
    assert_eq!(actual.resolution_minutes, 15);
}

#[test]
fn first_mode_swaps_inverted_bounds() {
    let actual = extract_reset_period(RangeSelectionMode::First, Some(900), 100, 99999);
    assert_eq!(actual.from_event_time_minutes, 100);
    assert_eq!(actual.to_event_time_minutes, 900);
    assert_eq!(actual.resolution_minutes, 15);
}

#[test]
fn bounds_at_the_end_of_the_range_do_not_overflow() {
    let actual = extract_reset_period(RangeSelectionMode::First, Some(0), u32::MAX, 0);
    assert_eq!(actual.from_event_time_minutes, 0);
    assert_eq!(actual.to_event_time_minutes, 4_294_967_295);
    assert_eq!(actual.resolution_minutes, 60);
}

#[test]
fn safe_range_orders_its_bounds() {
    let r = safe_range(9, 4);
    assert_eq!((*r.start(), *r.end()), (4, 9));
    let r = safe_range(4, 9);
    assert_eq!((*r.start(), *r.end()), (4, 9));
    let r = safe_range(6, 6);
    assert_eq!((*r.start(), *r.end()), (6, 6));
}

#[test]
fn the_age_of_the_epoch_is_the_span_of_its_observations() {
    let first = Timestamp::new(1_710_000_000, 0);
    let latest = Timestamp::new(1_710_000_000 + 6900 * 60 + 59, 999_999_999);
    let epoch = ResetDate {
        reset_id: 1,
        reset: CalendarDate::new(2024, 3, 10),
        first_ts: first,
        latest_ts: latest,
        is_ongoing: true,
    };
    let actual = extract_reset_period_from_filter(&last_week_test_data(), epoch);
    assert_eq!(actual.from_event_time_minutes, 0);
    assert_eq!(actual.to_event_time_minutes, 6900);
    assert_eq!(actual.resolution_minutes, 60);
    let actual = extract_reset_period_from_filter(&last_day_test_data(), epoch);
    assert_eq!(actual.from_event_time_minutes, 6900 - 1440);
    assert_eq!(actual.to_event_time_minutes, 6900);
}
