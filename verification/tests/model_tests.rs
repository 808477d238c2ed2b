use leaderboard::model::{
    GetMeta, ListWaypointsInSystemResponse, Meta, WaypointSymbol, extract_system_symbol,
};
use leaderboard::time::{Timestamp, duration_minutes, event_time_minutes};

#[test]
fn system_symbol_is_the_first_two_segments() {
    let system = extract_system_symbol(&WaypointSymbol("X1-ND96-I52".to_string()));
    assert_eq!(system.map(|s| s.0), Some("X1-ND96".to_string()));
}

#[test]
fn system_symbol_of_a_two_segment_symbol_is_the_symbol() {
    let system = extract_system_symbol(&WaypointSymbol("X1-ND96".to_string()));
    assert_eq!(system.map(|s| s.0), Some("X1-ND96".to_string()));
}

#[test]
fn single_segment_names_no_system() {
    assert!(extract_system_symbol(&WaypointSymbol("X1".to_string())).is_none());
    assert!(extract_system_symbol(&WaypointSymbol(String::new())).is_none());
}

#[test]
fn listing_hands_out_its_meta() {
    let page = ListWaypointsInSystemResponse { data: vec![], meta: Meta { total: 47, page: 1, limit: 20 } };
    assert_eq!(page.get_meta(), Meta { total: 47, page: 1, limit: 20 });
}

#[test]
fn event_time_is_whole_minutes_since_first_observation() {
    let first = Timestamp::new(1_000, 500_000_000);
    assert_eq!(event_time_minutes(first, Timestamp::new(1_000 + 299, 499_999_999)), 4);
    assert_eq!(event_time_minutes(first, Timestamp::new(1_000 + 300, 500_000_000)), 5);
    assert_eq!(event_time_minutes(first, Timestamp::new(1_000 - 60, 0)), -1);
    assert_eq!(event_time_minutes(first, Timestamp::new(1_000 - 59, 0)), 0);
    assert_eq!(duration_minutes(Timestamp::new(600, 0), Timestamp::new(0, 0)), 10);
}
