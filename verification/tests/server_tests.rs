use leaderboard::api::{
    ApiAgentHistoryEntry, ApiAllTimeConstructionLeaderboardEntry, ApiAllTimePerformanceEntry,
    ApiConstructionMaterialHistoryEntry, ApiConstructionMaterialMostRecentProgressEntry,
    ApiJumpGateAssignmentEntry, ApiJumpGateConstructionEventOverviewEntry, ApiLeaderboardEntry,
    ApiResetDate, ApiResetDateMeta, agents_in_csv, to_u32, to_u32_if_any,
};
use leaderboard::db::{
    DbAgentHistoryEntry, DbAllTimePerformanceEntry, DbConstructionLeaderboardEntry,
    DbConstructionMaterialHistoryEntry, DbConstructionMaterialMostRecentStatus,
    DbJumpGateAssignmentEntry, DbJumpGateConstructionEventOverviewEntry, LeaderboardEntry,
    ResetDate,
};
use leaderboard::time::{CalendarDate, Timestamp};

fn names(agents: &[leaderboard::api::ApiAgentSymbol]) -> Vec<&str> {
    agents.iter().map(|a| a.0.as_str()).collect()
}

fn construction_row() -> DbConstructionLeaderboardEntry {
    DbConstructionLeaderboardEntry {
        reset_date: CalendarDate::new(2024, 3, 10),
        ts_start_of_reset: Timestamp::new(100, 0),
        jump_gate_waypoint_symbol: "X1-AA1-I9".to_string(),
        agents_in_system_csv: "A,B".to_string(),
        ts_start_jump_gate_construction: Timestamp::new(400, 0),
        ts_finish_jump_gate_construction: Some(Timestamp::new(9000, 0)),
        duration_minutes_start_fortnight_start_jump_gate_construction: 5,
        duration_minutes_start_fortnight_finish_jump_gate_construction: Some(148),
        duration_minutes_jump_gate_construction: Some(143),
        rank_jump_gate_construction: 1,
        rank_start_fortnight_start_jump_gate_construction: 2,
        rank_start_fortnight_finish_jump_gate_construction: 3,
    }
}

#[test]
fn numbers_are_narrowed_where_they_fit() {
    assert_eq!(to_u32(0), Some(0));
    assert_eq!(to_u32(4_294_967_295), Some(u32::MAX));
    assert_eq!(to_u32(4_294_967_296), None);
    assert_eq!(to_u32(-1), None);
    assert_eq!(to_u32_if_any(None), None);
    assert_eq!(to_u32_if_any(Some(12)), Some(12));
    assert_eq!(to_u32_if_any(Some(-12)), None);
}

#[test]
fn agents_are_read_from_a_comma_separated_list() {
    assert_eq!(names(&agents_in_csv("A,B,C")), vec!["A", "B", "C"]);
    assert_eq!(names(&agents_in_csv("FLWI")), vec!["FLWI"]);
    assert_eq!(names(&agents_in_csv("")), vec![""]);
}

#[test]
fn an_epoch_is_listed_with_its_date_as_text_and_its_age() {
    let meta = ApiResetDateMeta::try_from(ResetDate {
        reset_id: 3,
        reset: CalendarDate::new(2024, 3, 10),
        first_ts: Timestamp::new(1_000, 0),
        latest_ts: Timestamp::new(1_000 + 3 * 60 * 60, 0),
        is_ongoing: false,
    })
    .unwrap();
    assert_eq!(meta.reset_date.0, "2024-03-10");
    assert_eq!(meta.first_ts, Timestamp::new(1_000, 0));
    assert_eq!(meta.latest_ts, Timestamp::new(11_800, 0));
    assert_eq!(meta.duration_minutes, 180);
    assert!(!meta.is_ongoing);
}

#[test]
fn a_date_that_is_no_day_has_no_listing() {
    let r = ApiResetDateMeta::try_from(ResetDate {
        reset_id: 3,
        reset: CalendarDate::new(2023, 2, 29),
        first_ts: Timestamp::new(0, 0),
        latest_ts: Timestamp::new(0, 0),
        is_ongoing: true,
    });
    assert!(r.is_err());
}

#[test]
fn dates_are_written_with_leading_zeros() {
    let entry = ApiAllTimePerformanceEntry::try_from(DbAllTimePerformanceEntry {
        reset: CalendarDate::new(987, 1, 5),
        agent_symbol: "FLWI".to_string(),
        credits: -3,
        rank: 4,
    })
    .unwrap();
    assert_eq!(entry.reset.0, "0987-01-05");
    assert_eq!(entry.agent_symbol.0, "FLWI");
    assert_eq!(entry.credits, -3);
    assert_eq!(entry.rank, 4);
}

#[test]
fn a_rank_beyond_u32_has_no_entry() {
    let r = ApiAllTimePerformanceEntry::try_from(DbAllTimePerformanceEntry {
        reset: CalendarDate::new(2024, 3, 10),
        agent_symbol: "FLWI".to_string(),
        credits: 1,
        rank: 4_294_967_296,
    });
    assert!(r.is_err());
    let r = ApiAllTimePerformanceEntry::try_from(DbAllTimePerformanceEntry {
        reset: CalendarDate::new(2024, 13, 10),
        agent_symbol: "FLWI".to_string(),
        credits: 1,
        rank: 1,
    });
    assert!(r.is_err());
}

#[test]
fn a_leaderboard_line_is_answered_as_stored() {
    let api = ApiLeaderboardEntry::from_entry(&LeaderboardEntry {
        agent_symbol: "FLWI".to_string(),
        credits: 42,
        ship_count: 3,
        agent_headquarters_waypoint_symbol: "X1-AA1-A1".to_string(),
        jump_gate_waypoint_symbol: "X1-AA1-I9".to_string(),
    });
    assert_eq!(api.agent_symbol.0, "FLWI");
    assert_eq!(api.jump_gate_waypoint_symbol.0, "X1-AA1-I9");
    assert_eq!((api.credits, api.ship_count), (42, 3));
}

#[test]
fn an_assignment_names_its_agents_one_by_one() {
    let api = ApiJumpGateAssignmentEntry::from_entry(&DbJumpGateAssignmentEntry {
        reset: CalendarDate::new(2024, 3, 10),
        agent_headquarters_waypoint_symbol: "X1-AA1-A1".to_string(),
        jump_gate_waypoint_symbol: "X1-AA1-I9".to_string(),
        agents_in_system_csv: "A,B,C".to_string(),
    });
    assert_eq!(api.agent_headquarters_waypoint_symbol.0, "X1-AA1-A1");
    assert_eq!(api.jump_gate_waypoint_symbol.0, "X1-AA1-I9");
    assert_eq!(names(&api.agents_in_system), vec!["A", "B", "C"]);
}

#[test]
fn a_material_history_reads_its_lists() {
    let api = ApiConstructionMaterialHistoryEntry::try_from(DbConstructionMaterialHistoryEntry {
        jump_gate_waypoint_symbol: "X1-AA1-I9".to_string(),
        trade_symbol: "FAB_MATS".to_string(),
        required: Some(4000),
        event_time_minutes_csv: Some("0,5,10".to_string()),
        fulfilled_csv: Some("0,120,4000".to_string()),
    })
    .unwrap();
    assert_eq!(api.jump_gate_waypoint_symbol.0, "X1-AA1-I9");
    assert_eq!(api.trade_symbol.0, "FAB_MATS");
    assert_eq!(api.event_times_minutes, vec![0, 5, 10]);
    assert_eq!(api.fulfilled, vec![0, 120, 4000]);
    assert_eq!(api.required, 4000);
}

#[test]
fn a_material_history_without_lists_is_empty() {
    let api = ApiConstructionMaterialHistoryEntry::try_from(DbConstructionMaterialHistoryEntry {
        jump_gate_waypoint_symbol: "X1-AA1-I9".to_string(),
        trade_symbol: "FAB_MATS".to_string(),
        required: None,
        event_time_minutes_csv: None,
        fulfilled_csv: None,
    })
    .unwrap();
    assert!(api.event_times_minutes.is_empty());
    assert!(api.fulfilled.is_empty());
    assert_eq!(api.required, 0);
    let api = ApiConstructionMaterialHistoryEntry::try_from(DbConstructionMaterialHistoryEntry {
        jump_gate_waypoint_symbol: "X1-AA1-I9".to_string(),
        trade_symbol: "FAB_MATS".to_string(),
        required: Some(-1),
        event_time_minutes_csv: Some(String::new()),
        fulfilled_csv: Some("x".to_string()),
    })
    .unwrap();
    assert!(api.event_times_minutes.is_empty());
    assert!(api.fulfilled.is_empty());
    assert_eq!(api.required, 0);
}

#[test]
fn an_agent_history_needs_every_series() {
    let api = ApiAgentHistoryEntry::try_from(DbAgentHistoryEntry {
        agent_symbol: "FLWI".to_string(),
        construction_site_id: Some(1),
        event_times_minutes: Some(vec![0, 5]),
        credits_timeline: Some(vec![100, -100]),
        ship_count_timeline: Some(vec![1, 2]),
    })
    .unwrap();
    assert_eq!(api.agent_symbol.0, "FLWI");
    assert_eq!(api.event_times_minutes, vec![0, 5]);
    assert_eq!(api.credits_timeline, vec![100, -100]);
    assert_eq!(api.ship_count_timeline, vec![1, 2]);
    let r = ApiAgentHistoryEntry::try_from(DbAgentHistoryEntry {
        agent_symbol: "FLWI".to_string(),
        construction_site_id: Some(1),
        event_times_minutes: Some(vec![0, 5]),
        credits_timeline: None,
        ship_count_timeline: Some(vec![1, 2]),
    });
    assert!(r.is_err());
}

fn recent(fulfilled: i64, required: i64) -> DbConstructionMaterialMostRecentStatus {
    DbConstructionMaterialMostRecentStatus {
        reset_id: Some(1),
        reset: Some(CalendarDate::new(2024, 3, 10)),
        ts_start_of_reset: None,
        ts_latest_entry_of_reset: None,
        trade_symbol: "FAB_MATS".to_string(),
        fulfilled,
        required,
        jump_gate_waypoint_symbol: "X1-AA1-I9".to_string(),
        is_jump_gate_complete: true,
    }
}

#[test]
fn the_latest_state_of_a_material_needs_quantities_that_fit() {
    let api = ApiConstructionMaterialMostRecentProgressEntry::try_from(recent(120, 4000)).unwrap();
    assert_eq!(api.trade_symbol.0, "FAB_MATS");
    assert_eq!((api.fulfilled, api.required), (120, 4000));
    assert_eq!(api.jump_gate_waypoint_symbol.0, "X1-AA1-I9");
    assert!(api.is_jump_gate_complete);
    assert!(ApiConstructionMaterialMostRecentProgressEntry::try_from(recent(-1, 4000)).is_err());
    assert!(ApiConstructionMaterialMostRecentProgressEntry::try_from(recent(1, 1 << 40)).is_err());
}

fn overview(fulfilled: Option<i64>, required: i64, complete: Option<bool>) -> DbJumpGateConstructionEventOverviewEntry {
    DbJumpGateConstructionEventOverviewEntry {
        ts_start_of_reset: Timestamp::new(100, 0),
        trade_symbol: "FAB_MATS".to_string(),
        fulfilled,
        required,
        jump_gate_waypoint_symbol: "X1-AA1-I9".to_string(),
        ts_first_construction_event: Timestamp::new(400, 0),
        ts_last_construction_event: None,
        is_jump_gate_complete: complete,
    }
}

#[test]
fn an_overview_counts_what_is_missing_as_nothing() {
    let api = ApiJumpGateConstructionEventOverviewEntry::try_from(overview(None, 4000, None)).unwrap();
    assert_eq!((api.fulfilled, api.required), (0, 4000));
    assert!(!api.is_jump_gate_complete);
    assert_eq!(api.ts_start_of_reset, Timestamp::new(100, 0));
    assert_eq!(api.ts_first_construction_event, Timestamp::new(400, 0));
    assert_eq!(api.ts_last_construction_event, None);
    let api = ApiJumpGateConstructionEventOverviewEntry::try_from(overview(Some(9), 4000, Some(true))).unwrap();
    assert_eq!(api.fulfilled, 9);
    assert!(api.is_jump_gate_complete);
    assert!(ApiJumpGateConstructionEventOverviewEntry::try_from(overview(Some(-9), 4000, None)).is_err());
    assert!(ApiJumpGateConstructionEventOverviewEntry::try_from(overview(Some(9), -4000, None)).is_err());
}

#[test]
fn a_construction_site_is_answered_with_its_ranks() {
    let api = ApiAllTimeConstructionLeaderboardEntry::try_from(construction_row()).unwrap();
    assert_eq!(api.reset.0, "2024-03-10");
    assert_eq!(api.ts_start_of_reset, Timestamp::new(100, 0));
    assert_eq!(api.jump_gate_waypoint_symbol.0, "X1-AA1-I9");
    assert_eq!(names(&api.agents_in_system), vec!["A", "B"]);
    assert_eq!(api.ts_start_jump_gate_construction, Timestamp::new(400, 0));
    assert_eq!(api.ts_finish_jump_gate_construction, Some(Timestamp::new(9000, 0)));
    assert_eq!(api.duration_minutes_start_fortnight_start_jump_gate_construction, 5);
    assert_eq!(api.duration_minutes_start_fortnight_finish_jump_gate_construction, Some(148));
    assert_eq!(api.duration_minutes_jump_gate_construction, Some(143));
    assert_eq!(api.rank_jump_gate_construction, 1);
    assert_eq!(api.rank_start_fortnight_start_jump_gate_construction, 2);
    assert_eq!(api.rank_start_fortnight_finish_jump_gate_construction, 3);
}

#[test]
fn a_duration_that_does_not_fit_is_left_out() {
    let mut row = construction_row();
    row.duration_minutes_start_fortnight_finish_jump_gate_construction = Some(-1);
    row.duration_minutes_jump_gate_construction = None;
    row.ts_finish_jump_gate_construction = None;
    let api = ApiAllTimeConstructionLeaderboardEntry::try_from(row).unwrap();
    assert_eq!(api.duration_minutes_start_fortnight_finish_jump_gate_construction, None);
    assert_eq!(api.duration_minutes_jump_gate_construction, None);
    assert_eq!(api.ts_finish_jump_gate_construction, None);
}

#[test]
fn a_construction_site_with_a_rank_that_does_not_fit_has_no_entry() {
    let mut row = construction_row();
    row.rank_jump_gate_construction = -1;
    assert!(ApiAllTimeConstructionLeaderboardEntry::try_from(row).is_err());
    let mut row = construction_row();
    row.rank_start_fortnight_start_jump_gate_construction = 1 << 32;
    assert!(ApiAllTimeConstructionLeaderboardEntry::try_from(row).is_err());
    let mut row = construction_row();
    row.rank_start_fortnight_finish_jump_gate_construction = -7;
    assert!(ApiAllTimeConstructionLeaderboardEntry::try_from(row).is_err());
    let mut row = construction_row();
    row.duration_minutes_start_fortnight_start_jump_gate_construction = -7;
    assert!(ApiAllTimeConstructionLeaderboardEntry::try_from(row).is_err());
    let mut row = construction_row();
    row.reset_date = CalendarDate::new(2024, 0, 1);
    assert!(ApiAllTimeConstructionLeaderboardEntry::try_from(row).is_err());
}

#[test]
fn a_date_is_answered_where_there_is_a_text_for_it() {
    assert_eq!(ApiResetDate::of_rendering(Some("2024-03-10".to_string())).unwrap().0, "2024-03-10");
    assert!(ApiResetDate::of_rendering(None).is_err());
}

#[test]
fn entries_are_answered_under_the_date_given() {
    let meta = ApiResetDateMeta::dated(
        ResetDate {
            reset_id: 3,
            reset: CalendarDate::new(2024, 3, 10),
            first_ts: Timestamp::new(0, 0),
            latest_ts: Timestamp::new(90, 0),
            is_ongoing: true,
        },
        ApiResetDate("the tenth".to_string()),
    );
    assert_eq!(meta.reset_date.0, "the tenth");
    assert_eq!(meta.duration_minutes, 1);
    assert!(meta.is_ongoing);
    let entry = ApiAllTimePerformanceEntry::dated(
        DbAllTimePerformanceEntry {
            reset: CalendarDate::new(2024, 3, 10),
            agent_symbol: "FLWI".to_string(),
            credits: 9,
            rank: 2,
        },
        ApiResetDate("the tenth".to_string()),
    )
    .unwrap();
    assert_eq!(entry.reset.0, "the tenth");
    assert_eq!((entry.agent_symbol.0.as_str(), entry.credits, entry.rank), ("FLWI", 9, 2));
    let entry = ApiAllTimeConstructionLeaderboardEntry::dated(construction_row(), ApiResetDate("the tenth".to_string()))
        .unwrap();
    assert_eq!(entry.reset.0, "the tenth");
    assert_eq!(entry.rank_start_fortnight_finish_jump_gate_construction, 3);
    let mut row = construction_row();
    row.rank_jump_gate_construction = -1;
    assert!(ApiAllTimeConstructionLeaderboardEntry::dated(row, ApiResetDate("the tenth".to_string())).is_err());
}
