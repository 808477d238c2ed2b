use leaderboard::api::ApiJumpGateConstructionEventOverviewEntry;
use leaderboard::construction::{
    Observation, construction_observations, delivery_events,
    select_jump_gate_construction_event_overview_for_reset,
};
use leaderboard::db::{
    DbConstructionLog, DbConstructionMaterialLog, DbConstructionRequirement, DbConstructionSite,
    DbJobRun,
};
use leaderboard::epochs::EpochRow;
use leaderboard::time::{CalendarDate, Timestamp};

fn seen(job: i64, seconds: i64, site: i64, requirement: i64, fulfilled: i64, complete: bool) -> Observation {
    Observation {
        job_id: job,
        query_time: Timestamp::new(seconds, 0),
        construction_site_id: site,
        construction_requirement_id: requirement,
        fulfilled,
        is_complete: complete,
    }
}

fn run(id: i64, reset_id: i64, seconds: i64) -> DbJobRun {
    DbJobRun { id, reset_id, query_time: Timestamp::new(seconds, 0), event_time_minutes: 0 }
}

fn log(id: i64, job_id: i64, site: i64, complete: bool) -> DbConstructionLog {
    DbConstructionLog { id, job_id, construction_site_id: site, is_complete: complete }
}

fn material(log: i64, requirement: i64, fulfilled: i64) -> DbConstructionMaterialLog {
    DbConstructionMaterialLog { construction_log_id: log, construction_requirement_id: requirement, fulfilled }
}

#[test]
fn the_first_delivery_is_the_first_rise_above_the_first_observation() {
    let log = vec![
        seen(1, 100, 21, 31, 50, false),
        seen(2, 400, 21, 31, 50, false),
        seen(2, 400, 21, 32, 7, false),
        seen(3, 700, 21, 31, 40, false),
        seen(4, 1000, 21, 31, 120, false),
        seen(5, 1300, 21, 31, 4000, true),
        seen(6, 1600, 21, 31, 4000, true),
    ];
    let events = delivery_events(&log, 21, 31, 6);
    assert_eq!(events.first, Some(seen(4, 1000, 21, 31, 120, false)));
    assert_eq!(events.last, Some(seen(5, 1300, 21, 31, 4000, true)));
    assert_eq!(events.current, Some(seen(6, 1600, 21, 31, 4000, true)));
    let events = delivery_events(&log, 21, 32, 6);
    assert_eq!(events.first, None);
    assert_eq!(events.last, None);
    assert_eq!(events.current, None);
    let events = delivery_events(&log, 21, 32, 2);
    assert_eq!(events.current, Some(seen(2, 400, 21, 32, 7, false)));
    let events = delivery_events(&log, 99, 31, 6);
    assert_eq!((events.first, events.last, events.current), (None, None, None));
}

#[test]
fn observations_join_quantities_with_their_poll_and_site() {
    let runs = vec![run(1, 1, 100), run(2, 1, 400), run(3, 2, 900)];
    let logs = vec![log(41, 1, 21, false), log(42, 2, 21, true), log(43, 3, 25, false)];
    let materials = vec![material(41, 31, 5), material(42, 31, 9), material(43, 31, 1), material(77, 31, 1)];
    let observed = construction_observations(1, &runs, &logs, &materials);
    assert_eq!(observed, vec![seen(1, 100, 21, 31, 5, false), seen(2, 400, 21, 31, 9, true)]);
    assert_eq!(construction_observations(2, &runs, &logs, &materials), vec![seen(3, 900, 25, 31, 1, false)]);
    assert!(construction_observations(3, &runs, &logs, &materials).is_empty());
}

#[test]
fn the_overview_shows_first_and_last_delivery_beside_the_current_state() {
    let epoch = EpochRow { reset_id: 1, reset: CalendarDate::new(2024, 3, 10), first_ts: Timestamp::new(50, 0) };
    let runs = vec![run(1, 1, 100), run(2, 1, 400), run(3, 1, 700), run(4, 2, 9000)];
    let sites = vec![
        DbConstructionSite { id: 21, reset_id: 1, jump_gate_waypoint_symbol: "X1-AA1-I9".to_string() },
        DbConstructionSite { id: 22, reset_id: 1, jump_gate_waypoint_symbol: "X1-BB2-I9".to_string() },
    ];
    let requirements = vec![
        DbConstructionRequirement { id: 31, reset_id: 1, trade_symbol: "FAB_MATS".to_string(), required: 4000 },
        DbConstructionRequirement { id: 32, reset_id: 1, trade_symbol: "QUANTUM_STABILIZERS".to_string(), required: 1 },
    ];
    let logs = vec![
        log(41, 1, 21, false),
        log(42, 1, 22, false),
        log(43, 2, 21, false),
        log(44, 2, 22, false),
        log(45, 3, 21, true),
        log(46, 3, 22, false),
        log(47, 4, 21, false),
    ];
    let materials = vec![
        material(41, 31, 0),
        material(41, 32, 1),
        material(42, 31, 0),
        material(43, 31, 120),
        material(43, 32, 1),
        material(44, 31, 0),
        material(45, 31, 4000),
        material(45, 32, 1),
        material(46, 31, 10),
        material(47, 31, 77),
    ];
    let rows = select_jump_gate_construction_event_overview_for_reset(epoch, &runs, &logs, &materials, &sites, &requirements);
    assert_eq!(rows.len(), 2);
    assert_eq!(rows[0].jump_gate_waypoint_symbol, "X1-AA1-I9");
    assert_eq!(rows[0].trade_symbol, "FAB_MATS");
    assert_eq!(rows[0].ts_start_of_reset, Timestamp::new(50, 0));
    assert_eq!(rows[0].ts_first_construction_event, Timestamp::new(400, 0));
    assert_eq!(rows[0].ts_last_construction_event, Some(Timestamp::new(700, 0)));
    assert_eq!(rows[0].fulfilled, Some(4000));
    assert_eq!(rows[0].required, 4000);
    assert_eq!(rows[0].is_jump_gate_complete, Some(true));
    assert_eq!(rows[1].jump_gate_waypoint_symbol, "X1-BB2-I9");
    assert_eq!(rows[1].ts_first_construction_event, Timestamp::new(700, 0));
    assert_eq!(rows[1].ts_last_construction_event, None);
    assert_eq!(rows[1].fulfilled, Some(10));
    assert_eq!(rows[1].is_jump_gate_complete, Some(false));
    let mut answers = Vec::new();
    for row in rows {
        answers.push(ApiJumpGateConstructionEventOverviewEntry::try_from(row).unwrap());
    }
    assert_eq!(answers[0].fulfilled, 4000);
    assert!(answers[0].is_jump_gate_complete);
    assert!(!answers[1].is_jump_gate_complete);
    let none = select_jump_gate_construction_event_overview_for_reset(
        EpochRow { reset_id: 5, reset: CalendarDate::new(2024, 4, 7), first_ts: Timestamp::new(0, 0) },
        &runs,
        &logs,
        &materials,
        &sites,
        &requirements,
    );
    assert!(none.is_empty());
}
