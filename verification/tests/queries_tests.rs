use leaderboard::assignments::{
    AgentAssignment, agent_assignments, group_assignments,
    select_jump_gate_agent_assignment_for_reset,
};
use leaderboard::db::{
    DbAgentLog, DbConstructionLog, DbConstructionMaterialLog, DbConstructionRequirement,
    DbConstructionSite, DbJobRun, DbStaticAgentInfo,
};
use leaderboard::epochs::{EpochRow, latest_job_run};
use leaderboard::queries::{
    agent_states_of_job, find_by_id, load_leaderboard_for_reset,
    select_most_recent_construction_progress_for_reset,
};
use leaderboard::ranking::{select_all_time_performance, standings_of_job};
use leaderboard::time::{CalendarDate, Timestamp};

fn agent(id: i64, symbol: &str, hq: &str, site: i64) -> DbStaticAgentInfo {
    DbStaticAgentInfo {
        id,
        agent_symbol: symbol.to_string(),
        agent_headquarters_waypoint_symbol: hq.to_string(),
        construction_site_id: site,
        starting_faction: "COSMIC".to_string(),
        reset_id: 1,
        query_time: Timestamp::new(0, 0),
    }
}

fn site(id: i64, gate: &str) -> DbConstructionSite {
    DbConstructionSite { id, reset_id: 1, jump_gate_waypoint_symbol: gate.to_string() }
}

fn requirement(id: i64, trade: &str, required: i64) -> DbConstructionRequirement {
    DbConstructionRequirement { id, reset_id: 1, trade_symbol: trade.to_string(), required }
}

fn run(id: i64, reset_id: i64, seconds: i64) -> DbJobRun {
    DbJobRun { id, reset_id, query_time: Timestamp::new(seconds, 0), event_time_minutes: 0 }
}

fn log(agent_id: i64, job_id: i64, credits: i64, ships: i64) -> DbAgentLog {
    DbAgentLog { agent_id, job_id, credits, ship_count: ships }
}

fn assignment(gate: &str, hq: &str, agent: &str) -> AgentAssignment {
    AgentAssignment {
        jump_gate_waypoint_symbol: gate.to_string(),
        agent_headquarters_waypoint_symbol: hq.to_string(),
        agent_symbol: agent.to_string(),
    }
}

#[test]
fn rows_are_found_by_their_number() {
    let sites = vec![site(21, "G1"), site(22, "G2"), site(21, "G3")];
    assert_eq!(find_by_id(&sites, 21), Some(0));
    assert_eq!(find_by_id(&sites, 22), Some(1));
    assert_eq!(find_by_id(&sites, 23), None);
    assert_eq!(find_by_id(&Vec::<DbConstructionSite>::new(), 21), None);
}

#[test]
fn the_latest_job_run_has_the_greatest_query_time() {
    let runs = vec![run(1, 1, 100), run(2, 2, 900), run(3, 1, 500), run(4, 1, 300), run(5, 1, 500)];
    assert_eq!(latest_job_run(&runs, 1).map(|r| r.id), Some(5));
    assert_eq!(latest_job_run(&runs, 2).map(|r| r.id), Some(2));
    assert_eq!(latest_job_run(&runs, 3).map(|r| r.id), None);
}

#[test]
fn the_leaderboard_shows_the_latest_poll_ranked() {
    let agents = vec![agent(1, "B", "X1-B-A1", 21), agent(2, "A", "X1-A-A1", 22), agent(3, "C", "X1-C-A1", 21)];
    let sites = vec![site(21, "X1-B-I9"), site(22, "X1-A-I9")];
    let runs = vec![run(1, 1, 100), run(2, 1, 400), run(3, 2, 900)];
    let logs = vec![
        log(1, 1, 9_999, 9),
        log(1, 2, 500, 3),
        log(2, 2, 500, 5),
        log(3, 2, 300, 1),
        log(4, 2, 700, 1),
        log(1, 3, 1, 1),
    ];
    let ranked = load_leaderboard_for_reset(&runs, 1, &logs, &agents, &sites);
    let order: Vec<(&str, i64, i64, &str, &str)> = ranked
        .iter()
        .map(|e| {
            (
                e.agent_symbol.as_str(),
                e.credits,
                e.ship_count,
                e.agent_headquarters_waypoint_symbol.as_str(),
                e.jump_gate_waypoint_symbol.as_str(),
            )
        })
        .collect();
    assert_eq!(
        order,
        vec![
            ("A", 500, 5, "X1-A-A1", "X1-A-I9"),
            ("B", 500, 3, "X1-B-A1", "X1-B-I9"),
            ("C", 300, 1, "X1-C-A1", "X1-B-I9"),
        ]
    );
    assert!(load_leaderboard_for_reset(&runs, 5, &logs, &agents, &sites).is_empty());
}

#[test]
fn states_are_joined_with_agent_and_site() {
    let agents = vec![agent(1, "B", "X1-B-A1", 21), agent(2, "A", "X1-A-A1", 99)];
    let sites = vec![site(21, "X1-B-I9")];
    let logs = vec![log(1, 2, 500, 3), log(2, 2, 500, 5), log(1, 3, 7, 7)];
    let rows = agent_states_of_job(&logs, 2, &agents, &sites);
    assert_eq!(rows.len(), 1);
    assert_eq!(rows[0].agent_symbol, "B");
    assert_eq!((rows[0].credits, rows[0].ship_count), (500, 3));
}

#[test]
fn progress_is_shown_for_the_latest_poll() {
    let epoch = EpochRow { reset_id: 1, reset: CalendarDate::new(2024, 3, 10), first_ts: Timestamp::new(50, 0) };
    let runs = vec![run(1, 1, 100), run(2, 1, 400)];
    let sites = vec![site(21, "X1-B-I9"), site(22, "X1-A-I9")];
    let requirements = vec![requirement(31, "FAB_MATS", 4000), requirement(32, "QUANTUM_STABILIZERS", 1)];
    let construction_logs = vec![
        DbConstructionLog { id: 41, job_id: 1, construction_site_id: 21, is_complete: false },
        DbConstructionLog { id: 42, job_id: 2, construction_site_id: 21, is_complete: false },
        DbConstructionLog { id: 43, job_id: 2, construction_site_id: 22, is_complete: true },
    ];
    let material_logs = vec![
        DbConstructionMaterialLog { construction_log_id: 41, construction_requirement_id: 31, fulfilled: 10 },
        DbConstructionMaterialLog { construction_log_id: 42, construction_requirement_id: 31, fulfilled: 120 },
        DbConstructionMaterialLog { construction_log_id: 42, construction_requirement_id: 32, fulfilled: 1 },
        DbConstructionMaterialLog { construction_log_id: 43, construction_requirement_id: 31, fulfilled: 4000 },
        DbConstructionMaterialLog { construction_log_id: 44, construction_requirement_id: 31, fulfilled: 5 },
    ];
    let rows = select_most_recent_construction_progress_for_reset(
        epoch,
        &runs,
        &construction_logs,
        &material_logs,
        &sites,
        &requirements,
    );
    let shown: Vec<(&str, &str, i64, i64, bool)> = rows
        .iter()
        .map(|r| {
            (
                r.jump_gate_waypoint_symbol.as_str(),
                r.trade_symbol.as_str(),
                r.fulfilled,
                r.required,
                r.is_jump_gate_complete,
            )
        })
        .collect();
    assert_eq!(
        shown,
        vec![
            ("X1-B-I9", "FAB_MATS", 120, 4000, false),
            ("X1-B-I9", "QUANTUM_STABILIZERS", 1, 1, false),
            ("X1-A-I9", "FAB_MATS", 4000, 4000, true),
        ]
    );
    assert_eq!(rows[0].reset_id, Some(1));
    assert_eq!(rows[0].reset, Some(CalendarDate::new(2024, 3, 10)));
    assert_eq!(rows[0].ts_start_of_reset, Some(Timestamp::new(50, 0)));
    assert_eq!(rows[0].ts_latest_entry_of_reset, Some(Timestamp::new(400, 0)));
    let none = select_most_recent_construction_progress_for_reset(
        EpochRow { reset_id: 9, reset: CalendarDate::new(2024, 3, 24), first_ts: Timestamp::new(0, 0) },
        &runs,
        &construction_logs,
        &material_logs,
        &sites,
        &requirements,
    );
    assert!(none.is_empty());
}

#[test]
fn neighbours_of_one_site_and_headquarters_form_a_group() {
    let date = CalendarDate::new(2024, 3, 10);
    let entries = group_assignments(
        &vec![
            assignment("G1", "H1", "A"),
            assignment("G1", "H1", "B"),
            assignment("G1", "H2", "C"),
            assignment("G2", "H2", "D"),
            assignment("G1", "H1", "E"),
        ],
        date,
    );
    let listed: Vec<(&str, &str, &str)> = entries
        .iter()
        .map(|e| {
            (
                e.jump_gate_waypoint_symbol.as_str(),
                e.agent_headquarters_waypoint_symbol.as_str(),
                e.agents_in_system_csv.as_str(),
            )
        })
        .collect();
    assert_eq!(
        listed,
        vec![("G1", "H1", "A,B"), ("G1", "H2", "C"), ("G2", "H2", "D"), ("G1", "H1", "E")]
    );
    assert!(entries.iter().all(|e| e.reset == date));
    assert!(group_assignments(&vec![], date).is_empty());
}

#[test]
fn agents_that_share_a_site_are_listed_together_in_the_order_of_their_symbols() {
    let agents = vec![
        agent(1, "ZED", "X1-AA1-A1", 21),
        agent(2, "BOB", "X1-BB2-A1", 22),
        agent(3, "AMY", "X1-AA1-A1", 21),
        agent(4, "LOST", "X1-CC3-A1", 99),
        agent(5, "KIM", "X1-AA1-A2", 21),
        agent(6, "ANN", "X1-BB2-A1", 22),
    ];
    let sites = vec![site(22, "X1-BB2-I9"), site(21, "X1-AA1-I9")];
    let named = agent_assignments(&agents, &sites);
    assert_eq!(named.len(), 5);
    assert_eq!(named[0].agent_symbol, "ZED");
    assert_eq!(named[0].jump_gate_waypoint_symbol, "X1-AA1-I9");
    let entries = select_jump_gate_agent_assignment_for_reset(&agents, &sites, CalendarDate::new(2024, 3, 10));
    let listed: Vec<(&str, &str, &str)> = entries
        .iter()
        .map(|e| {
            (
                e.jump_gate_waypoint_symbol.as_str(),
                e.agent_headquarters_waypoint_symbol.as_str(),
                e.agents_in_system_csv.as_str(),
            )
        })
        .collect();
    assert_eq!(
        listed,
        vec![
            ("X1-AA1-I9", "X1-AA1-A1", "AMY,ZED"),
            ("X1-AA1-I9", "X1-AA1-A2", "KIM"),
            ("X1-BB2-I9", "X1-BB2-A1", "ANN,BOB"),
        ]
    );
}

#[test]
fn all_epochs_are_ranked_by_their_latest_poll() {
    let epochs = vec![
        EpochRow { reset_id: 2, reset: CalendarDate::new(2024, 3, 24), first_ts: Timestamp::new(5_000, 0) },
        EpochRow { reset_id: 1, reset: CalendarDate::new(2024, 3, 10), first_ts: Timestamp::new(0, 0) },
        EpochRow { reset_id: 3, reset: CalendarDate::new(2024, 4, 7), first_ts: Timestamp::new(9_000, 0) },
    ];
    let runs = vec![run(1, 1, 100), run(2, 1, 400), run(3, 2, 5_100), run(4, 2, 5_400)];
    let agents = vec![
        agent(1, "ZED", "X1-AA1-A1", 21),
        agent(2, "AMY", "X1-AA1-A1", 21),
        agent(3, "BOB", "X1-BB2-A1", 99),
        agent(4, "AMY", "X1-AA1-A1", 31),
    ];
    let logs = vec![
        log(1, 1, 9_999, 1),
        log(1, 2, 100, 1),
        log(2, 2, 100, 1),
        log(3, 2, 700, 1),
        log(77, 2, 5, 1),
        log(4, 3, 8_888, 1),
        log(4, 4, -3, 1),
    ];
    let entries = select_all_time_performance(&epochs, &runs, &logs, &agents);
    let listed: Vec<((i32, u32, u32), &str, i64, u64)> = entries
        .iter()
        .map(|e| ((e.reset.year, e.reset.month, e.reset.day), e.agent_symbol.as_str(), e.credits, e.rank))
        .collect();
    assert_eq!(
        listed,
        vec![
            ((2024, 3, 10), "BOB", 700, 1),
            ((2024, 3, 10), "AMY", 100, 2),
            ((2024, 3, 10), "ZED", 100, 3),
            ((2024, 3, 24), "AMY", -3, 1),
        ]
    );
    assert_eq!(standings_of_job(&logs, 2, CalendarDate::new(2024, 3, 10), &agents).len(), 3);
    assert!(select_all_time_performance(&vec![], &runs, &logs, &agents).is_empty());
}
