//! The rows of the store: epochs, agents and construction sites as they
//! are stored, the facts recorded at every poll, and the rows that queries
//! hand out.

use crate::text::{copy_text, texts};
use crate::time::{CalendarDate, Timestamp, span_minutes};
use vstd::prelude::*;

verus! {

/// An epoch: one lifetime of the game world. `latest_ts` and `is_ongoing`
/// are derived from the recorded facts whenever the epoch is read.
#[derive(Clone, Copy, Debug)]
pub struct ResetDate {
    pub reset_id: i64,
    pub reset: CalendarDate,
    pub first_ts: Timestamp,
    pub latest_ts: Timestamp,
    pub is_ongoing: bool,
}

impl ResetDate {
    /// Age of the epoch in minutes: from its first to its latest observation.
    pub open spec fn age_minutes(self) -> int {
        span_minutes(self.first_ts, self.latest_ts)
    }
}

/// One line of an epoch's leaderboard.
#[derive(Debug)]
pub struct LeaderboardEntry {
    pub agent_symbol: String,
    pub credits: i64,
    pub ship_count: i64,
    pub agent_headquarters_waypoint_symbol: String,
    pub jump_gate_waypoint_symbol: String,
}

/// A construction site with the agents assigned to it, their symbols
/// joined by commas.
#[derive(Debug)]
pub struct DbJumpGateAssignmentEntry {
    pub reset: CalendarDate,
    pub agent_headquarters_waypoint_symbol: String,
    pub jump_gate_waypoint_symbol: String,
    pub agents_in_system_csv: String,
}

/// A tracked construction site.
#[derive(Debug)]
pub struct DbConstructionSite {
    pub id: i64,
    pub reset_id: i64,
    pub jump_gate_waypoint_symbol: String,
}

/// The downsampled history of one material of one site, times and
/// quantities as comma-separated lists.
#[derive(Debug)]
pub struct DbConstructionMaterialHistoryEntry {
    pub jump_gate_waypoint_symbol: String,
    pub trade_symbol: String,
    pub required: Option<i64>,
    pub event_time_minutes_csv: Option<String>,
    pub fulfilled_csv: Option<String>,
}

#[derive(Debug)]
pub struct DbJumpGateConstructionEventOverviewEntry {
    pub ts_start_of_reset: Timestamp,
    pub trade_symbol: String,
    pub fulfilled: Option<i64>,
    pub required: i64,
    pub jump_gate_waypoint_symbol: String,
    pub ts_first_construction_event: Timestamp,
    pub ts_last_construction_event: Option<Timestamp>,
    pub is_jump_gate_complete: Option<bool>,
}

#[derive(Debug)]
pub struct DbConstructionMaterialMostRecentStatus {
    pub reset_id: Option<i64>,
    pub reset: Option<CalendarDate>,
    pub ts_start_of_reset: Option<Timestamp>,
    pub ts_latest_entry_of_reset: Option<Timestamp>,
    pub trade_symbol: String,
    pub fulfilled: i64,
    pub required: i64,
    pub jump_gate_waypoint_symbol: String,
    pub is_jump_gate_complete: bool,
}

/// The downsampled history of one agent as parallel series.
#[derive(Debug)]
pub struct DbAgentHistoryEntry {
    pub agent_symbol: String,
    pub construction_site_id: Option<i64>,
    pub event_times_minutes: Option<Vec<u32>>,
    pub credits_timeline: Option<Vec<i64>>,
    pub ship_count_timeline: Option<Vec<u32>>,
}

/// A construction site's state at one poll.
#[derive(Clone, Copy, Debug)]
pub struct DbConstructionLog {
    pub id: i64,
    pub job_id: i64,
    pub construction_site_id: i64,
    pub is_complete: bool,
}

/// The delivered quantity of one material at one poll.
#[derive(Clone, Copy, Debug)]
pub struct DbConstructionMaterialLog {
    pub construction_log_id: i64,
    pub construction_requirement_id: i64,
    pub fulfilled: i64,
}

/// An agent's state at one poll.
#[derive(Clone, Copy, Debug)]
pub struct DbAgentLog {
    pub agent_id: i64,
    pub job_id: i64,
    pub credits: i64,
    pub ship_count: i64,
}

/// One poll of an epoch.
#[derive(Clone, Copy, Debug)]
pub struct DbJobRun {
    pub id: i64,
    pub reset_id: i64,
    pub query_time: Timestamp,
    pub event_time_minutes: i64,
}

/// A tracked agent.
#[derive(Debug)]
pub struct DbStaticAgentInfo {
    pub id: i64,
    pub agent_symbol: String,
    pub agent_headquarters_waypoint_symbol: String,
    pub construction_site_id: i64,
    pub starting_faction: String,
    pub reset_id: i64,
    pub query_time: Timestamp,
}

/// How much of a trade good an epoch's construction sites need.
#[derive(Debug)]
pub struct DbConstructionRequirement {
    pub id: i64,
    pub reset_id: i64,
    pub trade_symbol: String,
    pub required: i64,
}

/// An agent's rank by credits within an epoch.
#[derive(Debug)]
pub struct DbAllTimePerformanceEntry {
    pub reset: CalendarDate,
    pub agent_symbol: String,
    pub credits: i64,
    pub rank: u64,
}

/// A construction site's place among the sites of its epoch.
#[derive(Debug)]
pub struct DbConstructionLeaderboardEntry {
    pub reset_date: CalendarDate,
    pub ts_start_of_reset: Timestamp,
    pub jump_gate_waypoint_symbol: String,
    pub agents_in_system_csv: String,
    pub ts_start_jump_gate_construction: Timestamp,
    pub ts_finish_jump_gate_construction: Option<Timestamp>,
    pub duration_minutes_start_fortnight_start_jump_gate_construction: i64,
    pub duration_minutes_start_fortnight_finish_jump_gate_construction: Option<i64>,
    pub duration_minutes_jump_gate_construction: Option<i64>,
    pub rank_jump_gate_construction: i64,
    pub rank_start_fortnight_start_jump_gate_construction: i64,
    pub rank_start_fortnight_finish_jump_gate_construction: i64,
}

/// A row that is found again by a text: its natural key within an epoch.
pub trait Keyed {
    /// The characters of the key.
    spec fn key(&self) -> Seq<char>;

    fn key_text(&self) -> (text: &String)
        ensures
            text@ == self.key(),
    ;
}

impl Keyed for DbStaticAgentInfo {
    open spec fn key(&self) -> Seq<char> {
        self.agent_symbol@
    }

    fn key_text(&self) -> (text: &String) {
        &self.agent_symbol
    }
}

impl Keyed for DbConstructionSite {
    open spec fn key(&self) -> Seq<char> {
        self.jump_gate_waypoint_symbol@
    }

    fn key_text(&self) -> (text: &String) {
        &self.jump_gate_waypoint_symbol
    }
}

impl Keyed for DbConstructionRequirement {
    open spec fn key(&self) -> Seq<char> {
        self.trade_symbol@
    }

    fn key_text(&self) -> (text: &String) {
        &self.trade_symbol
    }
}

/// The keys of the rows, row by row.
pub open spec fn natural_keys<T: Keyed>(rows: Seq<T>) -> Seq<Seq<char>> {
    Seq::new(rows.len(), |i: int| rows[i].key())
}

/// Copies the keys of the rows, row by row.
pub fn keys_of<T: Keyed>(rows: &Vec<T>) -> (keys: Vec<String>)
    ensures
        texts(keys@) == natural_keys(rows@),
{
    let mut keys: Vec<String> = Vec::new();
    let mut i: usize = 0;
    while i < rows.len()
        invariant
            i <= rows.len(),
            texts(keys@) == natural_keys(rows@).take(i as int),
        decreases rows.len() - i,
    {
        let ghost before = texts(keys@);
        keys.push(copy_text(rows[i].key_text()));
        assert(texts(keys@) =~= before.push(natural_keys(rows@)[i as int]));
        i += 1;
    }
    keys
}

} // verus!
