//! The answers of the query side, and how stored rows become answers.

use crate::db::{
    DbAgentHistoryEntry, DbAllTimePerformanceEntry, DbConstructionLeaderboardEntry,
    DbConstructionMaterialHistoryEntry, DbConstructionMaterialMostRecentStatus,
    DbJumpGateAssignmentEntry, DbJumpGateConstructionEventOverviewEntry, LeaderboardEntry,
    ResetDate,
};
use crate::numbers::csv_numbers;
use crate::server::parse_csv;
use crate::text::{copy_text, split, split_on, texts};
use crate::time::{CalendarDate, Timestamp, duration_minutes, format_calendar_date, span_minutes};
use vstd::prelude::*;
use vstd::string::*;

verus! {

/// A reset date as `YYYY-MM-DD`.
#[derive(Debug)]
pub struct ApiResetDate(pub String);

#[derive(Debug)]
pub struct ApiAgentSymbol(pub String);

#[derive(Debug)]
pub struct ApiWaypointSymbol(pub String);

#[derive(Debug)]
pub struct ApiTradeSymbol(pub String);

/// An epoch with what is derived about it.
#[derive(Debug)]
pub struct ApiResetDateMeta {
    pub reset_date: ApiResetDate,
    pub first_ts: Timestamp,
    pub latest_ts: Timestamp,
    pub duration_minutes: u32,
    pub is_ongoing: bool,
}

#[derive(Debug)]
pub struct ApiLeaderboardEntry {
    pub agent_symbol: ApiAgentSymbol,
    pub jump_gate_waypoint_symbol: ApiWaypointSymbol,
    pub credits: i64,
    pub ship_count: i64,
}

#[derive(Debug)]
pub struct ApiJumpGateAssignmentEntry {
    pub agent_headquarters_waypoint_symbol: ApiWaypointSymbol,
    pub jump_gate_waypoint_symbol: ApiWaypointSymbol,
    pub agents_in_system: Vec<ApiAgentSymbol>,
}

#[derive(Debug)]
pub struct ApiAgentHistoryEntry {
    pub agent_symbol: ApiAgentSymbol,
    pub event_times_minutes: Vec<u32>,
    pub credits_timeline: Vec<i64>,
    pub ship_count_timeline: Vec<u32>,
}

#[derive(Debug)]
pub struct ApiJumpGateConstructionEventOverviewEntry {
    pub ts_start_of_reset: Timestamp,
    pub trade_symbol: ApiTradeSymbol,
    pub fulfilled: u32,
    pub required: u32,
    pub jump_gate_waypoint_symbol: ApiWaypointSymbol,
    pub ts_first_construction_event: Timestamp,
    pub ts_last_construction_event: Option<Timestamp>,
    pub is_jump_gate_complete: bool,
}

#[derive(Debug)]
pub struct ApiConstructionMaterialHistoryEntry {
    pub jump_gate_waypoint_symbol: ApiWaypointSymbol,
    pub trade_symbol: ApiTradeSymbol,
    pub event_times_minutes: Vec<u32>,
    pub fulfilled: Vec<u32>,
    pub required: u32,
}

#[derive(Debug)]
pub struct ApiConstructionMaterialMostRecentProgressEntry {
    pub trade_symbol: ApiTradeSymbol,
    pub fulfilled: u32,
    pub required: u32,
    pub jump_gate_waypoint_symbol: ApiWaypointSymbol,
    pub is_jump_gate_complete: bool,
}

#[derive(Debug)]
pub struct ApiAllTimePerformanceEntry {
    pub reset: ApiResetDate,
    pub agent_symbol: ApiAgentSymbol,
    pub credits: i64,
    pub rank: u32,
}

#[derive(Debug)]
pub struct ApiAllTimeConstructionLeaderboardEntry {
    pub reset: ApiResetDate,
    pub ts_start_of_reset: Timestamp,
    pub jump_gate_waypoint_symbol: ApiWaypointSymbol,
    pub agents_in_system: Vec<ApiAgentSymbol>,
    pub ts_start_jump_gate_construction: Timestamp,
    pub ts_finish_jump_gate_construction: Option<Timestamp>,
    pub duration_minutes_start_fortnight_start_jump_gate_construction: u32,
    pub duration_minutes_start_fortnight_finish_jump_gate_construction: Option<u32>,
    pub duration_minutes_jump_gate_construction: Option<u32>,
    pub rank_jump_gate_construction: u32,
    pub rank_start_fortnight_start_jump_gate_construction: u32,
    pub rank_start_fortnight_finish_jump_gate_construction: u32,
}

/// The number as a `u32`, if it is one.
pub open spec fn as_u32(value: i64) -> Option<u32> {
    if 0 <= value <= u32::MAX {
        Some(value as u32)
    } else {
        None
    }
}

/// The rank as a `u32`, if it is one.
pub open spec fn rank_as_u32(rank: u64) -> Option<u32> {
    if rank <= u32::MAX {
        Some(rank as u32)
    } else {
        None
    }
}

/// The number as a `u32` where there is a number and it is one.
pub open spec fn as_u32_if_any(value: Option<i64>) -> Option<u32> {
    match value {
        Some(v) => as_u32(v),
        None => None,
    }
}

/// The names of the agents, agent by agent.
pub open spec fn agent_names(agents: Seq<ApiAgentSymbol>) -> Seq<Seq<char>> {
    Seq::new(agents.len(), |i: int| agents[i].0@)
}

/// Narrows a stored number to a `u32`.
pub fn to_u32(value: i64) -> (r: Option<u32>)
    ensures
        r == as_u32(value),
{
    if 0 <= value && value <= 0xffff_ffff {
        Some(value as u32)
    } else {
        None
    }
}

/// Narrows a stored number, if there is one, to a `u32`.
pub fn to_u32_if_any(value: Option<i64>) -> (r: Option<u32>)
    ensures
        r == as_u32_if_any(value),
{
    match value {
        Some(v) => to_u32(v),
        None => None,
    }
}

/// The agents named in a comma-separated list.
pub fn agents_in_csv(agents_in_system_csv: &str) -> (agents: Vec<ApiAgentSymbol>)
    ensures
        agent_names(agents@) == split(agents_in_system_csv@, ','),
{
    let pieces = split_on(agents_in_system_csv, ',');
    let mut agents: Vec<ApiAgentSymbol> = Vec::new();
    for name in it: pieces
        invariant
            it.seq() == pieces@,
            agent_names(agents@) == texts(pieces@).take(it.index() as int),
    {
        let ghost before = agent_names(agents@);
        agents.push(ApiAgentSymbol(name));
        assert(agent_names(agents@) =~= before.push(name@));
    }
    agents
}

impl ApiResetDate {
    /// A reset date as it is answered, given its text; none where there is
    /// no text.
    pub fn of_rendering(rendering: Option<String>) -> (api: Result<ApiResetDate, ()>)
        ensures
            match rendering {
                Some(text) => api matches Ok(date) && date.0 == text,
                None => api is Err,
            },
    {
        match rendering {
            Some(text) => Ok(ApiResetDate(text)),
            None => Err(()),
        }
    }

    /// A reset date as it is answered; none for a date that is no day of
    /// the calendar.
    pub fn try_from(date: CalendarDate) -> (api: Result<ApiResetDate, ()>)
        ensures
            match api {
                Ok(text) => date.rendering() == Some(text.0@),
                Err(_) => date.rendering() is None,
            },
    {
        ApiResetDate::of_rendering(format_calendar_date(&date))
    }
}

impl ApiResetDateMeta {
    /// An epoch as it is listed, given its date as it is answered: with its
    /// age in minutes.
    pub fn dated(r: ResetDate, reset_date: ApiResetDate) -> (meta: ApiResetDateMeta)
        ensures
            meta.reset_date == reset_date,
            meta.first_ts == r.first_ts,
            meta.latest_ts == r.latest_ts,
            meta.duration_minutes == span_minutes(r.first_ts, r.latest_ts),
            meta.is_ongoing == r.is_ongoing,
    {
        ApiResetDateMeta {
            reset_date,
            first_ts: r.first_ts,
            latest_ts: r.latest_ts,
            duration_minutes: duration_minutes(r.first_ts, r.latest_ts),
            is_ongoing: r.is_ongoing,
        }
    }

    /// An epoch as it is listed: its date as text, and its age in minutes.
    /// There is no listing for a date that is no day of the calendar.
    pub fn try_from(r: ResetDate) -> (api: Result<ApiResetDateMeta, ()>)
        ensures
            match api {
                Ok(meta) => {
                    &&& r.reset.rendering() == Some(meta.reset_date.0@)
                    &&& meta.first_ts == r.first_ts
                    &&& meta.latest_ts == r.latest_ts
                    &&& meta.duration_minutes == span_minutes(r.first_ts, r.latest_ts)
                    &&& meta.is_ongoing == r.is_ongoing
                },
                Err(_) => r.reset.rendering() is None,
            },
    {
        match ApiResetDate::try_from(r.reset) {
            Ok(reset_date) => Ok(ApiResetDateMeta::dated(r, reset_date)),
            Err(_) => Err(()),
        }
    }
}

impl ApiLeaderboardEntry {
    /// A line of the leaderboard as it is answered.
    pub fn from_entry(r: &LeaderboardEntry) -> (api: ApiLeaderboardEntry)
        ensures
            api.agent_symbol.0@ == r.agent_symbol@,
            api.jump_gate_waypoint_symbol.0@ == r.jump_gate_waypoint_symbol@,
            api.credits == r.credits,
            api.ship_count == r.ship_count,
    {
        ApiLeaderboardEntry {
            agent_symbol: ApiAgentSymbol(copy_text(&r.agent_symbol)),
            credits: r.credits,
            ship_count: r.ship_count,
            jump_gate_waypoint_symbol: ApiWaypointSymbol(copy_text(&r.jump_gate_waypoint_symbol)),
        }
    }
}

impl ApiJumpGateAssignmentEntry {
    /// A construction site with the agents assigned to it, one by one.
    pub fn from_entry(r: &DbJumpGateAssignmentEntry) -> (api: ApiJumpGateAssignmentEntry)
        ensures
            api.agent_headquarters_waypoint_symbol.0@ == r.agent_headquarters_waypoint_symbol@,
            api.jump_gate_waypoint_symbol.0@ == r.jump_gate_waypoint_symbol@,
            agent_names(api.agents_in_system@) == split(r.agents_in_system_csv@, ','),
    {
        ApiJumpGateAssignmentEntry {
            agent_headquarters_waypoint_symbol: ApiWaypointSymbol(
                copy_text(&r.agent_headquarters_waypoint_symbol),
            ),
            jump_gate_waypoint_symbol: ApiWaypointSymbol(copy_text(&r.jump_gate_waypoint_symbol)),
            agents_in_system: agents_in_csv(r.agents_in_system_csv.as_str()),
        }
    }
}

impl ApiConstructionMaterialHistoryEntry {
    /// The history of a material as parallel series. A list that is
    /// missing counts as empty; a required quantity that is missing or no
    /// `u32` counts as 0.
    pub fn try_from(cmp: DbConstructionMaterialHistoryEntry) -> (api: Result<
        ApiConstructionMaterialHistoryEntry,
        (),
    >)
        ensures
            api matches Ok(entry) && {
                &&& entry.jump_gate_waypoint_symbol.0@ == cmp.jump_gate_waypoint_symbol@
                &&& entry.trade_symbol.0@ == cmp.trade_symbol@
                &&& entry.event_times_minutes@ == match cmp.event_time_minutes_csv {
                    Some(csv) => csv_numbers(csv@),
                    None => Seq::<u32>::empty(),
                }
                &&& entry.fulfilled@ == match cmp.fulfilled_csv {
                    Some(csv) => csv_numbers(csv@),
                    None => Seq::<u32>::empty(),
                }
                &&& entry.required == match as_u32_if_any(cmp.required) {
                    Some(v) => v,
                    None => 0,
                }
            },
    {
        let event_times_minutes = match &cmp.event_time_minutes_csv {
            Some(csv) => parse_csv(csv.as_str()),
            None => Vec::new(),
        };
        let fulfilled = match &cmp.fulfilled_csv {
            Some(csv) => parse_csv(csv.as_str()),
            None => Vec::new(),
        };
        let required: u32 = match to_u32_if_any(cmp.required) {
            Some(v) => v,
            None => 0,
        };
        Ok(
            ApiConstructionMaterialHistoryEntry {
                jump_gate_waypoint_symbol: ApiWaypointSymbol(cmp.jump_gate_waypoint_symbol),
                trade_symbol: ApiTradeSymbol(cmp.trade_symbol),
                event_times_minutes,
                fulfilled,
                required,
            },
        )
    }
}

impl ApiAgentHistoryEntry {
    /// The history of an agent as parallel series; none if a series is missing.
    pub fn try_from(db: DbAgentHistoryEntry) -> (api: Result<ApiAgentHistoryEntry, ()>)
        ensures
            match api {
                Ok(entry) => {
                    &&& entry.agent_symbol.0 == db.agent_symbol
                    &&& db.event_times_minutes == Some(entry.event_times_minutes)
                    &&& db.credits_timeline == Some(entry.credits_timeline)
                    &&& db.ship_count_timeline == Some(entry.ship_count_timeline)
                },
                Err(_) => db.event_times_minutes is None || db.credits_timeline is None
                    || db.ship_count_timeline is None,
            },
    {
        match (db.event_times_minutes, db.credits_timeline, db.ship_count_timeline) {
            (Some(event_times_minutes), Some(credits_timeline), Some(ship_count_timeline)) => Ok(
                ApiAgentHistoryEntry {
                    agent_symbol: ApiAgentSymbol(db.agent_symbol),
                    event_times_minutes,
                    credits_timeline,
                    ship_count_timeline,
                },
            ),
            _ => Err(()),
        }
    }
}

impl ApiConstructionMaterialMostRecentProgressEntry {
    /// The latest state of a material; none if a quantity is no `u32`.
    pub fn try_from(db: DbConstructionMaterialMostRecentStatus) -> (api: Result<
        ApiConstructionMaterialMostRecentProgressEntry,
        (),
    >)
        ensures
            match api {
                Ok(entry) => {
                    &&& entry.trade_symbol.0 == db.trade_symbol
                    &&& Some(entry.fulfilled) == as_u32(db.fulfilled)
                    &&& Some(entry.required) == as_u32(db.required)
                    &&& entry.jump_gate_waypoint_symbol.0 == db.jump_gate_waypoint_symbol
                    &&& entry.is_jump_gate_complete == db.is_jump_gate_complete
                },
                Err(_) => as_u32(db.fulfilled) is None || as_u32(db.required) is None,
            },
    {
        match (to_u32(db.fulfilled), to_u32(db.required)) {
            (Some(fulfilled), Some(required)) => Ok(
                ApiConstructionMaterialMostRecentProgressEntry {
                    trade_symbol: ApiTradeSymbol(db.trade_symbol),
                    fulfilled,
                    required,
                    jump_gate_waypoint_symbol: ApiWaypointSymbol(db.jump_gate_waypoint_symbol),
                    is_jump_gate_complete: db.is_jump_gate_complete,
                },
            ),
            _ => Err(()),
        }
    }
}

/// The delivered quantity of an overview row: 0 where none is recorded.
pub open spec fn delivered(db: DbJumpGateConstructionEventOverviewEntry) -> Option<u32> {
    match db.fulfilled {
        Some(v) => as_u32(v),
        None => Some(0u32),
    }
}

impl ApiJumpGateConstructionEventOverviewEntry {
    /// The first and last delivery of a material beside its current state.
    /// A delivered quantity that is missing counts as 0, a completion flag
    /// that is missing as not complete; there is no entry if a quantity is
    /// no `u32`.
    pub fn try_from(db: DbJumpGateConstructionEventOverviewEntry) -> (api: Result<
        ApiJumpGateConstructionEventOverviewEntry,
        (),
    >)
        ensures
            match api {
                Ok(entry) => {
                    &&& entry.ts_start_of_reset == db.ts_start_of_reset
                    &&& entry.trade_symbol.0 == db.trade_symbol
                    &&& Some(entry.fulfilled) == delivered(db)
                    &&& Some(entry.required) == as_u32(db.required)
                    &&& entry.jump_gate_waypoint_symbol.0 == db.jump_gate_waypoint_symbol
                    &&& entry.ts_first_construction_event == db.ts_first_construction_event
                    &&& entry.ts_last_construction_event == db.ts_last_construction_event
                    &&& entry.is_jump_gate_complete == (db.is_jump_gate_complete == Some(true))
                },
                Err(_) => delivered(db) is None || as_u32(db.required) is None,
            },
    {
        let fulfilled = match db.fulfilled {
            Some(v) => to_u32(v),
            None => Some(0u32),
        };
        let is_jump_gate_complete = match db.is_jump_gate_complete {
            Some(flag) => flag,
            None => false,
        };
        match (fulfilled, to_u32(db.required)) {
            (Some(fulfilled), Some(required)) => Ok(
                ApiJumpGateConstructionEventOverviewEntry {
                    ts_start_of_reset: db.ts_start_of_reset,
                    trade_symbol: ApiTradeSymbol(db.trade_symbol),
                    fulfilled,
                    required,
                    jump_gate_waypoint_symbol: ApiWaypointSymbol(db.jump_gate_waypoint_symbol),
                    ts_first_construction_event: db.ts_first_construction_event,
                    ts_last_construction_event: db.ts_last_construction_event,
                    is_jump_gate_complete,
                },
            ),
            _ => Err(()),
        }
    }
}

impl ApiAllTimePerformanceEntry {
    /// An agent's rank within an epoch, given the epoch's date as it is
    /// answered; none if the rank is no `u32`.
    pub fn dated(db: DbAllTimePerformanceEntry, reset: ApiResetDate) -> (api: Result<
        ApiAllTimePerformanceEntry,
        (),
    >)
        ensures
            match api {
                Ok(entry) => {
                    &&& entry.reset == reset
                    &&& entry.agent_symbol.0 == db.agent_symbol
                    &&& entry.credits == db.credits
                    &&& Some(entry.rank) == rank_as_u32(db.rank)
                },
                Err(_) => rank_as_u32(db.rank) is None,
            },
    {
        if db.rank <= 0xffff_ffff {
            Ok(
                ApiAllTimePerformanceEntry {
                    reset,
                    agent_symbol: ApiAgentSymbol(db.agent_symbol),
                    credits: db.credits,
                    rank: db.rank as u32,
                },
            )
        } else {
            Err(())
        }
    }

    /// An agent's rank within an epoch; none if the epoch's date is no day
    /// of the calendar or the rank is no `u32`.
    pub fn try_from(db: DbAllTimePerformanceEntry) -> (api: Result<ApiAllTimePerformanceEntry, ()>)
        ensures
            match api {
                Ok(entry) => {
                    &&& db.reset.rendering() == Some(entry.reset.0@)
                    &&& entry.agent_symbol.0 == db.agent_symbol
                    &&& entry.credits == db.credits
                    &&& Some(entry.rank) == rank_as_u32(db.rank)
                },
                Err(_) => db.reset.rendering() is None || rank_as_u32(db.rank) is None,
            },
    {
        match ApiResetDate::try_from(db.reset) {
            Ok(reset) => ApiAllTimePerformanceEntry::dated(db, reset),
            Err(_) => Err(()),
        }
    }
}

/// Whether the numbers of a row of the construction leaderboard can be
/// answered: its ranks and the time to the start of construction are `u32`s.
pub open spec fn has_answerable_numbers(db: DbConstructionLeaderboardEntry) -> bool {
    &&& as_u32(db.duration_minutes_start_fortnight_start_jump_gate_construction) is Some
    &&& as_u32(db.rank_jump_gate_construction) is Some
    &&& as_u32(db.rank_start_fortnight_start_jump_gate_construction) is Some
    &&& as_u32(db.rank_start_fortnight_finish_jump_gate_construction) is Some
}

/// Whether a row of the construction leaderboard can be answered: its date
/// is a day of the calendar, and its numbers can be answered.
pub open spec fn is_answerable(db: DbConstructionLeaderboardEntry) -> bool {
    db.reset_date.rendering() is Some && has_answerable_numbers(db)
}

/// Whether `entry` answers a row of the construction leaderboard, the date
/// set aside.
pub open spec fn answers_row(
    entry: ApiAllTimeConstructionLeaderboardEntry,
    db: DbConstructionLeaderboardEntry,
) -> bool {
    &&& entry.ts_start_of_reset == db.ts_start_of_reset
    &&& entry.jump_gate_waypoint_symbol.0 == db.jump_gate_waypoint_symbol
    &&& agent_names(entry.agents_in_system@) == split(db.agents_in_system_csv@, ',')
    &&& entry.ts_start_jump_gate_construction == db.ts_start_jump_gate_construction
    &&& entry.ts_finish_jump_gate_construction == db.ts_finish_jump_gate_construction
    &&& Some(entry.duration_minutes_start_fortnight_start_jump_gate_construction) == as_u32(
        db.duration_minutes_start_fortnight_start_jump_gate_construction,
    )
    &&& entry.duration_minutes_start_fortnight_finish_jump_gate_construction == as_u32_if_any(
        db.duration_minutes_start_fortnight_finish_jump_gate_construction,
    )
    &&& entry.duration_minutes_jump_gate_construction == as_u32_if_any(
        db.duration_minutes_jump_gate_construction,
    )
    &&& Some(entry.rank_jump_gate_construction) == as_u32(db.rank_jump_gate_construction)
    &&& Some(entry.rank_start_fortnight_start_jump_gate_construction) == as_u32(
        db.rank_start_fortnight_start_jump_gate_construction,
    )
    &&& Some(entry.rank_start_fortnight_finish_jump_gate_construction) == as_u32(
        db.rank_start_fortnight_finish_jump_gate_construction,
    )
}

impl ApiAllTimeConstructionLeaderboardEntry {
    /// A construction site's place among the sites of its epoch, given the
    /// epoch's date as it is answered. A duration up to the finish that is
    /// no `u32` is left out; there is no entry if a rank or the time to the
    /// start of construction is no `u32`.
    pub fn dated(db: DbConstructionLeaderboardEntry, reset: ApiResetDate) -> (api: Result<
        ApiAllTimeConstructionLeaderboardEntry,
        (),
    >)
        ensures
            match api {
                Ok(entry) => entry.reset == reset && has_answerable_numbers(db) && answers_row(
                    entry,
                    db,
                ),
                Err(_) => !has_answerable_numbers(db),
            },
    {
        let start = match to_u32(db.duration_minutes_start_fortnight_start_jump_gate_construction) {
            Some(v) => v,
            None => {
                return Err(());
            },
        };
        let rank_jump_gate_construction = match to_u32(db.rank_jump_gate_construction) {
            Some(v) => v,
            None => {
                return Err(());
            },
        };
        let rank_start = match to_u32(db.rank_start_fortnight_start_jump_gate_construction) {
            Some(v) => v,
            None => {
                return Err(());
            },
        };
        let rank_finish = match to_u32(db.rank_start_fortnight_finish_jump_gate_construction) {
            Some(v) => v,
            None => {
                return Err(());
            },
        };
        let agents_in_system = agents_in_csv(db.agents_in_system_csv.as_str());
        Ok(
            ApiAllTimeConstructionLeaderboardEntry {
                reset,
                ts_start_of_reset: db.ts_start_of_reset,
                jump_gate_waypoint_symbol: ApiWaypointSymbol(db.jump_gate_waypoint_symbol),
                agents_in_system,
                ts_start_jump_gate_construction: db.ts_start_jump_gate_construction,
                ts_finish_jump_gate_construction: db.ts_finish_jump_gate_construction,
                duration_minutes_start_fortnight_start_jump_gate_construction: start,
                duration_minutes_start_fortnight_finish_jump_gate_construction: to_u32_if_any(
                    db.duration_minutes_start_fortnight_finish_jump_gate_construction,
                ),
                duration_minutes_jump_gate_construction: to_u32_if_any(
                    db.duration_minutes_jump_gate_construction,
                ),
                rank_jump_gate_construction,
                rank_start_fortnight_start_jump_gate_construction: rank_start,
                rank_start_fortnight_finish_jump_gate_construction: rank_finish,
            },
        )
    }

    /// A construction site's place among the sites of its epoch. There is
    /// no entry if the row cannot be answered.
    pub fn try_from(db: DbConstructionLeaderboardEntry) -> (api: Result<
        ApiAllTimeConstructionLeaderboardEntry,
        (),
    >)
        ensures
            match api {
                Ok(entry) => is_answerable(db) && db.reset_date.rendering() == Some(entry.reset.0@)
                    && answers_row(entry, db),
                Err(_) => !is_answerable(db),
            },
    {
        match ApiResetDate::try_from(db.reset_date) {
            Ok(reset) => ApiAllTimeConstructionLeaderboardEntry::dated(db, reset),
            Err(_) => Err(()),
        }
    }
}

} // verus!
