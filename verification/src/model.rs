//! The remote service's vocabulary: symbols and the shapes of its answers.

use crate::text::{copy_text, split, split_on};
use vstd::prelude::*;
use vstd::string::*;

verus! {

/// Name of an agent, unique within an epoch.
#[derive(Clone, Debug, PartialEq, Eq, Hash)]
pub struct AgentSymbol(pub String);

/// Name of a star system.
#[derive(Clone, Debug, PartialEq, Eq, Hash)]
pub struct SystemSymbol(pub String);

/// Name of a waypoint: sector, system and waypoint, joined by `-`.
#[derive(Clone, Debug, PartialEq, Eq, Hash)]
pub struct WaypointSymbol(pub String);

/// Name of a faction.
#[derive(Clone, Debug, PartialEq, Eq, Hash)]
pub struct FactionSymbol(pub String);

impl View for AgentSymbol {
    type V = Seq<char>;

    open spec fn view(&self) -> Seq<char> {
        self.0@
    }
}

impl View for SystemSymbol {
    type V = Seq<char>;

    open spec fn view(&self) -> Seq<char> {
        self.0@
    }
}

impl View for WaypointSymbol {
    type V = Seq<char>;

    open spec fn view(&self) -> Seq<char> {
        self.0@
    }
}

impl View for FactionSymbol {
    type V = Seq<char>;

    open spec fn view(&self) -> Seq<char> {
        self.0@
    }
}

#[derive(Debug)]
pub struct AgentInfoResponse {
    pub data: AgentInfoResponseData,
}

/// One material of a construction site: how much is needed, how much has
/// been delivered.
#[derive(Clone, Debug)]
pub struct ConstructionMaterial {
    pub trade_symbol: String,
    pub required: u32,
    pub fulfilled: u32,
}

#[derive(Debug)]
pub struct GetConstructionResponseData {
    pub symbol: String,
    pub materials: Vec<ConstructionMaterial>,
    pub is_complete: bool,
}

#[derive(Debug)]
pub struct GetConstructionResponse {
    pub data: GetConstructionResponseData,
}

#[derive(Debug)]
pub struct AgentInfoResponseData {
    pub symbol: String,
    pub headquarters: String,
    pub credits: i64,
    pub starting_faction: String,
    pub ship_count: u32,
}

/// The service's status: the current reset date and the two ranked lists
/// that decide which agents are tracked.
#[derive(Debug)]
pub struct StStatusResponse {
    pub status: String,
    pub version: String,
    pub reset_date: String,
    pub description: String,
    pub stats: Stats,
    pub leaderboards: Leaderboards,
}

#[derive(Clone, Copy, Debug)]
pub struct Stats {
    pub agents: i32,
    pub ships: i32,
    pub systems: i32,
    pub waypoints: i32,
}

#[derive(Debug)]
pub struct Leaderboards {
    pub most_credits: Vec<AgentCredits>,
    pub most_submitted_charts: Vec<AgentCharts>,
}

#[derive(Debug)]
pub struct AgentCredits {
    pub agent_symbol: String,
    pub credits: i64,
}

#[derive(Debug)]
pub struct AgentCharts {
    pub agent_symbol: String,
    pub chart_count: i32,
}

#[derive(Debug)]
pub struct ListWaypointsInSystemResponse {
    pub data: Vec<ListWaypointsInSystemResponseData>,
    pub meta: Meta,
}

/// Paging envelope of a listing: items in total, the page answered, items per page.
#[derive(Clone, Copy, Debug, PartialEq, Eq, Structural)]
pub struct Meta {
    pub total: u32,
    pub page: u32,
    pub limit: u32,
}

#[derive(Debug)]
pub struct Chart {
    pub waypoint_symbol: Option<String>,
    pub submitted_by: String,
    pub submitted_on: String,
}

#[derive(Debug)]
pub struct Faction {
    pub symbol: String,
}

#[derive(Debug)]
pub struct ListWaypointsInSystemResponseData {
    pub symbol: String,
    pub waypoint_type: String,
    pub system_symbol: String,
    pub x: i64,
    pub y: i64,
    pub orbits: Option<WaypointSymbol>,
    pub faction: Faction,
    pub chart: Chart,
    pub is_under_construction: bool,
}

/// A page of a listing that tells how the whole listing is paged.
pub trait GetMeta {
    /// The paging envelope this page carries.
    spec fn meta(&self) -> Meta;

    fn get_meta(&self) -> (m: Meta)
        ensures
            m == self.meta(),
    ;
}

impl GetMeta for ListWaypointsInSystemResponse {
    open spec fn meta(&self) -> Meta {
        self.meta
    }

    fn get_meta(&self) -> (m: Meta) {
        self.meta
    }
}

/// The system a waypoint lies in: its first two `-`-delimited segments,
/// joined by `-`. A symbol of a single segment names no system.
pub open spec fn system_symbol_of(waypoint: Seq<char>) -> Option<Seq<char>> {
    let segments = split(waypoint, '-');
    if segments.len() < 2 {
        None
    } else {
        Some(segments[0] + seq!['-'] + segments[1])
    }
}

/// Derives the system of a waypoint from the waypoint's symbol.
pub fn extract_system_symbol(waypoint_symbol: &WaypointSymbol) -> (r: Option<SystemSymbol>)
    ensures
        match r {
            Some(system) => system_symbol_of(waypoint_symbol@) == Some(system@),
            None => system_symbol_of(waypoint_symbol@) is None,
        },
{
    let segments = split_on(waypoint_symbol.0.as_str(), '-');
    if segments.len() < 2 {
        return None;
    }
    proof {
        reveal_strlit("-");
    }
    let system = copy_text(&segments[0]).concat("-").concat(segments[1].as_str());
    Some(SystemSymbol(system))
}

} // verus!
