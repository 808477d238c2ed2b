//! What one poll learns about an agent and about a construction site.

use crate::model::{AgentSymbol, ConstructionMaterial, FactionSymbol, WaypointSymbol};
use vstd::prelude::*;

verus! {

/// What never changes about an agent during an epoch.
#[derive(Clone, Debug)]
pub struct LeaderboardStaticAgentInfo {
    pub symbol: AgentSymbol,
    pub headquarters: WaypointSymbol,
    pub starting_faction: FactionSymbol,
    pub jump_gate: WaypointSymbol,
}

/// An agent's state at one poll.
#[derive(Debug)]
pub struct LeaderboardCurrentAgentInfo {
    pub symbol: AgentSymbol,
    pub credits: i64,
    pub ship_count: u32,
}

/// A construction site's state at one poll.
#[derive(Clone, Debug)]
pub struct LeaderboardCurrentConstructionInfo {
    pub symbol: WaypointSymbol,
    pub materials: Vec<ConstructionMaterial>,
    pub is_complete: bool,
}

} // verus!
