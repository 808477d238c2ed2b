//! One poll as a sequence of steps. Each step takes what came back from
//! the world outside and decides what is asked of it next; calling the
//! remote service and the store is left to whoever drives the steps.

use crate::db::{
    DbConstructionRequirement, DbConstructionSite, DbStaticAgentInfo, ResetDate, keys_of,
    natural_keys,
};
use crate::leaderboard_collector::{
    determine_missing_agent_symbols, first_failure, gather, lemma_first_failure, missing_symbols,
    successes,
};
use crate::leaderboard_model::{
    LeaderboardCurrentAgentInfo, LeaderboardCurrentConstructionInfo, LeaderboardStaticAgentInfo,
};
use crate::model::StStatusResponse;
use crate::snapshot::{
    NewConstructionRequirement, NewStaticAgentRow, SnapshotPlan, agents_known, assigned_site,
    construction_requirements_to_save, construction_sites_to_save, discovered_jump_gates,
    is_snapshot_plan, is_static_agent_row, plan_snapshot, requirements_known, seeded_materials,
    sites_known, static_agent_rows,
};
use crate::text::texts;
use crate::time::{CalendarDate, Timestamp, parse_reset_date, parsed_calendar_date};
use vstd::prelude::*;
use vstd::string::*;

verus! {

/// Why a poll was given up.
#[derive(Clone, Copy, Debug, PartialEq, Eq, Structural)]
pub enum TickFailure {
    /// A call to the remote service failed for good.
    RemoteCallFailed,
    /// The store refused a read or a write.
    StoreFailed,
    /// The service's reset date is no calendar date.
    MalformedResetDate,
    /// An agent's headquarters names no system.
    MalformedHeadquarters,
    /// An agent's system lists no jump gate.
    NoJumpGate,
    /// An agent or a snapshot refers to a construction site that is not stored.
    UnknownConstructionSite,
    /// A snapshot refers to an agent that is not stored.
    UnknownAgent,
    /// A snapshot reports a material that the epoch has no requirement for.
    UnknownRequirement,
    /// An answer arrived that the poll was not waiting for.
    UnexpectedEvent,
}

/// Where a poll stands: what it has learned so far and which answer it is
/// waiting for.
#[derive(Debug)]
pub enum TickState {
    /// Nothing has happened yet.
    Idle,
    AwaitingStatus,
    AwaitingEpoch { status: StStatusResponse, now: Timestamp },
    AwaitingDiscovery { epoch: ResetDate, now: Timestamp },
    AwaitingSites { epoch: ResetDate, now: Timestamp, discovered: Vec<LeaderboardStaticAgentInfo> },
    AwaitingAgents { epoch: ResetDate, now: Timestamp, sites: Vec<DbConstructionSite> },
    AwaitingCurrent {
        epoch: ResetDate,
        now: Timestamp,
        agents: Vec<DbStaticAgentInfo>,
        sites: Vec<DbConstructionSite>,
    },
    AwaitingRequirements {
        epoch: ResetDate,
        now: Timestamp,
        agents: Vec<DbStaticAgentInfo>,
        sites: Vec<DbConstructionSite>,
        current_agents: Vec<LeaderboardCurrentAgentInfo>,
        current_constructions: Vec<LeaderboardCurrentConstructionInfo>,
    },
    AwaitingWrite,
    /// The snapshot is written.
    Finished,
    /// The poll was given up; nothing of its snapshot is written.
    Aborted { failure: TickFailure },
}

/// What came back from the world outside: the answer to the last action.
#[derive(Debug)]
pub enum TickEvent {
    Started,
    /// The service's status, and the instant it was received.
    StatusFetched { status: StStatusResponse, now: Timestamp },
    /// The epoch of the reset date, loaded or created, and its agents.
    EpochResolved { epoch: ResetDate, static_agent_infos: Vec<DbStaticAgentInfo> },
    /// The outcome of discovery, agent by agent.
    AgentsDiscovered { results: Vec<Result<LeaderboardStaticAgentInfo, TickFailure>> },
    /// The epoch's construction sites, the new ones among them.
    SitesSaved { sites: Vec<DbConstructionSite> },
    /// The epoch's agents, the new ones among them.
    AgentsSaved { static_agent_infos: Vec<DbStaticAgentInfo> },
    /// The outcome of every call for current state, agent by agent and site by site.
    CurrentCollected {
        agents: Vec<Result<LeaderboardCurrentAgentInfo, TickFailure>>,
        constructions: Vec<Result<LeaderboardCurrentConstructionInfo, TickFailure>>,
    },
    /// The epoch's requirements, the seeded ones among them.
    RequirementsSeeded { requirements: Vec<DbConstructionRequirement> },
    SnapshotWritten,
    /// The last action failed.
    Failed { failure: TickFailure },
}

/// What the poll asks of the world outside next.
#[derive(Debug)]
pub enum TickAction {
    FetchStatus,
    /// Load the epoch of this date, or create it as first seen at `now`,
    /// and load its agents.
    ResolveEpoch { reset: CalendarDate, now: Timestamp },
    /// Fetch what never changes about each of these agents.
    Discover { agent_symbols: Vec<String> },
    /// Make sure the epoch has these construction sites, and load all it has.
    SaveSites { reset_id: i64, jump_gates: Vec<String> },
    /// Store these agents, and load all the epoch has.
    SaveAgents { reset_id: i64, rows: Vec<NewStaticAgentRow> },
    /// Fetch the current state of each of these agents and sites.
    CollectCurrent { agent_symbols: Vec<String>, jump_gates: Vec<String> },
    /// Make sure the epoch has these requirements, and load all it has.
    SeedRequirements { reset_id: i64, requirements: Vec<NewConstructionRequirement> },
    /// Write the snapshot, all of it or nothing.
    WriteSnapshot { plan: SnapshotPlan },
    Finish,
    Abort { failure: TickFailure },
}

/// Minutes from one poll to the next.
pub const POLL_EVERY_MINUTES: u32 = 5;

/// Whether `seeds` are the requirements that the site snapshots seed.
pub open spec fn are_requirement_seeds(
    seeds: Seq<NewConstructionRequirement>,
    current_constructions: Seq<LeaderboardCurrentConstructionInfo>,
) -> bool {
    &&& seeds.len() == seeded_materials(current_constructions).len()
    &&& forall|k: int|
        0 <= k < seeds.len() ==> (#[trigger] seeds[k]).trade_symbol@ == seeded_materials(
            current_constructions,
        )[k].trade_symbol@ && seeds[k].required == seeded_materials(current_constructions)[k].required
}

/// Whether `rows` store the discovered agents one by one.
pub open spec fn are_static_agent_rows(
    rows: Seq<NewStaticAgentRow>,
    discovered: Seq<LeaderboardStaticAgentInfo>,
    sites: Seq<DbConstructionSite>,
    reset_id: i64,
    now: Timestamp,
) -> bool {
    &&& rows.len() == discovered.len()
    &&& forall|i: int|
        0 <= i < rows.len() ==> is_static_agent_row(
            #[trigger] rows[i],
            discovered[i],
            sites,
            reset_id,
            now,
        )
}

/// Whether every discovered agent's jump gate is among the stored sites.
pub open spec fn all_assigned(
    discovered: Seq<LeaderboardStaticAgentInfo>,
    sites: Seq<DbConstructionSite>,
) -> bool {
    forall|i: int| 0 <= i < discovered.len() ==> assigned_site(#[trigger] discovered[i], sites) is Some
}

/// Whether the poll is given up with `failure`.
pub open spec fn gives_up(next: TickState, action: TickAction, failure: TickFailure) -> bool {
    next == (TickState::Aborted { failure }) && action == (TickAction::Abort { failure })
}

/// The failure a snapshot cannot be planned for, if there is one: an
/// unknown agent counts before an unknown site, and that before an unknown
/// requirement.
pub open spec fn planning_failure(
    current_agents: Seq<LeaderboardCurrentAgentInfo>,
    agents: Seq<DbStaticAgentInfo>,
    current_constructions: Seq<LeaderboardCurrentConstructionInfo>,
    sites: Seq<DbConstructionSite>,
    requirements: Seq<DbConstructionRequirement>,
) -> Option<TickFailure> {
    if !agents_known(current_agents, agents) {
        Some(TickFailure::UnknownAgent)
    } else if !sites_known(current_constructions, sites) {
        Some(TickFailure::UnknownConstructionSite)
    } else if !requirements_known(current_constructions, requirements) {
        Some(TickFailure::UnknownRequirement)
    } else {
        None
    }
}

/// One step of a poll: in `state`, on `event`, the poll goes on to `next`
/// and asks for `action`.
///
/// A poll runs through its phases in a fixed order: status, epoch,
/// discovery, sites, agents, current state, requirements, snapshot. Each
/// phase starts only when the one before has been answered in full. A
/// failure reported from outside, one failed call of a fan-out, an answer
/// that cannot be attributed or an answer out of turn gives the poll up.
pub open spec fn tick_transition(
    state: TickState,
    event: TickEvent,
    next: TickState,
    action: TickAction,
) -> bool {
    match (state, event) {
        (_, TickEvent::Failed { failure }) => gives_up(next, action, failure),
        (TickState::Idle, TickEvent::Started) => {
            next == TickState::AwaitingStatus && action == TickAction::FetchStatus
        },
        (TickState::AwaitingStatus, TickEvent::StatusFetched { status, now }) => {
            match parsed_calendar_date(status.reset_date@) {
                Some(reset) => {
                    &&& next == (TickState::AwaitingEpoch { status, now })
                    &&& action == (TickAction::ResolveEpoch { reset, now })
                },
                None => gives_up(next, action, TickFailure::MalformedResetDate),
            }
        },
        (
            TickState::AwaitingEpoch { status, now },
            TickEvent::EpochResolved { epoch, static_agent_infos },
        ) => {
            &&& next == (TickState::AwaitingDiscovery { epoch, now })
            &&& action matches TickAction::Discover { agent_symbols }
            &&& texts(agent_symbols@) == missing_symbols(
                status.leaderboards,
                natural_keys(static_agent_infos@),
            )
        },
        (TickState::AwaitingDiscovery { epoch, now }, TickEvent::AgentsDiscovered { results }) => {
            match first_failure(results@) {
                Some(failure) => gives_up(next, action, failure),
                None => {
                    &&& next matches TickState::AwaitingSites { epoch: e, now: n, discovered }
                    &&& e == epoch
                    &&& n == now
                    &&& discovered@ == successes(results@)
                    &&& action matches TickAction::SaveSites { reset_id, jump_gates }
                    &&& reset_id == epoch.reset_id
                    &&& texts(jump_gates@) == discovered_jump_gates(successes(results@))
                },
            }
        },
        (
            TickState::AwaitingSites { epoch, now, discovered },
            TickEvent::SitesSaved { sites },
        ) => {
            if all_assigned(discovered@, sites@) {
                &&& next == (TickState::AwaitingAgents { epoch, now, sites })
                &&& action matches TickAction::SaveAgents { reset_id, rows }
                &&& reset_id == epoch.reset_id
                &&& are_static_agent_rows(rows@, discovered@, sites@, epoch.reset_id, now)
            } else {
                gives_up(next, action, TickFailure::UnknownConstructionSite)
            }
        },
        (
            TickState::AwaitingAgents { epoch, now, sites },
            TickEvent::AgentsSaved { static_agent_infos },
        ) => {
            &&& next == (TickState::AwaitingCurrent { epoch, now, agents: static_agent_infos, sites })
            &&& action matches TickAction::CollectCurrent { agent_symbols, jump_gates }
            &&& texts(agent_symbols@) == natural_keys(static_agent_infos@)
            &&& texts(jump_gates@) == natural_keys(sites@)
        },
        (
            TickState::AwaitingCurrent { epoch, now, agents, sites },
            TickEvent::CurrentCollected { agents: agent_results, constructions },
        ) => {
            match first_failure(agent_results@) {
                Some(failure) => gives_up(next, action, failure),
                None => match first_failure(constructions@) {
                    Some(failure) => gives_up(next, action, failure),
                    None => {
                        &&& next matches TickState::AwaitingRequirements {
                            epoch: e,
                            now: n,
                            agents: a,
                            sites: s,
                            current_agents,
                            current_constructions,
                        }
                        &&& e == epoch
                        &&& n == now
                        &&& a == agents
                        &&& s == sites
                        &&& current_agents@ == successes(agent_results@)
                        &&& current_constructions@ == successes(constructions@)
                        &&& action matches TickAction::SeedRequirements { reset_id, requirements }
                        &&& reset_id == epoch.reset_id
                        &&& are_requirement_seeds(requirements@, successes(constructions@))
                    },
                },
            }
        },
        (
            TickState::AwaitingRequirements {
                epoch,
                now,
                agents,
                sites,
                current_agents,
                current_constructions,
            },
            TickEvent::RequirementsSeeded { requirements },
        ) => {
            match planning_failure(
                current_agents@,
                agents@,
                current_constructions@,
                sites@,
                requirements@,
            ) {
                Some(failure) => gives_up(next, action, failure),
                None => {
                    &&& next == TickState::AwaitingWrite
                    &&& action matches TickAction::WriteSnapshot { plan }
                    &&& is_snapshot_plan(
                        plan,
                        now,
                        epoch,
                        current_agents@,
                        agents@,
                        current_constructions@,
                        sites@,
                        requirements@,
                    )
                },
            }
        },
        (TickState::AwaitingWrite, TickEvent::SnapshotWritten) => {
            next == TickState::Finished && action == TickAction::Finish
        },
        _ => gives_up(next, action, TickFailure::UnexpectedEvent),
    }
}

/// The step on the service's status, given what its reset date reads as:
/// the epoch of that date is resolved next; a reset date that reads as
/// nothing gives the poll up.
pub fn on_status_fetched(status: StStatusResponse, now: Timestamp, reset: Option<CalendarDate>) -> (r:
    (TickState, TickAction))
    ensures
        match reset {
            Some(date) => {
                &&& r.0 == (TickState::AwaitingEpoch { status, now })
                &&& r.1 == (TickAction::ResolveEpoch { reset: date, now })
            },
            None => gives_up(r.0, r.1, TickFailure::MalformedResetDate),
        },
{
    match reset {
        Some(date) => (
            TickState::AwaitingEpoch { status, now },
            TickAction::ResolveEpoch { reset: date, now },
        ),
        None => give_up(TickFailure::MalformedResetDate),
    }
}

/// Takes one step of a poll.
pub fn tick_step(state: TickState, event: TickEvent) -> (r: (TickState, TickAction))
    ensures
        tick_transition(state, event, r.0, r.1),
{
    match (state, event) {
        (_, TickEvent::Failed { failure }) => give_up(failure),
        (TickState::Idle, TickEvent::Started) => (TickState::AwaitingStatus, TickAction::FetchStatus),
        (TickState::AwaitingStatus, TickEvent::StatusFetched { status, now }) => {
            let reset = parse_reset_date(status.reset_date.as_str());
            on_status_fetched(status, now, reset)
        },
        (
            TickState::AwaitingEpoch { status, now },
            TickEvent::EpochResolved { epoch, static_agent_infos },
        ) => {
            let agent_symbols = determine_missing_agent_symbols(status, static_agent_infos);
            (TickState::AwaitingDiscovery { epoch, now }, TickAction::Discover { agent_symbols })
        },
        (TickState::AwaitingDiscovery { epoch, now }, TickEvent::AgentsDiscovered { results }) => {
            match gather(results) {
                Ok(discovered) => {
                    let jump_gates = construction_sites_to_save(&discovered);
                    (
                        TickState::AwaitingSites { epoch, now, discovered },
                        TickAction::SaveSites { reset_id: epoch.reset_id, jump_gates },
                    )
                },
                Err(failure) => give_up(failure),
            }
        },
        (
            TickState::AwaitingSites { epoch, now, discovered },
            TickEvent::SitesSaved { sites },
        ) => {
            match static_agent_rows(epoch, &discovered, &sites, now) {
                Some(rows) => {
                    assert(all_assigned(discovered@, sites@)) by {
                        assert forall|i: int| 0 <= i < discovered@.len() implies assigned_site(
                            #[trigger] discovered@[i],
                            sites@,
                        ) is Some by {
                            assert(is_static_agent_row(
                                rows[i],
                                discovered[i],
                                sites@,
                                epoch.reset_id,
                                now,
                            ));
                        }
                    }
                    (
                        TickState::AwaitingAgents { epoch, now, sites },
                        TickAction::SaveAgents { reset_id: epoch.reset_id, rows },
                    )
                },
                None => give_up(TickFailure::UnknownConstructionSite),
            }
        },
        (
            TickState::AwaitingAgents { epoch, now, sites },
            TickEvent::AgentsSaved { static_agent_infos },
        ) => {
            let agent_symbols = keys_of(&static_agent_infos);
            let jump_gates = keys_of(&sites);
            (
                TickState::AwaitingCurrent { epoch, now, agents: static_agent_infos, sites },
                TickAction::CollectCurrent { agent_symbols, jump_gates },
            )
        },
        (
            TickState::AwaitingCurrent { epoch, now, agents, sites },
            TickEvent::CurrentCollected { agents: agent_results, constructions },
        ) => {
            match gather(agent_results) {
                Err(failure) => give_up(failure),
                Ok(current_agents) => match gather(constructions) {
                    Err(failure) => give_up(failure),
                    Ok(current_constructions) => {
                        let requirements = construction_requirements_to_save(
                            &current_constructions,
                        );
                        (
                            TickState::AwaitingRequirements {
                                epoch,
                                now,
                                agents,
                                sites,
                                current_agents,
                                current_constructions,
                            },
                            TickAction::SeedRequirements { reset_id: epoch.reset_id, requirements },
                        )
                    },
                },
            }
        },
        (
            TickState::AwaitingRequirements {
                epoch,
                now,
                agents,
                sites,
                current_agents,
                current_constructions,
            },
            TickEvent::RequirementsSeeded { requirements },
        ) => {
            match plan_snapshot(
                now,
                epoch,
                &current_agents,
                &agents,
                &current_constructions,
                &sites,
                &requirements,
            ) {
                Ok(plan) => (TickState::AwaitingWrite, TickAction::WriteSnapshot { plan }),
                Err(failure) => give_up(failure),
            }
        },
        (TickState::AwaitingWrite, TickEvent::SnapshotWritten) => (
            TickState::Finished,
            TickAction::Finish,
        ),
        _ => give_up(TickFailure::UnexpectedEvent),
    }
}

/// Gives the poll up.
fn give_up(failure: TickFailure) -> (r: (TickState, TickAction))
    ensures
        r.0 == (TickState::Aborted { failure }),
        r.1 == (TickAction::Abort { failure }),
{
    (TickState::Aborted { failure }, TickAction::Abort { failure })
}

/// A poll that is told of a failure is given up, whatever it was waiting for.
pub proof fn lemma_failure_gives_up(
    state: TickState,
    failure: TickFailure,
    next: TickState,
    action: TickAction,
)
    requires
        tick_transition(state, TickEvent::Failed { failure }, next, action),
    ensures
        next == (TickState::Aborted { failure }),
        action == (TickAction::Abort { failure }),
{
}

/// If the call for the current state of a single agent or site failed, the
/// poll is given up: no snapshot is planned, however many calls succeeded.
pub proof fn lemma_failed_call_gives_up(
    state: TickState,
    agents: Vec<Result<LeaderboardCurrentAgentInfo, TickFailure>>,
    constructions: Vec<Result<LeaderboardCurrentConstructionInfo, TickFailure>>,
    next: TickState,
    action: TickAction,
)
    requires
        tick_transition(state, TickEvent::CurrentCollected { agents, constructions }, next, action),
        (exists|i: int| 0 <= i < agents@.len() && (#[trigger] agents@[i]) is Err) || (exists|i: int|
            0 <= i < constructions@.len() && (#[trigger] constructions@[i]) is Err),
    ensures
        next is Aborted,
        action is Abort,
{
    lemma_first_failure(agents@);
    lemma_first_failure(constructions@);
}

/// The phases of a poll follow each other in one order: whatever a step
/// asks for, it asks in the one state that stands before it. So discovery
/// is over before current state is called for, and a snapshot is handed out
/// for writing only when the poll has every current state and the epoch's
/// requirements.
pub proof fn lemma_phases_in_order(
    state: TickState,
    event: TickEvent,
    next: TickState,
    action: TickAction,
)
    requires
        tick_transition(state, event, next, action),
    ensures
        action is FetchStatus ==> state is Idle && next is AwaitingStatus,
        action is ResolveEpoch ==> state is AwaitingStatus && next is AwaitingEpoch,
        action is Discover ==> state is AwaitingEpoch && next is AwaitingDiscovery,
        action is SaveSites ==> state is AwaitingDiscovery && next is AwaitingSites,
        action is SaveAgents ==> state is AwaitingSites && next is AwaitingAgents,
        action is CollectCurrent ==> state is AwaitingAgents && next is AwaitingCurrent,
        action is SeedRequirements ==> state is AwaitingCurrent && next is AwaitingRequirements,
        action is WriteSnapshot ==> state is AwaitingRequirements && event is RequirementsSeeded
            && next is AwaitingWrite,
        action is Finish ==> state is AwaitingWrite && next is Finished,
        action is Abort ==> next is Aborted,
{
}

/// A poll that was given up or has finished takes no further action but to
/// give up.
pub proof fn lemma_ended_poll_stays_ended(
    state: TickState,
    event: TickEvent,
    next: TickState,
    action: TickAction,
)
    requires
        tick_transition(state, event, next, action),
        state is Aborted || state is Finished,
    ensures
        next is Aborted,
        action is Abort,
{
}

} // verus!
