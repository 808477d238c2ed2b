//! What a poll decides on its way: which agents are new, what discovery
//! and the calls for current state record, and how the answers of a fan-out
//! are gathered.

use crate::db::{DbStaticAgentInfo, keys_of, natural_keys};
use crate::leaderboard_model::{
    LeaderboardCurrentAgentInfo, LeaderboardCurrentConstructionInfo, LeaderboardStaticAgentInfo,
};
use crate::lists::{distinct, lemma_distinct, lemma_without, texts_without, unique_texts, without};
use crate::model::{
    AgentInfoResponseData, AgentSymbol, FactionSymbol, GetConstructionResponseData, Leaderboards,
    ListWaypointsInSystemResponse, StStatusResponse, SystemSymbol, WaypointSymbol,
    extract_system_symbol, system_symbol_of,
};
use crate::text::{copy_text, texts};
use crate::tick::TickFailure;
use vstd::prelude::*;

verus! {

/// The agents leading by submitted charts, as ranked.
pub open spec fn chart_leaders(leaderboards: Leaderboards) -> Seq<Seq<char>> {
    Seq::new(
        leaderboards.most_submitted_charts@.len(),
        |i: int| leaderboards.most_submitted_charts@[i].agent_symbol@,
    )
}

/// The agents leading by credits, as ranked.
pub open spec fn credit_leaders(leaderboards: Leaderboards) -> Seq<Seq<char>> {
    Seq::new(
        leaderboards.most_credits@.len(),
        |i: int| leaderboards.most_credits@[i].agent_symbol@,
    )
}

/// The agents to discover: everyone on one of the two ranked lists, chart
/// leaders first, named once, who is not tracked yet.
pub open spec fn missing_symbols(leaderboards: Leaderboards, known: Seq<Seq<char>>) -> Seq<
    Seq<char>,
> {
    without(distinct(chart_leaders(leaderboards) + credit_leaders(leaderboards)), known)
}

/// Discovery is asked for exactly the leaders that are not tracked yet, and
/// for none of them twice.
pub proof fn lemma_missing_symbols(leaderboards: Leaderboards, known: Seq<Seq<char>>)
    ensures
        missing_symbols(leaderboards, known).no_duplicates(),
        forall|symbol: Seq<char>| #[trigger]
            missing_symbols(leaderboards, known).contains(symbol) <==> (chart_leaders(
                leaderboards,
            ).contains(symbol) || credit_leaders(leaderboards).contains(symbol))
                && !known.contains(symbol),
{
    let a = chart_leaders(leaderboards);
    let b = credit_leaders(leaderboards);
    let leaders = a + b;
    lemma_distinct(leaders);
    lemma_without(distinct(leaders), known);
    assert forall|symbol: Seq<char>| #[trigger]
        missing_symbols(leaderboards, known).contains(symbol) <==> (a.contains(symbol)
            || b.contains(symbol)) && !known.contains(symbol) by {
        if a.contains(symbol) {
            let k = choose|k: int| 0 <= k < a.len() && a[k] == symbol;
            assert(leaders[k] == symbol);
        }
        if b.contains(symbol) {
            let k = choose|k: int| 0 <= k < b.len() && b[k] == symbol;
            assert(leaders[a.len() + k] == symbol);
        }
        if leaders.contains(symbol) {
            let k = choose|k: int| 0 <= k < leaders.len() && leaders[k] == symbol;
        }
    }
}

/// The leaders' symbols: chart leaders first, then credit leaders.
pub fn leader_symbols(leaderboards: &Leaderboards) -> (symbols: Vec<String>)
    ensures
        texts(symbols@) == chart_leaders(*leaderboards) + credit_leaders(*leaderboards),
{
    let mut symbols: Vec<String> = Vec::new();
    let mut i: usize = 0;
    while i < leaderboards.most_submitted_charts.len()
        invariant
            i <= leaderboards.most_submitted_charts@.len(),
            texts(symbols@) == chart_leaders(*leaderboards).take(i as int),
        decreases leaderboards.most_submitted_charts@.len() - i,
    {
        let ghost before = texts(symbols@);
        symbols.push(copy_text(&leaderboards.most_submitted_charts[i].agent_symbol));
        assert(texts(symbols@) =~= before.push(chart_leaders(*leaderboards)[i as int]));
        i += 1;
    }
    let mut j: usize = 0;
    while j < leaderboards.most_credits.len()
        invariant
            j <= leaderboards.most_credits@.len(),
            texts(symbols@) == chart_leaders(*leaderboards) + credit_leaders(*leaderboards).take(
                j as int,
            ),
        decreases leaderboards.most_credits@.len() - j,
    {
        let ghost before = texts(symbols@);
        symbols.push(copy_text(&leaderboards.most_credits[j].agent_symbol));
        assert(texts(symbols@) =~= before.push(credit_leaders(*leaderboards)[j as int]));
        j += 1;
    }
    symbols
}

/// Decides which agents to discover: the leaders of either ranked list that
/// are not tracked for this epoch yet.
pub fn determine_missing_agent_symbols(
    st_status: StStatusResponse,
    static_agent_infos: Vec<DbStaticAgentInfo>,
) -> (missing: Vec<String>)
    ensures
        texts(missing@) == missing_symbols(
            st_status.leaderboards,
            natural_keys(static_agent_infos@),
        ),
{
    let leaders = unique_texts(leader_symbols(&st_status.leaderboards));
    let known = keys_of(&static_agent_infos);
    texts_without(leaders, &known)
}

/// The first failure among the results, if any failed.
pub open spec fn first_failure<T>(results: Seq<Result<T, TickFailure>>) -> Option<TickFailure>
    decreases results.len(),
{
    if results.len() == 0 {
        None
    } else {
        match results[0] {
            Err(failure) => Some(failure),
            Ok(_) => first_failure(results.drop_first()),
        }
    }
}

/// What the results hold, result by result, where none failed.
pub open spec fn successes<T>(results: Seq<Result<T, TickFailure>>) -> Seq<T> {
    Seq::new(results.len(), |i: int| results[i]->Ok_0)
}

/// There is a first failure exactly if some result failed.
pub proof fn lemma_first_failure<T>(results: Seq<Result<T, TickFailure>>)
    ensures
        first_failure(results) is None <==> forall|i: int|
            0 <= i < results.len() ==> (#[trigger] results[i]) is Ok,
    decreases results.len(),
{
    if results.len() > 0 {
        let rest = results.drop_first();
        lemma_first_failure(rest);
        if results[0] is Ok {
            if first_failure(results) is None {
                assert forall|i: int| 0 <= i < results.len() implies (#[trigger] results[i]) is Ok by {
                    if i > 0 {
                        assert(rest[i - 1] is Ok);
                    }
                }
            }
        }
    }
}

/// A failure that no failure comes before is the first failure.
pub proof fn lemma_first_failure_at<T>(results: Seq<Result<T, TickFailure>>, k: int)
    requires
        0 <= k < results.len(),
        results[k] is Err,
        forall|j: int| 0 <= j < k ==> (#[trigger] results[j]) is Ok,
    ensures
        first_failure(results) == Some(results[k]->Err_0),
    decreases k,
{
    if k > 0 {
        let rest = results.drop_first();
        lemma_first_failure_at(rest, k - 1);
    }
}

/// Gathers the answers of a fan-out. One failed call fails the whole: the
/// first failure in the order of the calls is handed on and no answer is.
pub fn gather<T>(results: Vec<Result<T, TickFailure>>) -> (r: Result<Vec<T>, TickFailure>)
    ensures
        match r {
            Ok(values) => first_failure(results@) is None && values@ == successes(results@),
            Err(failure) => first_failure(results@) == Some(failure),
        },
{
    let mut values: Vec<T> = Vec::new();
    for result in it: results
        invariant
            it.seq() == results@,
            values@.len() == it.index(),
            forall|j: int|
                0 <= j < values@.len() ==> results@[j] == Ok::<T, TickFailure>(#[trigger] values@[j]),
    {
        match result {
            Ok(value) => {
                values.push(value);
            },
            Err(failure) => {
                proof {
                    assert forall|j: int| 0 <= j < it.index() implies (#[trigger] results@[j]) is Ok by {
                        assert(results@[j] == Ok::<T, TickFailure>(values@[j]));
                    }
                    lemma_first_failure_at(results@, it.index() as int);
                }
                return Err(failure);
            },
        }
    }
    proof {
        assert forall|j: int| 0 <= j < results@.len() implies (#[trigger] results@[j]) is Ok by {
            assert(results@[j] == Ok::<T, TickFailure>(values@[j]));
        }
        lemma_first_failure(results@);
    }
    Ok(values)
}

/// The system to search for an agent's jump gate: the system of the agent's
/// headquarters.
pub fn headquarters_system(agent_info: &AgentInfoResponseData) -> (r: Result<
    SystemSymbol,
    TickFailure,
>)
    ensures
        match r {
            Ok(system) => system_symbol_of(agent_info.headquarters@) == Some(system@),
            Err(failure) => failure == TickFailure::MalformedHeadquarters && system_symbol_of(
                agent_info.headquarters@,
            ) is None,
        },
{
    let headquarters = WaypointSymbol(copy_text(&agent_info.headquarters));
    match extract_system_symbol(&headquarters) {
        Some(system) => Ok(system),
        None => Err(TickFailure::MalformedHeadquarters),
    }
}

/// What discovery records of an agent: who it is, where it started, and the
/// first jump gate listed for its system as its construction site.
pub fn get_static_agent_info(
    agent_info: AgentInfoResponseData,
    jump_gate_waypoints: &ListWaypointsInSystemResponse,
) -> (r: Result<LeaderboardStaticAgentInfo, TickFailure>)
    ensures
        match r {
            Ok(info) => {
                &&& jump_gate_waypoints.data@.len() > 0
                &&& info.symbol@ == agent_info.symbol@
                &&& info.headquarters@ == agent_info.headquarters@
                &&& info.starting_faction@ == agent_info.starting_faction@
                &&& info.jump_gate@ == jump_gate_waypoints.data@[0].symbol@
            },
            Err(failure) => failure == TickFailure::NoJumpGate && jump_gate_waypoints.data@.len()
                == 0,
        },
{
    if jump_gate_waypoints.data.len() == 0 {
        return Err(TickFailure::NoJumpGate);
    }
    let jump_gate = copy_text(&jump_gate_waypoints.data[0].symbol);
    Ok(
        LeaderboardStaticAgentInfo {
            symbol: AgentSymbol(agent_info.symbol),
            headquarters: WaypointSymbol(agent_info.headquarters),
            starting_faction: FactionSymbol(agent_info.starting_faction),
            jump_gate: WaypointSymbol(jump_gate),
        },
    )
}

/// An agent's state at this poll, as the service reports it.
pub fn get_current_agent_info(agent_symbol: AgentSymbol, agent_info: &AgentInfoResponseData) -> (r:
    LeaderboardCurrentAgentInfo)
    ensures
        r.symbol == agent_symbol,
        r.credits == agent_info.credits,
        r.ship_count == agent_info.ship_count,
{
    LeaderboardCurrentAgentInfo {
        symbol: agent_symbol,
        credits: agent_info.credits,
        ship_count: agent_info.ship_count,
    }
}

/// A construction site's state at this poll, as the service reports it.
pub fn get_current_construction(
    waypoint_symbol: WaypointSymbol,
    construction_site_info: GetConstructionResponseData,
) -> (r: LeaderboardCurrentConstructionInfo)
    ensures
        r.symbol == waypoint_symbol,
        r.materials == construction_site_info.materials,
        r.is_complete == construction_site_info.is_complete,
{
    LeaderboardCurrentConstructionInfo {
        symbol: waypoint_symbol,
        materials: construction_site_info.materials,
        is_complete: construction_site_info.is_complete,
    }
}

} // verus!
