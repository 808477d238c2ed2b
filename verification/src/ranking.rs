//! Rankings: the leaderboard of an epoch and the standing of every agent in
//! every epoch.

use crate::db::{
    DbAgentLog, DbAllTimePerformanceEntry, DbJobRun, DbStaticAgentInfo, LeaderboardEntry,
};
use crate::epochs::{EpochRow, latest_job, latest_job_run};
use crate::queries::{find_by_id, position_of_id};
use crate::text::{
    copy_text, lemma_text_order_total, lemma_text_order_transitive, text_is_before,
    text_no_later, text_precedes,
};
use crate::time::{CalendarDate, date_precedes};
use vstd::multiset::Multiset;
use vstd::prelude::*;
use vstd::seq_lib::to_multiset_insert;
use vstd::string::*;

verus! {

/// Things that a ranking puts in order. The order is total: of any two, one
/// ranks no later than the other, and ranking no later carries over a third.
pub trait Ranked: Sized {
    /// Whether `self` may stand before `other` in a ranking.
    spec fn ranks_no_later(&self, other: &Self) -> bool;

    fn is_ranked_no_later(&self, other: &Self) -> (r: bool)
        ensures
            r == self.ranks_no_later(other),
    ;

    proof fn lemma_total(a: &Self, b: &Self)
        ensures
            a.ranks_no_later(b) || b.ranks_no_later(a),
    ;

    proof fn lemma_transitive(a: &Self, b: &Self, c: &Self)
        requires
            a.ranks_no_later(b),
            b.ranks_no_later(c),
        ensures
            a.ranks_no_later(c),
    ;
}

/// Whether a sequence is in ranking order: whatever stands earlier ranks no later.
pub open spec fn is_ranked<T: Ranked>(s: Seq<T>) -> bool {
    forall|i: int, j: int|
        #![trigger s[i], s[j]]
        0 <= i < j < s.len() ==> s[i].ranks_no_later(&s[j])
}

/// Puts the items in ranking order. Nothing is added and nothing is lost.
pub fn sort_by_rank<T: Ranked>(items: Vec<T>) -> (sorted: Vec<T>)
    ensures
        sorted@.to_multiset() == items@.to_multiset(),
        is_ranked(sorted@),
{
    let ghost all = items@;
    let mut rest = items;
    let mut sorted: Vec<T> = Vec::new();
    assert(sorted@.to_multiset().add(rest@.to_multiset()) =~= all.to_multiset()) by {
        broadcast use vstd::seq_lib::group_to_multiset_ensures;
    }
    while rest.len() > 0
        invariant
            is_ranked(sorted@),
            sorted@.to_multiset().add(rest@.to_multiset()) == all.to_multiset(),
        decreases rest@.len(),
    {
        let ghost before = rest@;
        let ghost placed = sorted@;
        let popped = rest.pop();
        let item = match popped {
            Some(item) => item,
            None => {
                assert(false);
                return sorted;
            },
        };
        assert(before =~= rest@.push(item));
        let mut at: usize = 0;
        while at < sorted.len() && sorted[at].is_ranked_no_later(&item)
            invariant
                at <= sorted@.len(),
                sorted@ == placed,
                forall|k: int| 0 <= k < at ==> (#[trigger] sorted@[k]).ranks_no_later(&item),
            decreases sorted@.len() - at,
        {
            at += 1;
        }
        proof {
            assert forall|k: int| #![trigger placed[k]] at <= k < placed.len() implies item.ranks_no_later(
                &placed[k],
            ) by {
                T::lemma_total(&placed[at as int], &item);
                if k > at {
                    T::lemma_transitive(&item, &placed[at as int], &placed[k]);
                }
            }
        }
        sorted.insert(at, item);
        proof {
            to_multiset_insert(placed, at as int, item);
            vstd::seq_lib::to_multiset_build(rest@, item);
        }
    }
    assert(rest@.to_multiset() =~= Multiset::<T>::empty()) by {
        broadcast use vstd::seq_lib::group_to_multiset_ensures;
    }
    sorted
}

/// A leaderboard lists the richer agent first and, of two equally rich,
/// the one with more ships.
impl Ranked for LeaderboardEntry {
    open spec fn ranks_no_later(&self, other: &Self) -> bool {
        self.credits > other.credits || (self.credits == other.credits && self.ship_count
            >= other.ship_count)
    }

    fn is_ranked_no_later(&self, other: &Self) -> (r: bool) {
        self.credits > other.credits || (self.credits == other.credits && self.ship_count
            >= other.ship_count)
    }

    proof fn lemma_total(a: &Self, b: &Self) {
    }

    proof fn lemma_transitive(a: &Self, b: &Self, c: &Self) {
    }
}

/// The leaderboard of an epoch: the agents' latest states, richest first,
/// more ships first among the equally rich.
pub fn rank_leaderboard(entries: Vec<LeaderboardEntry>) -> (ranked: Vec<LeaderboardEntry>)
    ensures
        ranked@.to_multiset() == entries@.to_multiset(),
        is_ranked(ranked@),
{
    sort_by_rank(entries)
}

/// An agent's credits at the latest poll of an epoch.
#[derive(Debug)]
pub struct AgentStanding {
    pub reset: CalendarDate,
    pub agent_symbol: String,
    pub credits: i64,
}

/// Standings are listed epoch by epoch, the earlier epoch first; within an
/// epoch the richer agent first and, of two equally rich, the one whose
/// symbol comes first.
impl Ranked for AgentStanding {
    open spec fn ranks_no_later(&self, other: &Self) -> bool {
        date_precedes(self.reset, other.reset) || (self.reset == other.reset && (self.credits
            > other.credits || (self.credits == other.credits && text_no_later(
            self.agent_symbol@,
            other.agent_symbol@,
        ))))
    }

    fn is_ranked_no_later(&self, other: &Self) -> (r: bool) {
        if self.reset.is_before(&other.reset) {
            true
        } else if other.reset.is_before(&self.reset) {
            false
        } else if self.credits != other.credits {
            self.credits > other.credits
        } else {
            !text_is_before(other.agent_symbol.as_str(), self.agent_symbol.as_str())
        }
    }

    proof fn lemma_total(a: &Self, b: &Self) {
        lemma_text_order_total(a.agent_symbol@, b.agent_symbol@);
    }

    proof fn lemma_transitive(a: &Self, b: &Self, c: &Self) {
        lemma_text_order_total(a.agent_symbol@, b.agent_symbol@);
        if text_precedes(c.agent_symbol@, a.agent_symbol@) {
            if text_precedes(a.agent_symbol@, b.agent_symbol@) {
                lemma_text_order_transitive(c.agent_symbol@, a.agent_symbol@, b.agent_symbol@);
            }
        }
    }
}

/// The rank of the standing at position `i` of a list in ranking order: its
/// place among the standings of its own epoch, counted from 1.
pub open spec fn standing_rank(standings: Seq<AgentStanding>, i: int) -> int
    decreases i,
{
    if i <= 0 {
        1
    } else if standings[i - 1].reset == standings[i].reset {
        standing_rank(standings, i - 1) + 1
    } else {
        1
    }
}

/// The standings that ranked entries were made of, entry by entry.
pub open spec fn standings_of(entries: Seq<DbAllTimePerformanceEntry>) -> Seq<AgentStanding> {
    Seq::new(
        entries.len(),
        |i: int|
            AgentStanding {
                reset: entries[i].reset,
                agent_symbol: entries[i].agent_symbol,
                credits: entries[i].credits,
            },
    )
}

/// Whether every entry carries the rank of its position.
pub open spec fn carries_ranks(entries: Seq<DbAllTimePerformanceEntry>) -> bool {
    forall|i: int|
        0 <= i < entries.len() ==> (#[trigger] entries[i]).rank == standing_rank(
            standings_of(entries),
            i,
        )
}

/// The standings of all epochs, ranked: epoch by epoch, and within each
/// epoch from rank 1 on by credits, the symbol breaking ties.
pub fn rank_all_time_performance(standings: Vec<AgentStanding>) -> (entries: Vec<
    DbAllTimePerformanceEntry,
>)
    ensures
        standings_of(entries@).to_multiset() == standings@.to_multiset(),
        is_ranked(standings_of(entries@)),
        carries_ranks(entries@),
{
    let sorted = sort_by_rank(standings);
    let count: usize = sorted.len();
    let mut entries: Vec<DbAllTimePerformanceEntry> = Vec::with_capacity(count);
    let mut rank: u64 = 0;
    for standing in it: sorted
        invariant
            it.seq() == sorted@,
            sorted@.len() == count,
            entries@.len() == it.index(),
            standings_of(entries@) == sorted@.take(it.index() as int),
            forall|j: int|
                0 <= j < entries@.len() ==> (#[trigger] entries@[j]).rank == standing_rank(
                    sorted@,
                    j,
                ),
            entries@.len() > 0 ==> rank == standing_rank(sorted@, entries@.len() - 1),
            rank <= entries@.len(),
    {
        let ghost i = entries@.len() as int;
        let same_epoch = entries.len() > 0 && entries[entries.len() - 1].reset == standing.reset;
        proof {
            if i > 0 {
                assert(standings_of(entries@)[i - 1] == sorted@[i - 1]);
            }
        }
        rank = if same_epoch {
            rank + 1
        } else {
            1
        };
        entries.push(
            DbAllTimePerformanceEntry {
                reset: standing.reset,
                agent_symbol: standing.agent_symbol,
                credits: standing.credits,
                rank,
            },
        );
    }
    assert(sorted@.take(sorted@.len() as int) =~= sorted@);
    entries
}

/// Whether an agent's state counts for the standings of the poll `job_id`:
/// it was recorded at that poll, for a stored agent.
pub open spec fn counts_for_standings(
    log: DbAgentLog,
    job_id: i64,
    agents: Seq<DbStaticAgentInfo>,
) -> bool {
    log.job_id == job_id && position_of_id(agents, log.agent_id) is Some
}

/// The standings of an epoch at the poll `job_id`: the credits of every
/// agent whose state was recorded at that poll, in the order of the log.
pub open spec fn job_standings(
    logs: Seq<DbAgentLog>,
    job_id: i64,
    reset: CalendarDate,
    agents: Seq<DbStaticAgentInfo>,
) -> Seq<AgentStanding>
    decreases logs.len(),
{
    if logs.len() == 0 {
        Seq::<AgentStanding>::empty()
    } else {
        let before = job_standings(logs.drop_last(), job_id, reset, agents);
        if counts_for_standings(logs.last(), job_id, agents) {
            before.push(
                AgentStanding {
                    reset,
                    agent_symbol: agents[position_of_id(
                        agents,
                        logs.last().agent_id,
                    )->0].agent_symbol,
                    credits: logs.last().credits,
                },
            )
        } else {
            before
        }
    }
}

/// The standings of all epochs: for every epoch that has a job run, the
/// standings at its latest job run.
pub open spec fn all_time_standings(
    epochs: Seq<EpochRow>,
    job_runs: Seq<DbJobRun>,
    logs: Seq<DbAgentLog>,
    agents: Seq<DbStaticAgentInfo>,
) -> Seq<AgentStanding>
    decreases epochs.len(),
{
    if epochs.len() == 0 {
        Seq::<AgentStanding>::empty()
    } else {
        let before = all_time_standings(epochs.drop_last(), job_runs, logs, agents);
        match latest_job(job_runs, epochs.last().reset_id) {
            Some(job) => before + job_standings(logs, job.id, epochs.last().reset, agents),
            None => before,
        }
    }
}

/// The standings of an epoch at one of its polls.
pub fn standings_of_job(
    logs: &Vec<DbAgentLog>,
    job_id: i64,
    reset: CalendarDate,
    agents: &Vec<DbStaticAgentInfo>,
) -> (standings: Vec<AgentStanding>)
    ensures
        standings@ == job_standings(logs@, job_id, reset, agents@),
{
    let mut standings: Vec<AgentStanding> = Vec::new();
    let mut i: usize = 0;
    assert(logs@.take(0) =~= Seq::<DbAgentLog>::empty());
    while i < logs.len()
        invariant
            i <= logs.len(),
            standings@ == job_standings(logs@.take(i as int), job_id, reset, agents@),
        decreases logs.len() - i,
    {
        let log = logs[i];
        let ghost upto = logs@.take(i + 1);
        assert(upto.drop_last() =~= logs@.take(i as int));
        assert(upto.last() == log);
        if log.job_id == job_id {
            match find_by_id(agents, log.agent_id) {
                Some(a) => {
                    standings.push(
                        AgentStanding {
                            reset,
                            agent_symbol: copy_text(&agents[a].agent_symbol),
                            credits: log.credits,
                        },
                    );
                },
                None => {},
            }
        }
        i += 1;
    }
    assert(logs@.take(i as int) =~= logs@);
    standings
}

/// The performance of all agents over all epochs: for every epoch the
/// standings at its latest job run, ranked within the epoch from 1 on by
/// credits, the symbol breaking ties; the epochs come earliest first.
pub fn select_all_time_performance(
    epochs: &Vec<EpochRow>,
    job_runs: &Vec<DbJobRun>,
    logs: &Vec<DbAgentLog>,
    agents: &Vec<DbStaticAgentInfo>,
) -> (entries: Vec<DbAllTimePerformanceEntry>)
    ensures
        is_ranked(standings_of(entries@)),
        carries_ranks(entries@),
        standings_of(entries@).to_multiset() == all_time_standings(
            epochs@,
            job_runs@,
            logs@,
            agents@,
        ).to_multiset(),
{
    let mut standings: Vec<AgentStanding> = Vec::new();
    let mut i: usize = 0;
    assert(epochs@.take(0) =~= Seq::<EpochRow>::empty());
    while i < epochs.len()
        invariant
            i <= epochs.len(),
            standings@ == all_time_standings(epochs@.take(i as int), job_runs@, logs@, agents@),
        decreases epochs.len() - i,
    {
        let epoch = epochs[i];
        let ghost upto = epochs@.take(i + 1);
        assert(upto.drop_last() =~= epochs@.take(i as int));
        assert(upto.last() == epoch);
        match latest_job_run(job_runs, epoch.reset_id) {
            Some(job) => {
                let mut of_epoch = standings_of_job(logs, job.id, epoch.reset, agents);
                standings.append(&mut of_epoch);
            },
            None => {},
        }
        i += 1;
    }
    assert(epochs@.take(i as int) =~= epochs@);
    rank_all_time_performance(standings)
}

/// Within an epoch every rank is given once, from 1 on: the standing that
/// stands later in the list has the higher rank.
pub proof fn lemma_ranks_rise_within_epoch(standings: Seq<AgentStanding>, i: int, j: int)
    requires
        is_ranked(standings),
        0 <= i < j < standings.len(),
        standings[i].reset == standings[j].reset,
    ensures
        1 <= standing_rank(standings, i),
        standing_rank(standings, j) == standing_rank(standings, i) + (j - i),
    decreases j - i,
{
    lemma_rank_is_positive(standings, i);
    if i < j - 1 {
        lemma_ranks_rise_within_epoch(standings, i, j - 1);
    }
}

/// Ranks are counted from 1.
pub proof fn lemma_rank_is_positive(standings: Seq<AgentStanding>, i: int)
    ensures
        1 <= standing_rank(standings, i),
    decreases i,
{
    if i > 0 {
        lemma_rank_is_positive(standings, i - 1);
    }
}

/// Of two agents of one epoch the richer has the better rank, and of two
/// equally rich the one whose symbol comes first.
pub proof fn lemma_rank_order(standings: Seq<AgentStanding>, p: int, q: int)
    requires
        is_ranked(standings),
        0 <= p < standings.len(),
        0 <= q < standings.len(),
        standings[p].reset == standings[q].reset,
        standings[p].credits > standings[q].credits || (standings[p].credits
            == standings[q].credits && text_precedes(
            standings[p].agent_symbol@,
            standings[q].agent_symbol@,
        )),
    ensures
        standing_rank(standings, p) < standing_rank(standings, q),
{
    lemma_text_order_total(standings[p].agent_symbol@, standings[q].agent_symbol@);
    if q >= p {
        lemma_ranks_rise_within_epoch(standings, p, q);
    }
}

} // verus!
