//! Answers that are read off the latest poll of an epoch: its leaderboard
//! and the progress of its construction sites.

use crate::db::{
    DbAgentLog, DbConstructionLog, DbConstructionMaterialLog,
    DbConstructionMaterialMostRecentStatus, DbConstructionRequirement, DbConstructionSite,
    DbJobRun, DbStaticAgentInfo, LeaderboardEntry,
};
use crate::epochs::{EpochRow, latest_job, latest_job_run};
use crate::ranking::{is_ranked, rank_leaderboard};
use crate::text::copy_text;
use vstd::prelude::*;

verus! {

/// A row that other rows refer to by its number.
pub trait Identified {
    /// The number of the row.
    spec fn ident(&self) -> i64;

    fn id(&self) -> (id: i64)
        ensures
            id == self.ident(),
    ;
}

impl Identified for DbStaticAgentInfo {
    open spec fn ident(&self) -> i64 {
        self.id
    }

    fn id(&self) -> (id: i64) {
        self.id
    }
}

impl Identified for DbConstructionSite {
    open spec fn ident(&self) -> i64 {
        self.id
    }

    fn id(&self) -> (id: i64) {
        self.id
    }
}

impl Identified for DbConstructionRequirement {
    open spec fn ident(&self) -> i64 {
        self.id
    }

    fn id(&self) -> (id: i64) {
        self.id
    }
}

impl Identified for DbConstructionLog {
    open spec fn ident(&self) -> i64 {
        self.id
    }

    fn id(&self) -> (id: i64) {
        self.id
    }
}

/// Where the row of a number stands first among the rows, if it stands
/// there at all.
pub open spec fn position_of_id<T: Identified>(rows: Seq<T>, id: i64) -> Option<int>
    decreases rows.len(),
{
    if rows.len() == 0 {
        None
    } else {
        match position_of_id(rows.drop_last(), id) {
            Some(k) => Some(k),
            None => if rows.last().ident() == id {
                Some(rows.len() - 1)
            } else {
                None
            },
        }
    }
}

/// A number found among the first rows is found at the same place among all.
pub proof fn lemma_id_stays_found<T: Identified>(rows: Seq<T>, n: int, id: i64)
    requires
        0 <= n <= rows.len(),
        position_of_id(rows.take(n), id) is Some,
    ensures
        position_of_id(rows, id) == position_of_id(rows.take(n), id),
    decreases rows.len() - n,
{
    if n < rows.len() {
        let next = rows.take(n + 1);
        assert(next.drop_last() =~= rows.take(n));
        lemma_id_stays_found(rows, n + 1, id);
    } else {
        assert(rows.take(n) =~= rows);
    }
}

/// Finds the first row of a number.
pub fn find_by_id<T: Identified>(rows: &Vec<T>, id: i64) -> (r: Option<usize>)
    ensures
        match r {
            Some(k) => position_of_id(rows@, id) == Some(k as int) && k < rows.len()
                && rows@[k as int].ident() == id,
            None => position_of_id(rows@, id) is None,
        },
{
    let mut i: usize = 0;
    while i < rows.len()
        invariant
            i <= rows.len(),
            position_of_id(rows@.take(i as int), id) is None,
        decreases rows.len() - i,
    {
        let ghost upto = rows@.take(i + 1);
        assert(upto.drop_last() =~= rows@.take(i as int));
        if rows[i].id() == id {
            proof {
                lemma_id_stays_found(rows@, i + 1, id);
            }
            return Some(i);
        }
        i += 1;
    }
    assert(rows@.take(i as int) =~= rows@);
    None
}

/// Whether an agent's state belongs on the leaderboard of the poll
/// `job_id`: it was recorded at that poll, for a stored agent whose
/// construction site is stored.
pub open spec fn is_on_leaderboard(
    log: DbAgentLog,
    job_id: i64,
    agents: Seq<DbStaticAgentInfo>,
    sites: Seq<DbConstructionSite>,
) -> bool {
    &&& log.job_id == job_id
    &&& position_of_id(agents, log.agent_id) matches Some(a) && position_of_id(
        sites,
        agents[a].construction_site_id,
    ) is Some
}

/// The states that belong on the leaderboard of a poll, in the order of the log.
pub open spec fn leaderboard_logs(
    logs: Seq<DbAgentLog>,
    job_id: i64,
    agents: Seq<DbStaticAgentInfo>,
    sites: Seq<DbConstructionSite>,
) -> Seq<DbAgentLog>
    decreases logs.len(),
{
    if logs.len() == 0 {
        Seq::<DbAgentLog>::empty()
    } else {
        let before = leaderboard_logs(logs.drop_last(), job_id, agents, sites);
        if is_on_leaderboard(logs.last(), job_id, agents, sites) {
            before.push(logs.last())
        } else {
            before
        }
    }
}

/// Whether `entry` shows the state `log` with the agent it belongs to and
/// the construction site that agent is assigned to.
pub open spec fn is_leaderboard_row(
    entry: LeaderboardEntry,
    log: DbAgentLog,
    agents: Seq<DbStaticAgentInfo>,
    sites: Seq<DbConstructionSite>,
) -> bool {
    &&& position_of_id(agents, log.agent_id) matches Some(a) && position_of_id(
        sites,
        agents[a].construction_site_id,
    ) matches Some(s) && {
        &&& entry.agent_symbol@ == agents[a].agent_symbol@
        &&& entry.agent_headquarters_waypoint_symbol@
            == agents[a].agent_headquarters_waypoint_symbol@
        &&& entry.jump_gate_waypoint_symbol@ == sites[s].jump_gate_waypoint_symbol@
    }
    &&& entry.credits == log.credits
    &&& entry.ship_count == log.ship_count
}

/// Whether `rows` show the states that belong on the leaderboard of a poll,
/// state by state.
pub open spec fn are_leaderboard_rows(
    rows: Seq<LeaderboardEntry>,
    logs: Seq<DbAgentLog>,
    job_id: i64,
    agents: Seq<DbStaticAgentInfo>,
    sites: Seq<DbConstructionSite>,
) -> bool {
    &&& rows.len() == leaderboard_logs(logs, job_id, agents, sites).len()
    &&& forall|i: int|
        0 <= i < rows.len() ==> is_leaderboard_row(
            #[trigger] rows[i],
            leaderboard_logs(logs, job_id, agents, sites)[i],
            agents,
            sites,
        )
}

/// The states recorded at a poll, each with its agent and the agent's
/// construction site.
pub fn agent_states_of_job(
    logs: &Vec<DbAgentLog>,
    job_id: i64,
    agents: &Vec<DbStaticAgentInfo>,
    sites: &Vec<DbConstructionSite>,
) -> (rows: Vec<LeaderboardEntry>)
    ensures
        are_leaderboard_rows(rows@, logs@, job_id, agents@, sites@),
{
    let mut rows: Vec<LeaderboardEntry> = Vec::new();
    let mut i: usize = 0;
    while i < logs.len()
        invariant
            i <= logs.len(),
            are_leaderboard_rows(rows@, logs@.take(i as int), job_id, agents@, sites@),
        decreases logs.len() - i,
    {
        let log = logs[i];
        let ghost upto = logs@.take(i + 1);
        let ghost before = leaderboard_logs(logs@.take(i as int), job_id, agents@, sites@);
        assert(upto.drop_last() =~= logs@.take(i as int));
        if log.job_id == job_id {
            match find_by_id(agents, log.agent_id) {
                Some(a) => {
                    match find_by_id(sites, agents[a].construction_site_id) {
                        Some(s) => {
                            let ghost shown = rows@;
                            rows.push(
                                LeaderboardEntry {
                                    agent_symbol: copy_text(&agents[a].agent_symbol),
                                    credits: log.credits,
                                    ship_count: log.ship_count,
                                    agent_headquarters_waypoint_symbol: copy_text(
                                        &agents[a].agent_headquarters_waypoint_symbol,
                                    ),
                                    jump_gate_waypoint_symbol: copy_text(
                                        &sites[s].jump_gate_waypoint_symbol,
                                    ),
                                },
                            );
                            assert forall|k: int| 0 <= k < rows@.len() implies is_leaderboard_row(
                                #[trigger] rows@[k],
                                before.push(log)[k],
                                agents@,
                                sites@,
                            ) by {
                                if k < shown.len() {
                                    assert(rows@[k] == shown[k]);
                                }
                            }
                        },
                        None => {},
                    }
                },
                None => {},
            }
        }
        i += 1;
    }
    assert(logs@.take(i as int) =~= logs@);
    rows
}

/// The leaderboard of an epoch: the states of its latest poll, richest
/// agent first, more ships first among the equally rich. An epoch without
/// poll has an empty leaderboard.
pub fn load_leaderboard_for_reset(
    job_runs: &Vec<DbJobRun>,
    reset_id: i64,
    logs: &Vec<DbAgentLog>,
    agents: &Vec<DbStaticAgentInfo>,
    sites: &Vec<DbConstructionSite>,
) -> (ranked: Vec<LeaderboardEntry>)
    ensures
        is_ranked(ranked@),
        match latest_job(job_runs@, reset_id) {
            Some(job) => exists|rows: Seq<LeaderboardEntry>|
                are_leaderboard_rows(rows, logs@, job.id, agents@, sites@) && ranked@.to_multiset()
                    == rows.to_multiset(),
            None => ranked@.len() == 0,
        },
{
    match latest_job_run(job_runs, reset_id) {
        Some(job) => {
            let rows = agent_states_of_job(logs, job.id, agents, sites);
            rank_leaderboard(rows)
        },
        None => Vec::new(),
    }
}

/// Whether a delivered quantity is part of the progress shown for the poll
/// `job_id`: it was recorded at that poll, for a stored site, against a
/// stored requirement.
pub open spec fn shows_progress(
    material: DbConstructionMaterialLog,
    job_id: i64,
    logs: Seq<DbConstructionLog>,
    sites: Seq<DbConstructionSite>,
    requirements: Seq<DbConstructionRequirement>,
) -> bool {
    &&& position_of_id(logs, material.construction_log_id) matches Some(l) && logs[l].job_id
        == job_id && position_of_id(sites, logs[l].construction_site_id) is Some
    &&& position_of_id(requirements, material.construction_requirement_id) is Some
}

/// The delivered quantities that are part of the progress shown for a poll,
/// in the order of the log.
pub open spec fn progress_logs(
    materials: Seq<DbConstructionMaterialLog>,
    job_id: i64,
    logs: Seq<DbConstructionLog>,
    sites: Seq<DbConstructionSite>,
    requirements: Seq<DbConstructionRequirement>,
) -> Seq<DbConstructionMaterialLog>
    decreases materials.len(),
{
    if materials.len() == 0 {
        Seq::<DbConstructionMaterialLog>::empty()
    } else {
        let before = progress_logs(materials.drop_last(), job_id, logs, sites, requirements);
        if shows_progress(materials.last(), job_id, logs, sites, requirements) {
            before.push(materials.last())
        } else {
            before
        }
    }
}

/// Whether `row` shows the delivered quantity `material` beside what is
/// needed, with its site, the site's completion, and the epoch and poll it
/// was recorded in.
pub open spec fn is_progress_row(
    row: DbConstructionMaterialMostRecentStatus,
    material: DbConstructionMaterialLog,
    epoch: EpochRow,
    job: DbJobRun,
    logs: Seq<DbConstructionLog>,
    sites: Seq<DbConstructionSite>,
    requirements: Seq<DbConstructionRequirement>,
) -> bool {
    &&& row.reset_id == Some(epoch.reset_id)
    &&& row.reset == Some(epoch.reset)
    &&& row.ts_start_of_reset == Some(epoch.first_ts)
    &&& row.ts_latest_entry_of_reset == Some(job.query_time)
    &&& row.fulfilled == material.fulfilled
    &&& position_of_id(logs, material.construction_log_id) matches Some(l) && position_of_id(
        sites,
        logs[l].construction_site_id,
    ) matches Some(s) && row.is_jump_gate_complete == logs[l].is_complete
        && row.jump_gate_waypoint_symbol@ == sites[s].jump_gate_waypoint_symbol@
    &&& position_of_id(requirements, material.construction_requirement_id) matches Some(r)
        && row.trade_symbol@ == requirements[r].trade_symbol@ && row.required
        == requirements[r].required
}

/// Whether `rows` show the progress of a poll, quantity by quantity.
pub open spec fn are_progress_rows(
    rows: Seq<DbConstructionMaterialMostRecentStatus>,
    materials: Seq<DbConstructionMaterialLog>,
    epoch: EpochRow,
    job: DbJobRun,
    logs: Seq<DbConstructionLog>,
    sites: Seq<DbConstructionSite>,
    requirements: Seq<DbConstructionRequirement>,
) -> bool {
    &&& rows.len() == progress_logs(materials, job.id, logs, sites, requirements).len()
    &&& forall|i: int|
        0 <= i < rows.len() ==> is_progress_row(
            #[trigger] rows[i],
            progress_logs(materials, job.id, logs, sites, requirements)[i],
            epoch,
            job,
            logs,
            sites,
            requirements,
        )
}

/// The progress of an epoch's construction sites at its latest poll: for
/// every material of every site, what is delivered
/// and what is needed. An epoch without poll shows no progress.
pub fn select_most_recent_construction_progress_for_reset(
    epoch: EpochRow,
    job_runs: &Vec<DbJobRun>,
    construction_logs: &Vec<DbConstructionLog>,
    material_logs: &Vec<DbConstructionMaterialLog>,
    sites: &Vec<DbConstructionSite>,
    requirements: &Vec<DbConstructionRequirement>,
) -> (rows: Vec<DbConstructionMaterialMostRecentStatus>)
    ensures
        match latest_job(job_runs@, epoch.reset_id) {
            Some(job) => are_progress_rows(
                rows@,
                material_logs@,
                epoch,
                job,
                construction_logs@,
                sites@,
                requirements@,
            ),
            None => rows@.len() == 0,
        },
{
    let mut rows: Vec<DbConstructionMaterialMostRecentStatus> = Vec::new();
    let job = match latest_job_run(job_runs, epoch.reset_id) {
        Some(job) => job,
        None => {
            return rows;
        },
    };
    let mut i: usize = 0;
    while i < material_logs.len()
        invariant
            i <= material_logs.len(),
            are_progress_rows(
                rows@,
                material_logs@.take(i as int),
                epoch,
                job,
                construction_logs@,
                sites@,
                requirements@,
            ),
        decreases material_logs.len() - i,
    {
        let material = material_logs[i];
        let ghost upto = material_logs@.take(i + 1);
        let ghost before = progress_logs(
            material_logs@.take(i as int),
            job.id,
            construction_logs@,
            sites@,
            requirements@,
        );
        assert(upto.drop_last() =~= material_logs@.take(i as int));
        let log = find_by_id(construction_logs, material.construction_log_id);
        let requirement = find_by_id(requirements, material.construction_requirement_id);
        match (log, requirement) {
            (Some(l), Some(r)) => {
                if construction_logs[l].job_id == job.id {
                    match find_by_id(sites, construction_logs[l].construction_site_id) {
                        Some(s) => {
                            let ghost shown = rows@;
                            rows.push(
                                DbConstructionMaterialMostRecentStatus {
                                    reset_id: Some(epoch.reset_id),
                                    reset: Some(epoch.reset),
                                    ts_start_of_reset: Some(epoch.first_ts),
                                    ts_latest_entry_of_reset: Some(job.query_time),
                                    trade_symbol: copy_text(&requirements[r].trade_symbol),
                                    fulfilled: material.fulfilled,
                                    required: requirements[r].required,
                                    jump_gate_waypoint_symbol: copy_text(
                                        &sites[s].jump_gate_waypoint_symbol,
                                    ),
                                    is_jump_gate_complete: construction_logs[l].is_complete,
                                },
                            );
                            assert forall|k: int| 0 <= k < rows@.len() implies is_progress_row(
                                #[trigger] rows@[k],
                                before.push(material)[k],
                                epoch,
                                job,
                                construction_logs@,
                                sites@,
                                requirements@,
                            ) by {
                                if k < shown.len() {
                                    assert(rows@[k] == shown[k]);
                                }
                            }
                        },
                        None => {},
                    }
                }
            },
            _ => {},
        }
        i += 1;
    }
    assert(material_logs@.take(i as int) =~= material_logs@);
    rows
}

} // verus!
