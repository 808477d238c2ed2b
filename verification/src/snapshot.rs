//! What one poll writes: the agents and sites it discovered, the
//! requirements it seeds, and the snapshot of every agent and site, each
//! fact attributed to its stored row before anything is written.

use crate::db::{
    DbConstructionRequirement, DbConstructionSite, DbStaticAgentInfo, ResetDate, keys_of,
    natural_keys,
};
use crate::leaderboard_model::{
    LeaderboardCurrentAgentInfo, LeaderboardCurrentConstructionInfo, LeaderboardStaticAgentInfo,
};
use crate::model::ConstructionMaterial;
use crate::text::{
    copy_text, find_first_text, find_last_text, first_position, last_position,
    lemma_first_position, lemma_last_position, texts,
};
use crate::tick::TickFailure;
use crate::time::{Timestamp, event_time_minutes, minutes_between};
use vstd::prelude::*;

verus! {

/// An agent to be stored: what discovery learned, the site it is assigned
/// to, and the epoch and instant of the poll.
#[derive(Debug)]
pub struct NewStaticAgentRow {
    pub agent_symbol: String,
    pub agent_headquarters_waypoint_symbol: String,
    pub construction_site_id: i64,
    pub starting_faction: String,
    pub reset_id: i64,
    pub query_time: Timestamp,
}

/// A requirement to be stored unless the epoch has one for the trade good.
#[derive(Debug)]
pub struct NewConstructionRequirement {
    pub trade_symbol: String,
    pub required: u32,
}

/// An agent's state, attributed to the stored agent.
#[derive(Clone, Copy, Debug, PartialEq, Eq, Structural)]
pub struct AgentLogRow {
    pub agent_id: i64,
    pub credits: i64,
    pub ship_count: u32,
}

/// A delivered quantity, attributed to the stored requirement.
#[derive(Clone, Copy, Debug, PartialEq, Eq, Structural)]
pub struct MaterialLogRow {
    pub construction_requirement_id: i64,
    pub fulfilled: u32,
}

/// A site's state, attributed to the stored site, with its materials.
#[derive(Debug)]
pub struct ConstructionLogRow {
    pub construction_site_id: i64,
    pub is_complete: bool,
    pub materials: Vec<MaterialLogRow>,
}

/// Everything one poll records: the job run and the facts attributed to it.
/// It is complete before anything is written.
#[derive(Debug)]
pub struct SnapshotPlan {
    pub reset_id: i64,
    pub query_time: Timestamp,
    pub event_time_minutes: i64,
    pub agent_logs: Vec<AgentLogRow>,
    pub construction_logs: Vec<ConstructionLogRow>,
}

/// The jump gates of the discovered agents, agent by agent.
pub open spec fn discovered_jump_gates(infos: Seq<LeaderboardStaticAgentInfo>) -> Seq<Seq<char>> {
    Seq::new(infos.len(), |i: int| infos[i].jump_gate@)
}

/// The stored site an agent is assigned to: the last one that carries the
/// agent's jump gate.
pub open spec fn assigned_site(
    info: LeaderboardStaticAgentInfo,
    sites: Seq<DbConstructionSite>,
) -> Option<int> {
    last_position(natural_keys(sites), info.jump_gate@)
}

/// Whether `row` stores `info` for the epoch `reset_id` at the instant `now`.
pub open spec fn is_static_agent_row(
    row: NewStaticAgentRow,
    info: LeaderboardStaticAgentInfo,
    sites: Seq<DbConstructionSite>,
    reset_id: i64,
    now: Timestamp,
) -> bool {
    &&& row.agent_symbol@ == info.symbol@
    &&& row.agent_headquarters_waypoint_symbol@ == info.headquarters@
    &&& row.starting_faction@ == info.starting_faction@
    &&& row.reset_id == reset_id
    &&& row.query_time == now
    &&& assigned_site(info, sites) matches Some(k) && row.construction_site_id == sites[k].id
}

/// The row that records an agent's state: the state, attributed to the last
/// stored agent of that symbol.
pub open spec fn agent_log_row(
    info: LeaderboardCurrentAgentInfo,
    agents: Seq<DbStaticAgentInfo>,
) -> Option<AgentLogRow> {
    match last_position(natural_keys(agents), info.symbol@) {
        Some(k) => Some(
            AgentLogRow { agent_id: agents[k].id, credits: info.credits, ship_count: info.ship_count },
        ),
        None => None,
    }
}

/// The row that records a delivered quantity: the quantity, attributed to
/// the first stored requirement for that trade good.
pub open spec fn material_log_row(
    material: ConstructionMaterial,
    requirements: Seq<DbConstructionRequirement>,
) -> Option<MaterialLogRow> {
    match first_position(natural_keys(requirements), material.trade_symbol@) {
        Some(k) => Some(
            MaterialLogRow {
                construction_requirement_id: requirements[k].id,
                fulfilled: material.fulfilled,
            },
        ),
        None => None,
    }
}

/// The stored site a snapshot belongs to: the last one of that symbol.
pub open spec fn snapshot_site(
    info: LeaderboardCurrentConstructionInfo,
    sites: Seq<DbConstructionSite>,
) -> Option<int> {
    last_position(natural_keys(sites), info.symbol@)
}

/// Whether every material of the list has a stored requirement.
pub open spec fn materials_known(
    materials: Seq<ConstructionMaterial>,
    requirements: Seq<DbConstructionRequirement>,
) -> bool {
    forall|k: int| 0 <= k < materials.len() ==> material_log_row(
        #[trigger] materials[k],
        requirements,
    ) is Some
}

/// Whether every agent snapshot belongs to a stored agent.
pub open spec fn agents_known(
    infos: Seq<LeaderboardCurrentAgentInfo>,
    agents: Seq<DbStaticAgentInfo>,
) -> bool {
    forall|i: int| 0 <= i < infos.len() ==> agent_log_row(#[trigger] infos[i], agents) is Some
}

/// Whether every site snapshot belongs to a stored site.
pub open spec fn sites_known(
    infos: Seq<LeaderboardCurrentConstructionInfo>,
    sites: Seq<DbConstructionSite>,
) -> bool {
    forall|i: int| 0 <= i < infos.len() ==> snapshot_site(#[trigger] infos[i], sites) is Some
}

/// Whether every material of every site snapshot has a stored requirement.
pub open spec fn requirements_known(
    infos: Seq<LeaderboardCurrentConstructionInfo>,
    requirements: Seq<DbConstructionRequirement>,
) -> bool {
    forall|i: int| 0 <= i < infos.len() ==> materials_known(
        (#[trigger] infos[i]).materials@,
        requirements,
    )
}

/// Whether `rows` record the materials one by one.
pub open spec fn are_material_rows(
    rows: Seq<MaterialLogRow>,
    materials: Seq<ConstructionMaterial>,
    requirements: Seq<DbConstructionRequirement>,
) -> bool {
    &&& rows.len() == materials.len()
    &&& forall|k: int|
        0 <= k < rows.len() ==> Some(#[trigger] rows[k]) == material_log_row(
            materials[k],
            requirements,
        )
}

/// Whether `row` records the site snapshot `info`.
pub open spec fn is_construction_row(
    row: ConstructionLogRow,
    info: LeaderboardCurrentConstructionInfo,
    sites: Seq<DbConstructionSite>,
    requirements: Seq<DbConstructionRequirement>,
) -> bool {
    &&& snapshot_site(info, sites) matches Some(k) && row.construction_site_id == sites[k].id
    &&& row.is_complete == info.is_complete
    &&& are_material_rows(row.materials@, info.materials@, requirements)
}

/// Whether `plan` is the snapshot of one poll: a job run at `now`, placed on
/// the epoch's event-time axis, one row for each agent snapshot and one for
/// each site snapshot, in the order given.
pub open spec fn is_snapshot_plan(
    plan: SnapshotPlan,
    now: Timestamp,
    reset_date: ResetDate,
    current_agent_infos: Seq<LeaderboardCurrentAgentInfo>,
    agents: Seq<DbStaticAgentInfo>,
    current_construction_infos: Seq<LeaderboardCurrentConstructionInfo>,
    sites: Seq<DbConstructionSite>,
    requirements: Seq<DbConstructionRequirement>,
) -> bool {
    &&& plan.reset_id == reset_date.reset_id
    &&& plan.query_time == now
    &&& plan.event_time_minutes == minutes_between(reset_date.first_ts, now)
    &&& plan.agent_logs@.len() == current_agent_infos.len()
    &&& forall|i: int|
        0 <= i < current_agent_infos.len() ==> Some(#[trigger] plan.agent_logs@[i])
            == agent_log_row(current_agent_infos[i], agents)
    &&& plan.construction_logs@.len() == current_construction_infos.len()
    &&& forall|i: int|
        0 <= i < current_construction_infos.len() ==> is_construction_row(
            #[trigger] plan.construction_logs@[i],
            current_construction_infos[i],
            sites,
            requirements,
        )
}

/// The construction sites to make sure of: the jump gate of every
/// discovered agent, agent by agent.
pub fn construction_sites_to_save(static_agent_infos: &Vec<LeaderboardStaticAgentInfo>) -> (jump_gates:
    Vec<String>)
    ensures
        texts(jump_gates@) == discovered_jump_gates(static_agent_infos@),
{
    let mut jump_gates: Vec<String> = Vec::new();
    let mut i: usize = 0;
    while i < static_agent_infos.len()
        invariant
            i <= static_agent_infos.len(),
            texts(jump_gates@) == discovered_jump_gates(static_agent_infos@).take(i as int),
        decreases static_agent_infos.len() - i,
    {
        let ghost before = texts(jump_gates@);
        jump_gates.push(copy_text(&static_agent_infos[i].jump_gate.0));
        assert(texts(jump_gates@) =~= before.push(
            discovered_jump_gates(static_agent_infos@)[i as int],
        ));
        i += 1;
    }
    jump_gates
}

/// The rows that store the discovered agents, each assigned to the stored
/// site of its jump gate. There are none if a jump gate is not stored.
pub fn static_agent_rows(
    reset_date: ResetDate,
    static_agent_infos: &Vec<LeaderboardStaticAgentInfo>,
    construction_sites: &Vec<DbConstructionSite>,
    now: Timestamp,
) -> (r: Option<Vec<NewStaticAgentRow>>)
    ensures
        match r {
            Some(rows) => {
                &&& rows.len() == static_agent_infos.len()
                &&& forall|i: int|
                    0 <= i < rows.len() ==> is_static_agent_row(
                        #[trigger] rows[i],
                        static_agent_infos[i],
                        construction_sites@,
                        reset_date.reset_id,
                        now,
                    )
            },
            None => exists|i: int|
                0 <= i < static_agent_infos.len() && assigned_site(
                    #[trigger] static_agent_infos[i],
                    construction_sites@,
                ) is None,
        },
{
    let site_keys = keys_of(construction_sites);
    let mut rows: Vec<NewStaticAgentRow> = Vec::new();
    let mut i: usize = 0;
    while i < static_agent_infos.len()
        invariant
            i <= static_agent_infos.len(),
            texts(site_keys@) == natural_keys(construction_sites@),
            rows.len() == i,
            forall|j: int|
                0 <= j < i ==> is_static_agent_row(
                    #[trigger] rows[j],
                    static_agent_infos[j],
                    construction_sites@,
                    reset_date.reset_id,
                    now,
                ),
        decreases static_agent_infos.len() - i,
    {
        let info = &static_agent_infos[i];
        match find_last_text(&site_keys, &info.jump_gate.0) {
            Some(k) => {
                rows.push(
                    NewStaticAgentRow {
                        agent_symbol: copy_text(&info.symbol.0),
                        agent_headquarters_waypoint_symbol: copy_text(&info.headquarters.0),
                        construction_site_id: construction_sites[k].id,
                        starting_faction: copy_text(&info.starting_faction.0),
                        reset_id: reset_date.reset_id,
                        query_time: now,
                    },
                );
            },
            None => {
                return None;
            },
        }
        i += 1;
    }
    Some(rows)
}

/// The requirements an epoch is seeded with: the materials of the first
/// site snapshot of the poll, each with the quantity it needs.
pub open spec fn seeded_materials(
    current_construction_infos: Seq<LeaderboardCurrentConstructionInfo>,
) -> Seq<ConstructionMaterial> {
    if current_construction_infos.len() == 0 {
        Seq::<ConstructionMaterial>::empty()
    } else {
        current_construction_infos[0].materials@
    }
}

/// The requirements to store unless the epoch has them already.
pub fn construction_requirements_to_save(
    current_construction_infos: &Vec<LeaderboardCurrentConstructionInfo>,
) -> (seeds: Vec<NewConstructionRequirement>)
    ensures
        seeds.len() == seeded_materials(current_construction_infos@).len(),
        forall|k: int|
            0 <= k < seeds.len() ==> (#[trigger] seeds[k]).trade_symbol@ == seeded_materials(
                current_construction_infos@,
            )[k].trade_symbol@ && seeds[k].required == seeded_materials(
                current_construction_infos@,
            )[k].required,
{
    let mut seeds: Vec<NewConstructionRequirement> = Vec::new();
    if current_construction_infos.len() == 0 {
        return seeds;
    }
    let materials = &current_construction_infos[0].materials;
    let mut k: usize = 0;
    while k < materials.len()
        invariant
            k <= materials.len(),
            seeds.len() == k,
            forall|j: int|
                0 <= j < k ==> (#[trigger] seeds[j]).trade_symbol@ == materials[j].trade_symbol@
                    && seeds[j].required == materials[j].required,
        decreases materials.len() - k,
    {
        seeds.push(
            NewConstructionRequirement {
                trade_symbol: copy_text(&materials[k].trade_symbol),
                required: materials[k].required,
            },
        );
        k += 1;
    }
    seeds
}

/// The rows that record the materials of one site snapshot; none if a
/// material has no stored requirement.
fn material_log_rows(
    materials: &Vec<ConstructionMaterial>,
    requirement_keys: &Vec<String>,
    requirements: &Vec<DbConstructionRequirement>,
) -> (r: Option<Vec<MaterialLogRow>>)
    requires
        texts(requirement_keys@) == natural_keys(requirements@),
    ensures
        match r {
            Some(rows) => are_material_rows(rows@, materials@, requirements@),
            None => !materials_known(materials@, requirements@),
        },
{
    let mut rows: Vec<MaterialLogRow> = Vec::new();
    let mut k: usize = 0;
    while k < materials.len()
        invariant
            k <= materials.len(),
            texts(requirement_keys@) == natural_keys(requirements@),
            rows.len() == k,
            forall|j: int|
                0 <= j < k ==> Some(#[trigger] rows[j]) == material_log_row(
                    materials[j],
                    requirements@,
                ),
        decreases materials.len() - k,
    {
        match find_first_text(requirement_keys, &materials[k].trade_symbol) {
            Some(p) => {
                rows.push(
                    MaterialLogRow {
                        construction_requirement_id: requirements[p].id,
                        fulfilled: materials[k].fulfilled,
                    },
                );
            },
            None => {
                return None;
            },
        }
        k += 1;
    }
    Some(rows)
}

/// Plans the snapshot of one poll. Every snapshot is attributed to its
/// stored agent, site and requirement before anything is written, so a poll
/// that cannot be attributed in full records nothing.
pub fn plan_snapshot(
    now: Timestamp,
    reset_date: ResetDate,
    current_agent_infos: &Vec<LeaderboardCurrentAgentInfo>,
    db_static_agent_infos: &Vec<DbStaticAgentInfo>,
    current_construction_infos: &Vec<LeaderboardCurrentConstructionInfo>,
    db_construction_infos: &Vec<DbConstructionSite>,
    construction_requirements: &Vec<DbConstructionRequirement>,
) -> (r: Result<SnapshotPlan, TickFailure>)
    ensures
        match r {
            Ok(plan) => is_snapshot_plan(
                plan,
                now,
                reset_date,
                current_agent_infos@,
                db_static_agent_infos@,
                current_construction_infos@,
                db_construction_infos@,
                construction_requirements@,
            ),
            Err(TickFailure::UnknownAgent) => !agents_known(
                current_agent_infos@,
                db_static_agent_infos@,
            ),
            Err(TickFailure::UnknownConstructionSite) => agents_known(
                current_agent_infos@,
                db_static_agent_infos@,
            ) && !sites_known(current_construction_infos@, db_construction_infos@),
            Err(TickFailure::UnknownRequirement) => agents_known(
                current_agent_infos@,
                db_static_agent_infos@,
            ) && sites_known(current_construction_infos@, db_construction_infos@)
                && !requirements_known(current_construction_infos@, construction_requirements@),
            Err(_) => false,
        },
        r is Ok ==> agents_known(current_agent_infos@, db_static_agent_infos@) && sites_known(
            current_construction_infos@,
            db_construction_infos@,
        ) && requirements_known(current_construction_infos@, construction_requirements@),
{
    let agent_keys = keys_of(db_static_agent_infos);
    let site_keys = keys_of(db_construction_infos);
    let requirement_keys = keys_of(construction_requirements);
    let mut agent_logs: Vec<AgentLogRow> = Vec::new();
    let mut i: usize = 0;
    while i < current_agent_infos.len()
        invariant
            i <= current_agent_infos.len(),
            texts(agent_keys@) == natural_keys(db_static_agent_infos@),
            agent_logs.len() == i,
            forall|j: int|
                0 <= j < i ==> Some(#[trigger] agent_logs[j]) == agent_log_row(
                    current_agent_infos[j],
                    db_static_agent_infos@,
                ),
        decreases current_agent_infos.len() - i,
    {
        let info = &current_agent_infos[i];
        match find_last_text(&agent_keys, &info.symbol.0) {
            Some(k) => {
                agent_logs.push(
                    AgentLogRow {
                        agent_id: db_static_agent_infos[k].id,
                        credits: info.credits,
                        ship_count: info.ship_count,
                    },
                );
            },
            None => {
                return Err(TickFailure::UnknownAgent);
            },
        }
        i += 1;
    }
    assert(agents_known(current_agent_infos@, db_static_agent_infos@)) by {
        assert forall|j: int| 0 <= j < current_agent_infos@.len() implies agent_log_row(
            #[trigger] current_agent_infos@[j],
            db_static_agent_infos@,
        ) is Some by {
            assert(Some(agent_logs[j]) == agent_log_row(
                current_agent_infos[j],
                db_static_agent_infos@,
            ));
        }
    }
    let mut site_ids: Vec<i64> = Vec::new();
    let mut s: usize = 0;
    while s < current_construction_infos.len()
        invariant
            s <= current_construction_infos.len(),
            agents_known(current_agent_infos@, db_static_agent_infos@),
            texts(site_keys@) == natural_keys(db_construction_infos@),
            site_ids.len() == s,
            forall|j: int|
                0 <= j < s ==> (snapshot_site(
                    #[trigger] current_construction_infos[j],
                    db_construction_infos@,
                ) matches Some(k) && site_ids[j] == db_construction_infos[k].id),
        decreases current_construction_infos.len() - s,
    {
        match find_last_text(&site_keys, &current_construction_infos[s].symbol.0) {
            Some(k) => {
                site_ids.push(db_construction_infos[k].id);
            },
            None => {
                return Err(TickFailure::UnknownConstructionSite);
            },
        }
        s += 1;
    }
    let mut construction_logs: Vec<ConstructionLogRow> = Vec::new();
    let mut c: usize = 0;
    while c < current_construction_infos.len()
        invariant
            c <= current_construction_infos.len(),
            agents_known(current_agent_infos@, db_static_agent_infos@),
            sites_known(current_construction_infos@, db_construction_infos@),
            texts(requirement_keys@) == natural_keys(construction_requirements@),
            site_ids.len() == current_construction_infos.len(),
            forall|j: int|
                0 <= j < current_construction_infos.len() ==> (snapshot_site(
                    #[trigger] current_construction_infos[j],
                    db_construction_infos@,
                ) matches Some(k) && site_ids[j] == db_construction_infos[k].id),
            construction_logs.len() == c,
            forall|j: int|
                0 <= j < c ==> is_construction_row(
                    #[trigger] construction_logs[j],
                    current_construction_infos[j],
                    db_construction_infos@,
                    construction_requirements@,
                ),
        decreases current_construction_infos.len() - c,
    {
        let info = &current_construction_infos[c];
        match material_log_rows(&info.materials, &requirement_keys, construction_requirements) {
            Some(materials) => {
                construction_logs.push(
                    ConstructionLogRow {
                        construction_site_id: site_ids[c],
                        is_complete: info.is_complete,
                        materials,
                    },
                );
            },
            None => {
                return Err(TickFailure::UnknownRequirement);
            },
        }
        c += 1;
    }
    assert(requirements_known(current_construction_infos@, construction_requirements@)) by {
        assert forall|j: int| 0 <= j < current_construction_infos@.len() implies materials_known(
            (#[trigger] current_construction_infos@[j]).materials@,
            construction_requirements@,
        ) by {
            let row = construction_logs[j];
            assert(is_construction_row(
                row,
                current_construction_infos[j],
                db_construction_infos@,
                construction_requirements@,
            ));
            assert forall|k: int|
                0 <= k < current_construction_infos@[j].materials@.len() implies material_log_row(
                #[trigger] current_construction_infos@[j].materials@[k],
                construction_requirements@,
            ) is Some by {
                assert(Some(row.materials@[k]) == material_log_row(
                    current_construction_infos@[j].materials@[k],
                    construction_requirements@,
                ));
            }
        }
    }
    Ok(
        SnapshotPlan {
            reset_id: reset_date.reset_id,
            query_time: now,
            event_time_minutes: event_time_minutes(reset_date.first_ts, now),
            agent_logs,
            construction_logs,
        },
    )
}

/// Every fact of a snapshot refers to rows that are stored: an agent's
/// state to the stored agent of its symbol, a site's state to the stored
/// site of its symbol, a delivered quantity to the stored requirement of its
/// trade good.
pub proof fn lemma_snapshot_refers_to_stored_rows(
    plan: SnapshotPlan,
    now: Timestamp,
    reset_date: ResetDate,
    current_agent_infos: Seq<LeaderboardCurrentAgentInfo>,
    agents: Seq<DbStaticAgentInfo>,
    current_construction_infos: Seq<LeaderboardCurrentConstructionInfo>,
    sites: Seq<DbConstructionSite>,
    requirements: Seq<DbConstructionRequirement>,
)
    requires
        is_snapshot_plan(
            plan,
            now,
            reset_date,
            current_agent_infos,
            agents,
            current_construction_infos,
            sites,
            requirements,
        ),
    ensures
        forall|i: int|
            0 <= i < plan.agent_logs@.len() ==> exists|k: int|
                0 <= k < agents.len() && (#[trigger] agents[k]).id == (
                #[trigger] plan.agent_logs@[i]).agent_id && agents[k].agent_symbol@
                    == current_agent_infos[i].symbol@,
        forall|i: int|
            0 <= i < plan.construction_logs@.len() ==> exists|k: int|
                0 <= k < sites.len() && (#[trigger] sites[k]).id == (
                #[trigger] plan.construction_logs@[i]).construction_site_id
                    && sites[k].jump_gate_waypoint_symbol@ == current_construction_infos[i].symbol@,
        forall|i: int, m: int|
            0 <= i < plan.construction_logs@.len() && 0 <= m
                < plan.construction_logs@[i].materials@.len() ==> exists|k: int|
                0 <= k < requirements.len() && (#[trigger] requirements[k]).id == (
                #[trigger] plan.construction_logs@[i].materials@[m]).construction_requirement_id
                    && requirements[k].trade_symbol@
                    == current_construction_infos[i].materials@[m].trade_symbol@,
{
    assert forall|i: int| 0 <= i < plan.agent_logs@.len() implies exists|k: int|
        0 <= k < agents.len() && (#[trigger] agents[k]).id == (
        #[trigger] plan.agent_logs@[i]).agent_id && agents[k].agent_symbol@
            == current_agent_infos[i].symbol@ by {
        lemma_last_position(natural_keys(agents), current_agent_infos[i].symbol@);
        let k = last_position(natural_keys(agents), current_agent_infos[i].symbol@)->0;
    }
    assert forall|i: int| 0 <= i < plan.construction_logs@.len() implies exists|k: int|
        0 <= k < sites.len() && (#[trigger] sites[k]).id == (
        #[trigger] plan.construction_logs@[i]).construction_site_id
            && sites[k].jump_gate_waypoint_symbol@ == current_construction_infos[i].symbol@ by {
        lemma_last_position(natural_keys(sites), current_construction_infos[i].symbol@);
        let k = last_position(natural_keys(sites), current_construction_infos[i].symbol@)->0;
    }
    assert forall|i: int, m: int|
        0 <= i < plan.construction_logs@.len() && 0 <= m
            < plan.construction_logs@[i].materials@.len() implies exists|k: int|
        0 <= k < requirements.len() && (#[trigger] requirements[k]).id == (
        #[trigger] plan.construction_logs@[i].materials@[m]).construction_requirement_id
            && requirements[k].trade_symbol@
            == current_construction_infos[i].materials@[m].trade_symbol@ by {
        let material = current_construction_infos[i].materials@[m];
        lemma_first_position(natural_keys(requirements), material.trade_symbol@);
        let k = first_position(natural_keys(requirements), material.trade_symbol@)->0;
    }
}

} // verus!
