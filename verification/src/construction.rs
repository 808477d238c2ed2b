//! The course of construction: when the first delivery to a site was seen,
//! when the site was first seen complete, and where it stands now.
//!
//! A delivery event is a poll at which something happened to a material of
//! a site: the *first* event is the earliest poll at which more was
//! delivered than at the first poll of all, the *last* event the earliest
//! poll at which the site was complete.

use crate::db::{
    DbConstructionLog, DbConstructionMaterialLog, DbConstructionRequirement, DbConstructionSite,
    DbJobRun, DbJumpGateConstructionEventOverviewEntry,
};
use crate::epochs::{EpochRow, latest_job, latest_job_run};
use crate::queries::{Identified, find_by_id, position_of_id};
use crate::text::copy_text;
use crate::time::Timestamp;
use vstd::prelude::*;

verus! {

impl Identified for DbJobRun {
    open spec fn ident(&self) -> i64 {
        self.id
    }

    fn id(&self) -> (id: i64) {
        self.id
    }
}

/// What one poll saw of one material of one site.
#[derive(Clone, Copy, Debug, PartialEq, Eq, Structural)]
pub struct Observation {
    pub job_id: i64,
    pub query_time: Timestamp,
    pub construction_site_id: i64,
    pub construction_requirement_id: i64,
    pub fulfilled: i64,
    pub is_complete: bool,
}

/// What a delivered quantity tells of its poll and site, if it was
/// recorded at a poll of the epoch `reset_id`.
pub open spec fn observed(
    material: DbConstructionMaterialLog,
    reset_id: i64,
    job_runs: Seq<DbJobRun>,
    logs: Seq<DbConstructionLog>,
) -> Option<Observation> {
    match position_of_id(logs, material.construction_log_id) {
        Some(l) => match position_of_id(job_runs, logs[l].job_id) {
            Some(j) => if job_runs[j].reset_id == reset_id {
                Some(
                    Observation {
                        job_id: job_runs[j].id,
                        query_time: job_runs[j].query_time,
                        construction_site_id: logs[l].construction_site_id,
                        construction_requirement_id: material.construction_requirement_id,
                        fulfilled: material.fulfilled,
                        is_complete: logs[l].is_complete,
                    },
                )
            } else {
                None
            },
            None => None,
        },
        None => None,
    }
}

/// What the polls of an epoch saw, in the order of the log.
pub open spec fn observations(
    materials: Seq<DbConstructionMaterialLog>,
    reset_id: i64,
    job_runs: Seq<DbJobRun>,
    logs: Seq<DbConstructionLog>,
) -> Seq<Observation>
    decreases materials.len(),
{
    if materials.len() == 0 {
        Seq::<Observation>::empty()
    } else {
        let before = observations(materials.drop_last(), reset_id, job_runs, logs);
        match observed(materials.last(), reset_id, job_runs, logs) {
            Some(o) => before.push(o),
            None => before,
        }
    }
}

/// Whether an observation is of the material `requirement_id` of the site `site_id`.
pub open spec fn is_of(o: Observation, site_id: i64, requirement_id: i64) -> bool {
    o.construction_site_id == site_id && o.construction_requirement_id == requirement_id
}

/// The quantity delivered when the material was first observed.
pub open spec fn initial_quantity(
    seen: Seq<Observation>,
    site_id: i64,
    requirement_id: i64,
) -> Option<i64>
    decreases seen.len(),
{
    if seen.len() == 0 {
        None
    } else {
        match initial_quantity(seen.drop_last(), site_id, requirement_id) {
            Some(quantity) => Some(quantity),
            None => if is_of(seen.last(), site_id, requirement_id) {
                Some(seen.last().fulfilled)
            } else {
                None
            },
        }
    }
}

/// The first delivery event of a material: the earliest observation with
/// more delivered than when the material was first observed.
pub open spec fn first_delivery(
    seen: Seq<Observation>,
    site_id: i64,
    requirement_id: i64,
) -> Option<Observation>
    decreases seen.len(),
{
    if seen.len() == 0 {
        None
    } else {
        match first_delivery(seen.drop_last(), site_id, requirement_id) {
            Some(o) => Some(o),
            None => match initial_quantity(seen.drop_last(), site_id, requirement_id) {
                Some(quantity) => if is_of(seen.last(), site_id, requirement_id)
                    && seen.last().fulfilled > quantity {
                    Some(seen.last())
                } else {
                    None
                },
                None => None,
            },
        }
    }
}

/// The last delivery event of a material: the earliest observation of it
/// that found its site complete.
pub open spec fn last_delivery(
    seen: Seq<Observation>,
    site_id: i64,
    requirement_id: i64,
) -> Option<Observation>
    decreases seen.len(),
{
    if seen.len() == 0 {
        None
    } else {
        match last_delivery(seen.drop_last(), site_id, requirement_id) {
            Some(o) => Some(o),
            None => if is_of(seen.last(), site_id, requirement_id) && seen.last().is_complete {
                Some(seen.last())
            } else {
                None
            },
        }
    }
}

/// Where a material stands: what the poll `job_id` saw of it, and of
/// several observations of that poll the one recorded last.
pub open spec fn current_state(
    seen: Seq<Observation>,
    site_id: i64,
    requirement_id: i64,
    job_id: i64,
) -> Option<Observation>
    decreases seen.len(),
{
    if seen.len() == 0 {
        None
    } else if is_of(seen.last(), site_id, requirement_id) && seen.last().job_id == job_id {
        Some(seen.last())
    } else {
        current_state(seen.drop_last(), site_id, requirement_id, job_id)
    }
}

/// The delivery events of a material and where it stands.
#[derive(Clone, Copy, Debug, PartialEq, Eq, Structural)]
pub struct DeliveryEvents {
    pub first: Option<Observation>,
    pub last: Option<Observation>,
    pub current: Option<Observation>,
}

/// The delivery events of a material as the observations tell them.
pub open spec fn events_of(
    seen: Seq<Observation>,
    site_id: i64,
    requirement_id: i64,
    job_id: i64,
) -> DeliveryEvents {
    DeliveryEvents {
        first: first_delivery(seen, site_id, requirement_id),
        last: last_delivery(seen, site_id, requirement_id),
        current: current_state(seen, site_id, requirement_id, job_id),
    }
}

/// A first delivery event is an observation of its material that saw more
/// delivered than the material's first observation did; a last delivery
/// event is one that saw the site complete.
pub proof fn lemma_delivery_events(seen: Seq<Observation>, site_id: i64, requirement_id: i64)
    ensures
        first_delivery(seen, site_id, requirement_id) matches Some(o) ==> seen.contains(o) && is_of(
            o,
            site_id,
            requirement_id,
        ) && initial_quantity(seen, site_id, requirement_id) is Some && o.fulfilled
            > initial_quantity(seen, site_id, requirement_id)->0,
        last_delivery(seen, site_id, requirement_id) matches Some(o) ==> seen.contains(o) && is_of(
            o,
            site_id,
            requirement_id,
        ) && o.is_complete,
    decreases seen.len(),
{
    if seen.len() > 0 {
        let init = seen.drop_last();
        lemma_delivery_events(init, site_id, requirement_id);
    }
}

/// What the polls of an epoch saw of its construction sites.
pub fn construction_observations(
    reset_id: i64,
    job_runs: &Vec<DbJobRun>,
    construction_logs: &Vec<DbConstructionLog>,
    material_logs: &Vec<DbConstructionMaterialLog>,
) -> (seen: Vec<Observation>)
    ensures
        seen@ == observations(material_logs@, reset_id, job_runs@, construction_logs@),
{
    let mut seen: Vec<Observation> = Vec::new();
    let mut i: usize = 0;
    while i < material_logs.len()
        invariant
            i <= material_logs.len(),
            seen@ == observations(
                material_logs@.take(i as int),
                reset_id,
                job_runs@,
                construction_logs@,
            ),
        decreases material_logs.len() - i,
    {
        let material = material_logs[i];
        let ghost upto = material_logs@.take(i + 1);
        assert(upto.drop_last() =~= material_logs@.take(i as int));
        match find_by_id(construction_logs, material.construction_log_id) {
            Some(l) => {
                let log = construction_logs[l];
                match find_by_id(job_runs, log.job_id) {
                    Some(j) => {
                        let job = job_runs[j];
                        if job.reset_id == reset_id {
                            seen.push(
                                Observation {
                                    job_id: job.id,
                                    query_time: job.query_time,
                                    construction_site_id: log.construction_site_id,
                                    construction_requirement_id: material.construction_requirement_id,
                                    fulfilled: material.fulfilled,
                                    is_complete: log.is_complete,
                                },
                            );
                        }
                    },
                    None => {},
                }
            },
            None => {},
        }
        i += 1;
    }
    assert(material_logs@.take(i as int) =~= material_logs@);
    seen
}

/// Finds the delivery events of a material and where it stands at the poll `job_id`.
pub fn delivery_events(seen: &Vec<Observation>, site_id: i64, requirement_id: i64, job_id: i64) -> (events:
    DeliveryEvents)
    ensures
        events == events_of(seen@, site_id, requirement_id, job_id),
{
    let mut initial: Option<i64> = None;
    let mut first: Option<Observation> = None;
    let mut last: Option<Observation> = None;
    let mut current: Option<Observation> = None;
    let mut i: usize = 0;
    while i < seen.len()
        invariant
            i <= seen.len(),
            initial == initial_quantity(seen@.take(i as int), site_id, requirement_id),
            first == first_delivery(seen@.take(i as int), site_id, requirement_id),
            last == last_delivery(seen@.take(i as int), site_id, requirement_id),
            current == current_state(seen@.take(i as int), site_id, requirement_id, job_id),
        decreases seen.len() - i,
    {
        let o = seen[i];
        let ghost upto = seen@.take(i + 1);
        assert(upto.drop_last() =~= seen@.take(i as int));
        if o.construction_site_id == site_id && o.construction_requirement_id == requirement_id {
            match initial {
                Some(quantity) => {
                    if first.is_none() && o.fulfilled > quantity {
                        first = Some(o);
                    }
                },
                None => {
                    initial = Some(o.fulfilled);
                },
            }
            if last.is_none() && o.is_complete {
                last = Some(o);
            }
            if o.job_id == job_id {
                current = Some(o);
            }
        }
        i += 1;
    }
    assert(seen@.take(i as int) =~= seen@);
    DeliveryEvents { first, last, current }
}

/// Whether a material of a site has an overview: a first delivery was
/// seen, and the poll `job_id` saw the material.
pub open spec fn has_overview(
    seen: Seq<Observation>,
    site_id: i64,
    requirement_id: i64,
    job_id: i64,
) -> bool {
    first_delivery(seen, site_id, requirement_id) is Some && current_state(
        seen,
        site_id,
        requirement_id,
        job_id,
    ) is Some
}

/// The materials of a site that have an overview, in the order of the requirements.
pub open spec fn materials_in_overview(
    requirements: Seq<DbConstructionRequirement>,
    site_id: i64,
    seen: Seq<Observation>,
    job_id: i64,
) -> Seq<DbConstructionRequirement>
    decreases requirements.len(),
{
    if requirements.len() == 0 {
        Seq::<DbConstructionRequirement>::empty()
    } else {
        let before = materials_in_overview(requirements.drop_last(), site_id, seen, job_id);
        if has_overview(seen, site_id, requirements.last().id, job_id) {
            before.push(requirements.last())
        } else {
            before
        }
    }
}

/// A site and one of its materials.
pub struct SiteMaterial {
    pub site: DbConstructionSite,
    pub requirement: DbConstructionRequirement,
}

/// The materials that have an overview, site by site.
pub open spec fn overview_materials(
    sites: Seq<DbConstructionSite>,
    requirements: Seq<DbConstructionRequirement>,
    seen: Seq<Observation>,
    job_id: i64,
) -> Seq<SiteMaterial>
    decreases sites.len(),
{
    if sites.len() == 0 {
        Seq::<SiteMaterial>::empty()
    } else {
        let materials = materials_in_overview(requirements, sites.last().id, seen, job_id);
        overview_materials(sites.drop_last(), requirements, seen, job_id) + Seq::new(
            materials.len(),
            |k: int| SiteMaterial { site: sites.last(), requirement: materials[k] },
        )
    }
}

/// Whether `row` is the overview of a material of a site: when the epoch
/// started, when the first delivery was seen and when the site was first
/// seen complete, and what is delivered and needed now.
pub open spec fn is_overview_row(
    row: DbJumpGateConstructionEventOverviewEntry,
    epoch: EpochRow,
    key: SiteMaterial,
    events: DeliveryEvents,
) -> bool {
    &&& row.ts_start_of_reset == epoch.first_ts
    &&& row.trade_symbol@ == key.requirement.trade_symbol@
    &&& row.required == key.requirement.required
    &&& row.jump_gate_waypoint_symbol@ == key.site.jump_gate_waypoint_symbol@
    &&& events.first matches Some(first) && row.ts_first_construction_event == first.query_time
    &&& row.ts_last_construction_event == match events.last {
        Some(last) => Some(last.query_time),
        None => None,
    }
    &&& events.current matches Some(current) && row.fulfilled == Some(current.fulfilled)
        && row.is_jump_gate_complete == Some(current.is_complete)
}

/// Whether `rows` are the overviews of the materials `keys`, one by one.
pub open spec fn are_overview_rows(
    rows: Seq<DbJumpGateConstructionEventOverviewEntry>,
    keys: Seq<SiteMaterial>,
    epoch: EpochRow,
    seen: Seq<Observation>,
    job_id: i64,
) -> bool {
    &&& rows.len() == keys.len()
    &&& forall|i: int|
        0 <= i < rows.len() ==> is_overview_row(
            #[trigger] rows[i],
            epoch,
            keys[i],
            events_of(seen, keys[i].site.id, keys[i].requirement.id, job_id),
        )
}

/// The construction event overview of an epoch: for every material of
/// every site to which a delivery was seen, the first and the last delivery
/// event beside the epoch's start and what the latest poll saw. An epoch
/// without poll has no overview.
pub fn select_jump_gate_construction_event_overview_for_reset(
    epoch: EpochRow,
    job_runs: &Vec<DbJobRun>,
    construction_logs: &Vec<DbConstructionLog>,
    material_logs: &Vec<DbConstructionMaterialLog>,
    sites: &Vec<DbConstructionSite>,
    requirements: &Vec<DbConstructionRequirement>,
) -> (rows: Vec<DbJumpGateConstructionEventOverviewEntry>)
    ensures
        match latest_job(job_runs@, epoch.reset_id) {
            Some(job) => are_overview_rows(
                rows@,
                overview_materials(
                    sites@,
                    requirements@,
                    observations(material_logs@, epoch.reset_id, job_runs@, construction_logs@),
                    job.id,
                ),
                epoch,
                observations(material_logs@, epoch.reset_id, job_runs@, construction_logs@),
                job.id,
            ),
            None => rows@.len() == 0,
        },
{
    let mut rows: Vec<DbJumpGateConstructionEventOverviewEntry> = Vec::new();
    let job = match latest_job_run(job_runs, epoch.reset_id) {
        Some(job) => job,
        None => {
            return rows;
        },
    };
    let seen = construction_observations(epoch.reset_id, job_runs, construction_logs, material_logs);
    let mut s: usize = 0;
    while s < sites.len()
        invariant
            s <= sites.len(),
            are_overview_rows(
                rows@,
                overview_materials(sites@.take(s as int), requirements@, seen@, job.id),
                epoch,
                seen@,
                job.id,
            ),
        decreases sites.len() - s,
    {
        let site = &sites[s];
        let ghost upto = sites@.take(s + 1);
        let ghost done = overview_materials(sites@.take(s as int), requirements@, seen@, job.id);
        assert(upto.drop_last() =~= sites@.take(s as int));
        let mut r: usize = 0;
        while r < requirements.len()
            invariant
                r <= requirements.len(),
                are_overview_rows(
                    rows@,
                    done + Seq::new(
                        materials_in_overview(requirements@.take(r as int), site.id, seen@, job.id).len(),
                        |k: int|
                            SiteMaterial {
                                site: *site,
                                requirement: materials_in_overview(
                                    requirements@.take(r as int),
                                    site.id,
                                    seen@,
                                    job.id,
                                )[k],
                            },
                    ),
                    epoch,
                    seen@,
                    job.id,
                ),
            decreases requirements.len() - r,
        {
            let requirement = &requirements[r];
            let ghost some = requirements@.take(r + 1);
            let ghost materials = materials_in_overview(
                requirements@.take(r as int),
                site.id,
                seen@,
                job.id,
            );
            assert(some.drop_last() =~= requirements@.take(r as int));
            let events = delivery_events(&seen, site.id, requirement.id, job.id);
            match (events.first, events.current) {
                (Some(first), Some(current)) => {
                    let ghost shown = rows@;
                    let ghost grown = materials.push(*requirement);
                    let ghost next_keys = done + Seq::new(
                        grown.len(),
                        |k: int| SiteMaterial { site: *site, requirement: grown[k] },
                    );
                    rows.push(
                        DbJumpGateConstructionEventOverviewEntry {
                            ts_start_of_reset: epoch.first_ts,
                            trade_symbol: copy_text(&requirement.trade_symbol),
                            fulfilled: Some(current.fulfilled),
                            required: requirement.required,
                            jump_gate_waypoint_symbol: copy_text(&site.jump_gate_waypoint_symbol),
                            ts_first_construction_event: first.query_time,
                            ts_last_construction_event: match events.last {
                                Some(last) => Some(last.query_time),
                                None => None,
                            },
                            is_jump_gate_complete: Some(current.is_complete),
                        },
                    );
                    assert forall|k: int| 0 <= k < rows@.len() implies is_overview_row(
                        #[trigger] rows@[k],
                        epoch,
                        next_keys[k],
                        events_of(
                            seen@,
                            next_keys[k].site.id,
                            next_keys[k].requirement.id,
                            job.id,
                        ),
                    ) by {
                        if k < shown.len() {
                            assert(rows@[k] == shown[k]);
                        }
                    }
                },
                _ => {},
            }
            r += 1;
        }
        assert(requirements@.take(r as int) =~= requirements@);
        s += 1;
    }
    assert(sites@.take(s as int) =~= sites@);
    rows
}

} // verus!
