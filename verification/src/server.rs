//! The query side: which window of an epoch a request asks for, at which
//! resolution it is answered, and the history that answers it.

use core::ops::RangeInclusive;
use crate::api::{
    ApiAgentHistoryEntry, ApiAgentSymbol, ApiConstructionMaterialHistoryEntry,
    ApiJumpGateAssignmentEntry, ApiResetDate, agent_names, as_u32,
};
use crate::db::ResetDate;
use crate::history::{
    AgentSample, MaterialKey, MaterialSample, agent_series, agents_with_history,
    are_agent_timelines, are_material_timelines, gates_naming, greatest, history_agents,
    history_materials, is_agent_history, is_material_history, jump_gates_of_agents,
    material_required, material_series, materials_with_history, select_agent_history,
    select_construction_progress_for_reset,
};
use crate::lists::{distinct, lemma_distinct_again};
use crate::numbers::{csv_numbers, read_numbers};
use crate::text::{split_on, texts};
use crate::time::duration_minutes;
use vstd::prelude::*;

verus! {

/// Width in minutes below which a window is sampled every five minutes.
pub const SIX_HOURS_MINUTES: i64 = 360;

/// Width in minutes below which a window is sampled every quarter of an hour.
pub const ONE_DAY_MINUTES: i64 = 1440;

/// Whether the requested span lies at the start of the epoch or at its end.
#[derive(Clone, Copy, Debug, PartialEq, Eq, Structural)]
pub enum RangeSelectionMode {
    First,
    Last,
}

/// Filter for period and agent symbols.
#[derive(Debug)]
pub struct ApiResetAgentPeriodFilterBody {
    pub agent_symbols: Vec<String>,
    pub event_time_minutes_lte: u32,
    pub event_time_minutes_gte: Option<u32>,
    pub selection_mode: RangeSelectionMode,
}

/// The window a request resolves to, in event-time minutes, and the grid on
/// which its samples are taken.
#[derive(Clone, Copy, Debug, PartialEq, Eq, Structural)]
pub struct ResetPeriodFilter {
    pub from_event_time_minutes: i64,
    pub to_event_time_minutes: i64,
    pub resolution_minutes: i64,
}

/// The smaller of two numbers.
pub open spec fn lower(v1: int, v2: int) -> int {
    if v1 > v2 {
        v2
    } else {
        v1
    }
}

/// The larger of two numbers.
pub open spec fn upper(v1: int, v2: int) -> int {
    if v1 > v2 {
        v1
    } else {
        v2
    }
}

/// The sampling grid for a window `width` minutes wide: 5 below six hours,
/// 15 below a day, 60 from there on.
pub open spec fn resolution_for(width: int) -> int {
    if width < 360 {
        5
    } else if width < 1440 {
        15
    } else {
        60
    }
}

/// First minute of the window. `First` mode starts at the lower bound asked
/// for, or at 0 if none was; `Last` mode reaches back from the epoch's age by
/// the span asked for, as far as the epoch goes.
pub open spec fn window_start(
    mode: RangeSelectionMode,
    gte: Option<u32>,
    lte: u32,
    age_minutes: u32,
) -> int {
    match mode {
        RangeSelectionMode::First => lower(
            match gte {
                Some(g) => g as int,
                None => 0,
            },
            lte as int,
        ),
        RangeSelectionMode::Last => if lte > age_minutes {
            0
        } else {
            age_minutes - lte
        },
    }
}

/// Last minute of the window: the upper bound asked for in `First` mode, the
/// epoch's age in `Last` mode.
pub open spec fn window_end(
    mode: RangeSelectionMode,
    gte: Option<u32>,
    lte: u32,
    age_minutes: u32,
) -> int {
    match mode {
        RangeSelectionMode::First => upper(
            match gte {
                Some(g) => g as int,
                None => 0,
            },
            lte as int,
        ),
        RangeSelectionMode::Last => age_minutes as int,
    }
}

/// The window and resolution a request resolves to.
pub open spec fn reset_period(
    mode: RangeSelectionMode,
    gte: Option<u32>,
    lte: u32,
    age_minutes: u32,
) -> ResetPeriodFilter {
    let from = window_start(mode, gte, lte, age_minutes);
    let to = window_end(mode, gte, lte, age_minutes);
    ResetPeriodFilter {
        from_event_time_minutes: from as i64,
        to_event_time_minutes: to as i64,
        resolution_minutes: resolution_for(to - from) as i64,
    }
}

/// `RangeInclusive::start` returns the lower bound the range was made with,
/// as long as the range has not been iterated to its end.
pub assume_specification<Idx>[ RangeInclusive::<Idx>::start ](r: &RangeInclusive<Idx>) -> (bound:
    &Idx)
    ensures
        !r@.exhausted ==> *bound == r@.start,
;

/// `RangeInclusive::end` returns the upper bound the range was made with,
/// as long as the range has not been iterated to its end.
pub assume_specification<Idx>[ RangeInclusive::<Idx>::end ](r: &RangeInclusive<Idx>) -> (bound:
    &Idx)
    ensures
        !r@.exhausted ==> *bound == r@.end,
;

/// The range between two bounds given in either order.
pub fn safe_range(v1: u32, v2: u32) -> (r: RangeInclusive<u32>)
    ensures
        r@.start == lower(v1 as int, v2 as int),
        r@.end == upper(v1 as int, v2 as int),
        !r@.exhausted,
{
    if v1 > v2 {
        v2..=v1
    } else {
        v1..=v2
    }
}

/// Resolves a request against an epoch `num_minutes` old.
pub fn extract_reset_period(
    selection_mode: RangeSelectionMode,
    event_time_minutes_gte: Option<u32>,
    event_time_minutes_lte: u32,
    num_minutes: u32,
) -> (r: ResetPeriodFilter)
    ensures
        r == reset_period(
            selection_mode,
            event_time_minutes_gte,
            event_time_minutes_lte,
            num_minutes,
        ),
        0 <= r.from_event_time_minutes <= r.to_event_time_minutes <= u32::MAX,
        r.resolution_minutes == 5 || r.resolution_minutes == 15 || r.resolution_minutes == 60,
{
    let event_time_minutes = match selection_mode {
        RangeSelectionMode::First => {
            let gte: u32 = match event_time_minutes_gte {
                Some(g) => g,
                None => 0,
            };
            safe_range(gte, event_time_minutes_lte)
        },
        RangeSelectionMode::Last => {
            if event_time_minutes_lte > num_minutes {
                safe_range(0, num_minutes)
            } else {
                safe_range(num_minutes - event_time_minutes_lte, num_minutes)
            }
        },
    };
    let from_event_time_minutes: i64 = *event_time_minutes.start() as i64;
    let to_event_time_minutes: i64 = *event_time_minutes.end() as i64;
    let width: i64 = to_event_time_minutes - from_event_time_minutes;
    let resolution_minutes: i64 = if width < SIX_HOURS_MINUTES {
        5
    } else if width < ONE_DAY_MINUTES {
        15
    } else {
        60
    };
    ResetPeriodFilter { from_event_time_minutes, to_event_time_minutes, resolution_minutes }
}

/// Resolves a request against an epoch, whose age is the span between its
/// first and its latest observation.
pub fn extract_reset_period_from_filter(
    filter: &ApiResetAgentPeriodFilterBody,
    reset_infos: ResetDate,
) -> (r: ResetPeriodFilter)
    ensures
        r == reset_period(
            filter.selection_mode,
            filter.event_time_minutes_gte,
            filter.event_time_minutes_lte,
            reset_infos.age_minutes() as u32,
        ),
{
    let num_minutes = duration_minutes(reset_infos.first_ts, reset_infos.latest_ts);
    extract_reset_period(
        filter.selection_mode,
        filter.event_time_minutes_gte,
        filter.event_time_minutes_lte,
        num_minutes,
    )
}

/// In `Last` mode the window ends at the epoch's age and is as wide as the
/// span asked for, or as wide as the epoch is old if that is less.
pub proof fn lemma_last_window(lte: u32, age_minutes: u32, gte: Option<u32>)
    ensures
        window_end(RangeSelectionMode::Last, gte, lte, age_minutes) == age_minutes,
        window_end(RangeSelectionMode::Last, gte, lte, age_minutes) - window_start(
            RangeSelectionMode::Last,
            gte,
            lte,
            age_minutes,
        ) == lower(lte as int, age_minutes as int),
{
}

/// Reads the numbers of a comma-separated list.
pub fn parse_csv(s: &str) -> (numbers: Vec<u32>)
    ensures
        numbers@ == csv_numbers(s@),
{
    let pieces = split_on(s, ',');
    read_numbers(&pieces)
}

/// The answer to a request for the history of an epoch.
#[derive(Debug)]
pub struct GetHistoryDataForResetResponseContent {
    pub reset_date: ApiResetDate,
    pub agent_history: Vec<ApiAgentHistoryEntry>,
    pub construction_material_history: Vec<ApiConstructionMaterialHistoryEntry>,
    pub requested_agents: Vec<ApiAgentSymbol>,
    pub resolution_minutes: i64,
}

/// The window a request resolves to for an epoch.
pub open spec fn period_of(filter: ApiResetAgentPeriodFilterBody, reset_infos: ResetDate) -> ResetPeriodFilter {
    reset_period(
        filter.selection_mode,
        filter.event_time_minutes_gte,
        filter.event_time_minutes_lte,
        reset_infos.age_minutes() as u32,
    )
}

/// The agents of the answered histories, history by history.
pub open spec fn answered_agents(entries: Seq<ApiAgentHistoryEntry>) -> Seq<Seq<char>> {
    Seq::new(entries.len(), |i: int| entries[i].agent_symbol.0@)
}

/// The materials of the answered histories, history by history.
pub open spec fn answered_materials(entries: Seq<ApiConstructionMaterialHistoryEntry>) -> Seq<
    MaterialKey,
> {
    Seq::new(
        entries.len(),
        |i: int|
            MaterialKey {
                gate: entries[i].jump_gate_waypoint_symbol.0@,
                trade: entries[i].trade_symbol.0@,
            },
    )
}

/// What is needed of a material as it is answered: the greatest quantity
/// its series names, or 0 if that is no `u32`.
pub open spec fn answered_required(series: Seq<MaterialSample>) -> u32 {
    match as_u32(greatest(material_required(series))) {
        Some(required) => required,
        None => 0,
    }
}

/// Whether `answer` is the history of an epoch within the window asked
/// for, the epoch's date set aside: one history for each agent asked for
/// that has a sample in the window, and one for each material of the sites
/// those agents are assigned to, every history thinned out to the window's
/// resolution and in the order of event time.
pub open spec fn is_history_answer(
    answer: GetHistoryDataForResetResponseContent,
    reset_infos: ResetDate,
    filter: ApiResetAgentPeriodFilterBody,
    jump_gate_assignments: Seq<ApiJumpGateAssignmentEntry>,
    agent_samples: Seq<AgentSample>,
    material_samples: Seq<MaterialSample>,
) -> bool {
    let period = period_of(filter, reset_infos);
    let wanted = texts(filter.agent_symbols@);
    let gates = distinct(gates_naming(jump_gate_assignments, wanted));
    &&& answer.resolution_minutes == period.resolution_minutes
    &&& agent_names(answer.requested_agents@) == wanted
    &&& answered_agents(answer.agent_history@) == agents_with_history(
        distinct(wanted),
        agent_samples,
        period,
    )
    &&& forall|i: int|
        0 <= i < answer.agent_history@.len() ==> are_agent_timelines(
            (#[trigger] answer.agent_history@[i]).event_times_minutes@,
            answer.agent_history@[i].credits_timeline@,
            answer.agent_history@[i].ship_count_timeline@,
            agent_series(agent_samples, answer.agent_history@[i].agent_symbol.0@, period),
        )
    &&& answered_materials(answer.construction_material_history@) == materials_with_history(
        gates,
        material_samples,
        period,
    )
    &&& forall|i: int|
        0 <= i < answer.construction_material_history@.len() ==> {
            let entry = #[trigger] answer.construction_material_history@[i];
            let series = material_series(
                material_samples,
                entry.jump_gate_waypoint_symbol.0@,
                entry.trade_symbol.0@,
                period,
            );
            &&& are_material_timelines(entry.event_times_minutes@, entry.fulfilled@, series)
            &&& entry.required == answered_required(series)
        }
}

/// Answers a request for the history of an epoch from the epoch's log.
/// There is no answer for an epoch whose date is no day of the calendar.
pub fn get_history_data_for_reset(
    reset_infos: ResetDate,
    filter: ApiResetAgentPeriodFilterBody,
    jump_gate_assignments: &Vec<ApiJumpGateAssignmentEntry>,
    agent_samples: &Vec<AgentSample>,
    material_samples: &Vec<MaterialSample>,
) -> (r: Result<GetHistoryDataForResetResponseContent, ()>)
    ensures
        match r {
            Ok(answer) => reset_infos.reset.rendering() == Some(answer.reset_date.0@)
                && is_history_answer(
                answer,
                reset_infos,
                filter,
                jump_gate_assignments@,
                agent_samples@,
                material_samples@,
            ),
            Err(_) => reset_infos.reset.rendering() is None,
        },
{
    match ApiResetDate::try_from(reset_infos.reset) {
        Ok(reset_date) => Ok(
            get_history_data(
                reset_date,
                reset_infos,
                filter,
                jump_gate_assignments,
                agent_samples,
                material_samples,
            ),
        ),
        Err(_) => Err(()),
    }
}

/// Answers a request for the history of an epoch from the epoch's log,
/// given the epoch's date as it is answered.
pub fn get_history_data(
    reset_date: ApiResetDate,
    reset_infos: ResetDate,
    filter: ApiResetAgentPeriodFilterBody,
    jump_gate_assignments: &Vec<ApiJumpGateAssignmentEntry>,
    agent_samples: &Vec<AgentSample>,
    material_samples: &Vec<MaterialSample>,
) -> (answer: GetHistoryDataForResetResponseContent)
    ensures
        answer.reset_date == reset_date,
        is_history_answer(
            answer,
            reset_infos,
            filter,
            jump_gate_assignments@,
            agent_samples@,
            material_samples@,
        ),
{
    let period = extract_reset_period_from_filter(&filter, reset_infos);
    let jump_gate_symbols = jump_gates_of_agents(jump_gate_assignments, &filter.agent_symbols);
    let ghost wanted = texts(filter.agent_symbols@);
    proof {
        lemma_distinct_again(gates_naming(jump_gate_assignments@, wanted));
    }

    let agent_entries = select_agent_history(agent_samples, &period, &filter.agent_symbols);
    let mut agent_history: Vec<ApiAgentHistoryEntry> = Vec::new();
    for entry in it: agent_entries
        invariant
            it.seq() == agent_entries@,
            forall|i: int|
                0 <= i < agent_entries@.len() ==> is_agent_history(
                    #[trigger] agent_entries@[i],
                    agent_series(agent_samples@, agent_entries@[i].agent_symbol@, period),
                ),
            agent_history@.len() == it.index(),
            forall|j: int|
                0 <= j < agent_history@.len() ==> {
                    &&& (#[trigger] agent_history@[j]).agent_symbol.0@
                        == agent_entries@[j].agent_symbol@
                    &&& are_agent_timelines(
                        agent_history@[j].event_times_minutes@,
                        agent_history@[j].credits_timeline@,
                        agent_history@[j].ship_count_timeline@,
                        agent_series(agent_samples@, agent_entries@[j].agent_symbol@, period),
                    )
                },
    {
        match ApiAgentHistoryEntry::try_from(entry) {
            Ok(history) => {
                agent_history.push(history);
            },
            Err(_) => {
                assert(false);
            },
        }
    }
    assert(answered_agents(agent_history@) =~= history_agents(agent_entries@));

    let material_entries = select_construction_progress_for_reset(
        material_samples,
        &period,
        &jump_gate_symbols,
    );
    let mut construction_material_history: Vec<ApiConstructionMaterialHistoryEntry> = Vec::new();
    for entry in it: material_entries
        invariant
            it.seq() == material_entries@,
            forall|i: int|
                0 <= i < material_entries@.len() ==> is_material_history(
                    #[trigger] material_entries@[i],
                    material_entries@[i].jump_gate_waypoint_symbol@,
                    material_entries@[i].trade_symbol@,
                    material_series(
                        material_samples@,
                        material_entries@[i].jump_gate_waypoint_symbol@,
                        material_entries@[i].trade_symbol@,
                        period,
                    ),
                ),
            construction_material_history@.len() == it.index(),
            forall|j: int|
                0 <= j < construction_material_history@.len() ==> {
                    let answered = #[trigger] construction_material_history@[j];
                    let stored = material_entries@[j];
                    let series = material_series(
                        material_samples@,
                        stored.jump_gate_waypoint_symbol@,
                        stored.trade_symbol@,
                        period,
                    );
                    &&& answered.jump_gate_waypoint_symbol.0@ == stored.jump_gate_waypoint_symbol@
                    &&& answered.trade_symbol.0@ == stored.trade_symbol@
                    &&& are_material_timelines(
                        answered.event_times_minutes@,
                        answered.fulfilled@,
                        series,
                    )
                    &&& answered.required == answered_required(series)
                },
    {
        match ApiConstructionMaterialHistoryEntry::try_from(entry) {
            Ok(history) => {
                construction_material_history.push(history);
            },
            Err(_) => {
                assert(false);
            },
        }
    }
    assert(answered_materials(construction_material_history@) =~= history_materials(
        material_entries@,
    ));

    let mut requested_agents: Vec<ApiAgentSymbol> = Vec::new();
    for name in it: filter.agent_symbols
        invariant
            it.seq() == filter.agent_symbols@,
            wanted == texts(filter.agent_symbols@),
            agent_names(requested_agents@) == wanted.take(it.index() as int),
    {
        let ghost before = agent_names(requested_agents@);
        requested_agents.push(ApiAgentSymbol(name));
        assert(agent_names(requested_agents@) =~= before.push(name@));
    }
    assert(wanted.take(wanted.len() as int) =~= wanted);

    GetHistoryDataForResetResponseContent {
        reset_date,
        agent_history,
        construction_material_history,
        requested_agents,
        resolution_minutes: period.resolution_minutes,
    }
}

} // verus!
