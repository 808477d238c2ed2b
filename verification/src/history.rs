//! The history of an epoch within a window of event time, thinned out to
//! the window's resolution: one series for each agent asked for, and one for
//! each material of the construction sites those agents are assigned to.

use crate::api::ApiJumpGateAssignmentEntry;
use crate::db::{DbAgentHistoryEntry, DbConstructionMaterialHistoryEntry};
use crate::lists::{distinct, unique_texts};
use crate::numbers::{csv_numbers, csv_of, lemma_csv_reads_back, write_csv};
use crate::ranking::{Ranked, is_ranked, sort_by_rank};
use crate::server::ResetPeriodFilter;
use crate::text::{contains_text, copy_text, copy_texts, same_text, texts};
use vstd::prelude::*;

verus! {

/// An agent's state at one poll.
#[derive(Debug)]
pub struct AgentSample {
    pub agent_symbol: String,
    pub construction_site_id: i64,
    pub event_time_minutes: u32,
    pub credits: i64,
    pub ship_count: u32,
}

/// The delivered quantity of one material of one site at one poll.
#[derive(Debug)]
pub struct MaterialSample {
    pub jump_gate_waypoint_symbol: String,
    pub trade_symbol: String,
    pub required: i64,
    pub event_time_minutes: u32,
    pub fulfilled: u32,
}

/// Whether an event time lies on the sampling grid. There is no grid of a
/// width that is not positive.
pub open spec fn is_on_grid(event_time: int, resolution: int) -> bool {
    resolution > 0 && event_time % resolution == 0
}

/// Whether a sample taken at `event_time` is part of the answer: it lies
/// within the window, and either on the grid or within the last
/// `resolution` minutes of the window, so that the latest state is never
/// thinned out.
pub open spec fn is_kept(event_time: u32, period: ResetPeriodFilter) -> bool {
    &&& period.from_event_time_minutes <= event_time <= period.to_event_time_minutes
    &&& (is_on_grid(event_time as int, period.resolution_minutes as int) || event_time
        >= period.to_event_time_minutes - period.resolution_minutes)
}

/// Whether a sample is part of the series of the agent `symbol`.
pub open spec fn is_agent_sample_of(
    sample: AgentSample,
    symbol: Seq<char>,
    period: ResetPeriodFilter,
) -> bool {
    sample.agent_symbol@ == symbol && is_kept(sample.event_time_minutes, period)
}

/// The series of an agent: its samples that are kept, in the order of the log.
pub open spec fn agent_series(
    samples: Seq<AgentSample>,
    symbol: Seq<char>,
    period: ResetPeriodFilter,
) -> Seq<AgentSample>
    decreases samples.len(),
{
    if samples.len() == 0 {
        Seq::<AgentSample>::empty()
    } else {
        let before = agent_series(samples.drop_last(), symbol, period);
        if is_agent_sample_of(samples.last(), symbol, period) {
            before.push(samples.last())
        } else {
            before
        }
    }
}

/// The greatest of the numbers; the least number there is if there are none.
pub open spec fn greatest(numbers: Seq<i64>) -> i64
    decreases numbers.len(),
{
    if numbers.len() == 0 {
        i64::MIN
    } else {
        let before = greatest(numbers.drop_last());
        if numbers.last() > before {
            numbers.last()
        } else {
            before
        }
    }
}

/// One point of an agent's timelines.
#[derive(Clone, Copy, Debug, PartialEq, Eq, Structural)]
pub struct AgentPoint {
    pub event_time_minutes: u32,
    pub credits: i64,
    pub ship_count: u32,
}

/// Points are put in the order of their event times.
impl Ranked for AgentPoint {
    open spec fn ranks_no_later(&self, other: &Self) -> bool {
        self.event_time_minutes <= other.event_time_minutes
    }

    fn is_ranked_no_later(&self, other: &Self) -> (r: bool) {
        self.event_time_minutes <= other.event_time_minutes
    }

    proof fn lemma_total(a: &Self, b: &Self) {
    }

    proof fn lemma_transitive(a: &Self, b: &Self, c: &Self) {
    }
}

/// The points of a series, sample by sample.
pub open spec fn agent_points(series: Seq<AgentSample>) -> Seq<AgentPoint> {
    Seq::new(
        series.len(),
        |k: int|
            AgentPoint {
                event_time_minutes: series[k].event_time_minutes,
                credits: series[k].credits,
                ship_count: series[k].ship_count,
            },
    )
}

/// The points that parallel timelines hold, position by position.
pub open spec fn agent_timeline(times: Seq<u32>, credits: Seq<i64>, ships: Seq<u32>) -> Seq<
    AgentPoint,
> {
    Seq::new(
        times.len(),
        |k: int| AgentPoint { event_time_minutes: times[k], credits: credits[k], ship_count: ships[k] },
    )
}

/// The construction sites of a series.
pub open spec fn agent_sites(series: Seq<AgentSample>) -> Seq<i64> {
    Seq::new(series.len(), |k: int| series[k].construction_site_id)
}

/// Whether parallel timelines hold a series: every sample of the series
/// stands at one position of all three, the positions in the order of event
/// time.
pub open spec fn are_agent_timelines(
    times: Seq<u32>,
    credits: Seq<i64>,
    ships: Seq<u32>,
    series: Seq<AgentSample>,
) -> bool {
    &&& credits.len() == times.len()
    &&& ships.len() == times.len()
    &&& is_ranked(agent_timeline(times, credits, ships))
    &&& agent_timeline(times, credits, ships).to_multiset() == agent_points(series).to_multiset()
}

/// Whether `entry` holds the series as parallel timelines.
pub open spec fn is_agent_history(entry: DbAgentHistoryEntry, series: Seq<AgentSample>) -> bool {
    &&& entry.construction_site_id == Some(greatest(agent_sites(series)))
    &&& entry.event_times_minutes matches Some(times) && entry.credits_timeline matches Some(
        credits,
    ) && entry.ship_count_timeline matches Some(ships) && are_agent_timelines(
        times@,
        credits@,
        ships@,
        series,
    )
}

/// The agents among `wanted` that have a series at all, in their order.
pub open spec fn agents_with_history(
    wanted: Seq<Seq<char>>,
    samples: Seq<AgentSample>,
    period: ResetPeriodFilter,
) -> Seq<Seq<char>>
    decreases wanted.len(),
{
    if wanted.len() == 0 {
        Seq::<Seq<char>>::empty()
    } else {
        let before = agents_with_history(wanted.drop_last(), samples, period);
        if agent_series(samples, wanted.last(), period).len() > 0 {
            before.push(wanted.last())
        } else {
            before
        }
    }
}

/// The agents of the entries, entry by entry.
pub open spec fn history_agents(entries: Seq<DbAgentHistoryEntry>) -> Seq<Seq<char>> {
    Seq::new(entries.len(), |i: int| entries[i].agent_symbol@)
}

/// Whether a sample is part of the series of the material `trade` of the
/// site `gate`.
pub open spec fn is_material_sample_of(
    sample: MaterialSample,
    gate: Seq<char>,
    trade: Seq<char>,
    period: ResetPeriodFilter,
) -> bool {
    &&& is_site_sample_of(sample, gate, period)
    &&& sample.trade_symbol@ == trade
}

/// Whether a sample is part of the history of the site `gate`.
pub open spec fn is_site_sample_of(
    sample: MaterialSample,
    gate: Seq<char>,
    period: ResetPeriodFilter,
) -> bool {
    &&& sample.jump_gate_waypoint_symbol@ == gate
    &&& is_kept(sample.event_time_minutes, period)
}

/// The series of a material of a site: its samples that are kept, in the
/// order of the log.
pub open spec fn material_series(
    samples: Seq<MaterialSample>,
    gate: Seq<char>,
    trade: Seq<char>,
    period: ResetPeriodFilter,
) -> Seq<MaterialSample>
    decreases samples.len(),
{
    if samples.len() == 0 {
        Seq::<MaterialSample>::empty()
    } else {
        let before = material_series(samples.drop_last(), gate, trade, period);
        if is_material_sample_of(samples.last(), gate, trade, period) {
            before.push(samples.last())
        } else {
            before
        }
    }
}

/// The trade goods named by the samples of a site's history, sample by sample.
pub open spec fn site_trades(
    samples: Seq<MaterialSample>,
    gate: Seq<char>,
    period: ResetPeriodFilter,
) -> Seq<Seq<char>>
    decreases samples.len(),
{
    if samples.len() == 0 {
        Seq::<Seq<char>>::empty()
    } else {
        let before = site_trades(samples.drop_last(), gate, period);
        if is_site_sample_of(samples.last(), gate, period) {
            before.push(samples.last().trade_symbol@)
        } else {
            before
        }
    }
}

/// One point of a material's timelines.
#[derive(Clone, Copy, Debug, PartialEq, Eq, Structural)]
pub struct MaterialPoint {
    pub event_time_minutes: u32,
    pub fulfilled: u32,
}

/// Points are put in the order of their event times.
impl Ranked for MaterialPoint {
    open spec fn ranks_no_later(&self, other: &Self) -> bool {
        self.event_time_minutes <= other.event_time_minutes
    }

    fn is_ranked_no_later(&self, other: &Self) -> (r: bool) {
        self.event_time_minutes <= other.event_time_minutes
    }

    proof fn lemma_total(a: &Self, b: &Self) {
    }

    proof fn lemma_transitive(a: &Self, b: &Self, c: &Self) {
    }
}

/// The points of a series, sample by sample.
pub open spec fn material_points(series: Seq<MaterialSample>) -> Seq<MaterialPoint> {
    Seq::new(
        series.len(),
        |k: int|
            MaterialPoint {
                event_time_minutes: series[k].event_time_minutes,
                fulfilled: series[k].fulfilled,
            },
    )
}

/// The points that parallel timelines hold, position by position.
pub open spec fn material_timeline(times: Seq<u32>, fulfilled: Seq<u32>) -> Seq<MaterialPoint> {
    Seq::new(
        times.len(),
        |k: int| MaterialPoint { event_time_minutes: times[k], fulfilled: fulfilled[k] },
    )
}

/// The required quantities of a series.
pub open spec fn material_required(series: Seq<MaterialSample>) -> Seq<i64> {
    Seq::new(series.len(), |k: int| series[k].required)
}

/// Whether parallel timelines hold a series: every sample of the series
/// stands at one position of both, the positions in the order of event
/// time.
pub open spec fn are_material_timelines(
    times: Seq<u32>,
    fulfilled: Seq<u32>,
    series: Seq<MaterialSample>,
) -> bool {
    &&& fulfilled.len() == times.len()
    &&& is_ranked(material_timeline(times, fulfilled))
    &&& material_timeline(times, fulfilled).to_multiset() == material_points(series).to_multiset()
}

/// Whether `entry` holds the series of the material `trade` of the site
/// `gate`: its two timelines are comma-separated lists of numbers in
/// decimal, and what they list are the timelines of the series.
pub open spec fn is_material_history(
    entry: DbConstructionMaterialHistoryEntry,
    gate: Seq<char>,
    trade: Seq<char>,
    series: Seq<MaterialSample>,
) -> bool {
    &&& entry.jump_gate_waypoint_symbol@ == gate
    &&& entry.trade_symbol@ == trade
    &&& entry.required == Some(greatest(material_required(series)))
    &&& entry.event_time_minutes_csv matches Some(times) && entry.fulfilled_csv matches Some(
        fulfilled,
    ) && {
        &&& times@ == csv_of(csv_numbers(times@))
        &&& fulfilled@ == csv_of(csv_numbers(fulfilled@))
        &&& are_material_timelines(csv_numbers(times@), csv_numbers(fulfilled@), series)
    }
}

/// A site and one of its materials.
pub struct MaterialKey {
    pub gate: Seq<char>,
    pub trade: Seq<char>,
}

/// The materials that have a history, site by site in the order of
/// `gates`, and for each site in the order in which the log first names
/// them.
pub open spec fn materials_with_history(
    gates: Seq<Seq<char>>,
    samples: Seq<MaterialSample>,
    period: ResetPeriodFilter,
) -> Seq<MaterialKey>
    decreases gates.len(),
{
    if gates.len() == 0 {
        Seq::<MaterialKey>::empty()
    } else {
        let trades = distinct(site_trades(samples, gates.last(), period));
        materials_with_history(gates.drop_last(), samples, period) + Seq::new(
            trades.len(),
            |k: int| MaterialKey { gate: gates.last(), trade: trades[k] },
        )
    }
}

/// The materials of the entries, entry by entry.
pub open spec fn history_materials(entries: Seq<DbConstructionMaterialHistoryEntry>) -> Seq<
    MaterialKey,
> {
    Seq::new(
        entries.len(),
        |i: int|
            MaterialKey {
                gate: entries[i].jump_gate_waypoint_symbol@,
                trade: entries[i].trade_symbol@,
            },
    )
}

/// Whether an assignment names one of the agents `wanted`.
pub open spec fn names_one_of(entry: ApiJumpGateAssignmentEntry, wanted: Seq<Seq<char>>) -> bool {
    exists|k: int|
        0 <= k < entry.agents_in_system@.len() && wanted.contains(
            (#[trigger] entry.agents_in_system@[k]).0@,
        )
}

/// The jump gates of the assignments that name one of the agents `wanted`,
/// assignment by assignment.
pub open spec fn gates_naming(
    assignments: Seq<ApiJumpGateAssignmentEntry>,
    wanted: Seq<Seq<char>>,
) -> Seq<Seq<char>>
    decreases assignments.len(),
{
    if assignments.len() == 0 {
        Seq::<Seq<char>>::empty()
    } else {
        let before = gates_naming(assignments.drop_last(), wanted);
        if names_one_of(assignments.last(), wanted) {
            before.push(assignments.last().jump_gate_waypoint_symbol.0@)
        } else {
            before
        }
    }
}

/// Decides whether a sample taken at `event_time` is part of the answer.
pub fn keeps_sample(event_time: u32, period: &ResetPeriodFilter) -> (r: bool)
    ensures
        r == is_kept(event_time, *period),
{
    let t: i128 = event_time as i128;
    let from: i128 = period.from_event_time_minutes as i128;
    let to: i128 = period.to_event_time_minutes as i128;
    let resolution: i128 = period.resolution_minutes as i128;
    if t < from || t > to {
        return false;
    }
    (resolution > 0 && t % resolution == 0) || t >= to - resolution
}

/// The jump gates whose history belongs to the answer: the sites that an
/// agent asked for is assigned to, each named once.
pub fn jump_gates_of_agents(
    assignments: &Vec<ApiJumpGateAssignmentEntry>,
    agent_symbols: &Vec<String>,
) -> (jump_gates: Vec<String>)
    ensures
        texts(jump_gates@) == distinct(gates_naming(assignments@, texts(agent_symbols@))),
{
    let mut named: Vec<String> = Vec::new();
    let mut i: usize = 0;
    while i < assignments.len()
        invariant
            i <= assignments.len(),
            texts(named@) == gates_naming(assignments@.take(i as int), texts(agent_symbols@)),
        decreases assignments.len() - i,
    {
        let entry = &assignments[i];
        let ghost upto = assignments@.take(i + 1);
        assert(upto.drop_last() =~= assignments@.take(i as int));
        let mut names_one = false;
        let mut k: usize = 0;
        while k < entry.agents_in_system.len() && !names_one
            invariant
                k <= entry.agents_in_system@.len(),
                names_one ==> names_one_of(*entry, texts(agent_symbols@)),
                !names_one ==> forall|j: int|
                    0 <= j < k ==> !texts(agent_symbols@).contains(
                        (#[trigger] entry.agents_in_system@[j]).0@,
                    ),
            decreases entry.agents_in_system@.len() - k + (if names_one { 0int } else { 1int }),
        {
            if contains_text(agent_symbols, &entry.agents_in_system[k].0) {
                names_one = true;
            } else {
                k += 1;
            }
        }
        if names_one {
            named.push(copy_text(&entry.jump_gate_waypoint_symbol.0));
        }
        i += 1;
    }
    assert(assignments@.take(i as int) =~= assignments@);
    unique_texts(named)
}

/// The series of one agent as parallel timelines, if the agent has any
/// sample that is kept.
pub fn agent_history_of(samples: &Vec<AgentSample>, period: &ResetPeriodFilter, symbol: &String) -> (r:
    Option<DbAgentHistoryEntry>)
    ensures
        match r {
            Some(entry) => {
                &&& agent_series(samples@, symbol@, *period).len() > 0
                &&& entry.agent_symbol@ == symbol@
                &&& is_agent_history(entry, agent_series(samples@, symbol@, *period))
            },
            None => agent_series(samples@, symbol@, *period).len() == 0,
        },
{
    let mut points: Vec<AgentPoint> = Vec::new();
    let mut site: i64 = i64::MIN;
    let mut i: usize = 0;
    while i < samples.len()
        invariant
            i <= samples.len(),
            points@ == agent_points(agent_series(samples@.take(i as int), symbol@, *period)),
            site == greatest(agent_sites(agent_series(samples@.take(i as int), symbol@, *period))),
        decreases samples.len() - i,
    {
        let sample = &samples[i];
        let ghost upto = samples@.take(i + 1);
        let ghost before = agent_series(samples@.take(i as int), symbol@, *period);
        assert(upto.drop_last() =~= samples@.take(i as int));
        if same_text(&sample.agent_symbol, symbol) && keeps_sample(sample.event_time_minutes, period) {
            let ghost grown = before.push(*sample);
            points.push(
                AgentPoint {
                    event_time_minutes: sample.event_time_minutes,
                    credits: sample.credits,
                    ship_count: sample.ship_count,
                },
            );
            if sample.construction_site_id > site {
                site = sample.construction_site_id;
            }
            assert(agent_sites(grown).drop_last() =~= agent_sites(before));
        }
        i += 1;
    }
    assert(samples@.take(i as int) =~= samples@);
    if points.len() == 0 {
        return None;
    }
    let ordered = sort_by_rank(points);
    let mut times: Vec<u32> = Vec::new();
    let mut credits: Vec<i64> = Vec::new();
    let mut ships: Vec<u32> = Vec::new();
    let mut k: usize = 0;
    while k < ordered.len()
        invariant
            k <= ordered.len(),
            times@.len() == k,
            credits@.len() == k,
            ships@.len() == k,
            forall|j: int|
                0 <= j < k ==> (#[trigger] times@[j]) == ordered@[j].event_time_minutes
                    && credits@[j] == ordered@[j].credits && ships@[j] == ordered@[j].ship_count,
        decreases ordered.len() - k,
    {
        times.push(ordered[k].event_time_minutes);
        credits.push(ordered[k].credits);
        ships.push(ordered[k].ship_count);
        k += 1;
    }
    assert(agent_timeline(times@, credits@, ships@) =~= ordered@);
    Some(
        DbAgentHistoryEntry {
            agent_symbol: copy_text(symbol),
            construction_site_id: Some(site),
            event_times_minutes: Some(times),
            credits_timeline: Some(credits),
            ship_count_timeline: Some(ships),
        },
    )
}

/// The history of the agents asked for: for each of them that has a sample
/// in the window, the samples that are kept, as parallel timelines in the
/// order of event time. An agent asked for twice is answered once.
pub fn select_agent_history(
    samples: &Vec<AgentSample>,
    period: &ResetPeriodFilter,
    agent_symbols: &Vec<String>,
) -> (entries: Vec<DbAgentHistoryEntry>)
    ensures
        history_agents(entries@) == agents_with_history(
            distinct(texts(agent_symbols@)),
            samples@,
            *period,
        ),
        forall|i: int|
            0 <= i < entries@.len() ==> is_agent_history(
                #[trigger] entries@[i],
                agent_series(samples@, entries@[i].agent_symbol@, *period),
            ),
{
    let wanted = unique_texts(copy_texts(agent_symbols));
    let mut entries: Vec<DbAgentHistoryEntry> = Vec::new();
    let mut i: usize = 0;
    while i < wanted.len()
        invariant
            i <= wanted.len(),
            history_agents(entries@) == agents_with_history(
                texts(wanted@).take(i as int),
                samples@,
                *period,
            ),
            forall|j: int|
                0 <= j < entries@.len() ==> is_agent_history(
                    #[trigger] entries@[j],
                    agent_series(samples@, entries@[j].agent_symbol@, *period),
                ),
        decreases wanted.len() - i,
    {
        let ghost upto = texts(wanted@).take(i + 1);
        assert(upto.drop_last() =~= texts(wanted@).take(i as int));
        match agent_history_of(samples, period, &wanted[i]) {
            Some(entry) => {
                entries.push(entry);
            },
            None => {},
        }
        i += 1;
    }
    assert(texts(wanted@).take(i as int) =~= texts(wanted@));
    entries
}

/// The trade goods named by the samples of a site's history, sample by sample.
pub fn trades_of_site(samples: &Vec<MaterialSample>, period: &ResetPeriodFilter, gate: &String) -> (trades:
    Vec<String>)
    ensures
        texts(trades@) == site_trades(samples@, gate@, *period),
{
    let mut trades: Vec<String> = Vec::new();
    let mut i: usize = 0;
    while i < samples.len()
        invariant
            i <= samples.len(),
            texts(trades@) == site_trades(samples@.take(i as int), gate@, *period),
        decreases samples.len() - i,
    {
        let sample = &samples[i];
        let ghost upto = samples@.take(i + 1);
        assert(upto.drop_last() =~= samples@.take(i as int));
        if same_text(&sample.jump_gate_waypoint_symbol, gate) && keeps_sample(
            sample.event_time_minutes,
            period,
        ) {
            trades.push(copy_text(&sample.trade_symbol));
        }
        i += 1;
    }
    assert(samples@.take(i as int) =~= samples@);
    trades
}

/// The series of one material of one site, its timelines written as
/// comma-separated lists.
pub fn material_history_of(
    samples: &Vec<MaterialSample>,
    period: &ResetPeriodFilter,
    gate: &String,
    trade: &String,
) -> (entry: DbConstructionMaterialHistoryEntry)
    ensures
        is_material_history(
            entry,
            gate@,
            trade@,
            material_series(samples@, gate@, trade@, *period),
        ),
{
    let mut points: Vec<MaterialPoint> = Vec::new();
    let mut required: i64 = i64::MIN;
    let mut i: usize = 0;
    while i < samples.len()
        invariant
            i <= samples.len(),
            points@ == material_points(
                material_series(samples@.take(i as int), gate@, trade@, *period),
            ),
            required == greatest(
                material_required(material_series(samples@.take(i as int), gate@, trade@, *period)),
            ),
        decreases samples.len() - i,
    {
        let sample = &samples[i];
        let ghost upto = samples@.take(i + 1);
        let ghost before = material_series(samples@.take(i as int), gate@, trade@, *period);
        assert(upto.drop_last() =~= samples@.take(i as int));
        if same_text(&sample.jump_gate_waypoint_symbol, gate) && keeps_sample(
            sample.event_time_minutes,
            period,
        ) && same_text(&sample.trade_symbol, trade) {
            let ghost grown = before.push(*sample);
            points.push(
                MaterialPoint {
                    event_time_minutes: sample.event_time_minutes,
                    fulfilled: sample.fulfilled,
                },
            );
            if sample.required > required {
                required = sample.required;
            }
            assert(material_required(grown).drop_last() =~= material_required(before));
        }
        i += 1;
    }
    assert(samples@.take(i as int) =~= samples@);
    let ordered = sort_by_rank(points);
    let mut times: Vec<u32> = Vec::new();
    let mut fulfilled: Vec<u32> = Vec::new();
    let mut k: usize = 0;
    while k < ordered.len()
        invariant
            k <= ordered.len(),
            times@.len() == k,
            fulfilled@.len() == k,
            forall|j: int|
                0 <= j < k ==> (#[trigger] times@[j]) == ordered@[j].event_time_minutes
                    && fulfilled@[j] == ordered@[j].fulfilled,
        decreases ordered.len() - k,
    {
        times.push(ordered[k].event_time_minutes);
        fulfilled.push(ordered[k].fulfilled);
        k += 1;
    }
    let times_csv = write_csv(&times);
    let fulfilled_csv = write_csv(&fulfilled);
    proof {
        lemma_csv_reads_back(times@);
        lemma_csv_reads_back(fulfilled@);
        assert(material_timeline(times@, fulfilled@) =~= ordered@);
    }
    DbConstructionMaterialHistoryEntry {
        jump_gate_waypoint_symbol: copy_text(gate),
        trade_symbol: copy_text(trade),
        required: Some(required),
        event_time_minutes_csv: Some(times_csv),
        fulfilled_csv: Some(fulfilled_csv),
    }
}

/// The history of the construction sites asked for: for each site, and for
/// each of its materials that has a sample in the window, the samples that
/// are kept, in the order of event time. A site asked for twice is answered
/// once.
pub fn select_construction_progress_for_reset(
    samples: &Vec<MaterialSample>,
    period: &ResetPeriodFilter,
    jump_gate_waypoint_symbols: &Vec<String>,
) -> (entries: Vec<DbConstructionMaterialHistoryEntry>)
    ensures
        history_materials(entries@) == materials_with_history(
            distinct(texts(jump_gate_waypoint_symbols@)),
            samples@,
            *period,
        ),
        forall|i: int|
            0 <= i < entries@.len() ==> is_material_history(
                #[trigger] entries@[i],
                entries@[i].jump_gate_waypoint_symbol@,
                entries@[i].trade_symbol@,
                material_series(
                    samples@,
                    entries@[i].jump_gate_waypoint_symbol@,
                    entries@[i].trade_symbol@,
                    *period,
                ),
            ),
{
    let gates = unique_texts(copy_texts(jump_gate_waypoint_symbols));
    let mut entries: Vec<DbConstructionMaterialHistoryEntry> = Vec::new();
    let mut g: usize = 0;
    while g < gates.len()
        invariant
            g <= gates.len(),
            history_materials(entries@) == materials_with_history(
                texts(gates@).take(g as int),
                samples@,
                *period,
            ),
            forall|j: int|
                0 <= j < entries@.len() ==> is_material_history(
                    #[trigger] entries@[j],
                    entries@[j].jump_gate_waypoint_symbol@,
                    entries@[j].trade_symbol@,
                    material_series(
                        samples@,
                        entries@[j].jump_gate_waypoint_symbol@,
                        entries@[j].trade_symbol@,
                        *period,
                    ),
                ),
        decreases gates.len() - g,
    {
        let gate = &gates[g];
        let ghost upto = texts(gates@).take(g + 1);
        assert(upto.drop_last() =~= texts(gates@).take(g as int));
        let trades = unique_texts(trades_of_site(samples, period, gate));
        let ghost done = history_materials(entries@);
        let mut t: usize = 0;
        while t < trades.len()
            invariant
                t <= trades.len(),
                texts(trades@) == distinct(site_trades(samples@, gate@, *period)),
                history_materials(entries@) == done + Seq::new(
                    t as nat,
                    |k: int| MaterialKey { gate: gate@, trade: texts(trades@)[k] },
                ),
                forall|j: int|
                    0 <= j < entries@.len() ==> is_material_history(
                        #[trigger] entries@[j],
                        entries@[j].jump_gate_waypoint_symbol@,
                        entries@[j].trade_symbol@,
                        material_series(
                            samples@,
                            entries@[j].jump_gate_waypoint_symbol@,
                            entries@[j].trade_symbol@,
                            *period,
                        ),
                    ),
            decreases trades.len() - t,
        {
            let entry = material_history_of(samples, period, gate, &trades[t]);
            let ghost before = history_materials(entries@);
            entries.push(entry);
            assert(history_materials(entries@) =~= before.push(
                MaterialKey { gate: gate@, trade: trades@[t as int]@ },
            ));
            t += 1;
        }
        g += 1;
    }
    assert(texts(gates@).take(g as int) =~= texts(gates@));
    entries
}

/// Every sample of a series is a sample of the log, of the series' agent,
/// and one that is kept.
pub proof fn lemma_agent_series_members(
    samples: Seq<AgentSample>,
    symbol: Seq<char>,
    period: ResetPeriodFilter,
)
    ensures
        forall|k: int|
            0 <= k < agent_series(samples, symbol, period).len() ==> samples.contains(
                #[trigger] agent_series(samples, symbol, period)[k],
            ) && is_agent_sample_of(agent_series(samples, symbol, period)[k], symbol, period),
    decreases samples.len(),
{
    if samples.len() > 0 {
        let init = samples.drop_last();
        lemma_agent_series_members(init, symbol, period);
        let before = agent_series(init, symbol, period);
    }
}

/// An agent's history reads in the order of event time: a later position
/// of its timelines never holds an earlier event time.
pub proof fn lemma_agent_history_in_order(
    entry: DbAgentHistoryEntry,
    series: Seq<AgentSample>,
    i: int,
    j: int,
)
    requires
        is_agent_history(entry, series),
        0 <= i <= j < entry.event_times_minutes->0@.len(),
    ensures
        entry.event_times_minutes->0@[i] <= entry.event_times_minutes->0@[j],
        entry.event_times_minutes->0@.len() == series.len(),
{
    let times = entry.event_times_minutes->0@;
    let credits = entry.credits_timeline->0@;
    let ships = entry.ship_count_timeline->0@;
    let timeline = agent_timeline(times, credits, ships);
    if i < j {
        assert(timeline[i].ranks_no_later(&timeline[j]));
    }
    broadcast use vstd::seq_lib::group_to_multiset_ensures;

    assert(timeline.to_multiset().len() == agent_points(series).to_multiset().len());
}

/// Within the window, a sample on the grid is kept, and so is every sample
/// of the window's last `resolution` minutes, on the grid or off.
pub proof fn lemma_kept_samples(event_time: u32, period: ResetPeriodFilter)
    requires
        period.from_event_time_minutes <= event_time <= period.to_event_time_minutes,
    ensures
        period.resolution_minutes > 0 && event_time as int % period.resolution_minutes as int == 0
            ==> is_kept(event_time, period),
        event_time >= period.to_event_time_minutes - period.resolution_minutes ==> is_kept(
            event_time,
            period,
        ),
        period.resolution_minutes >= 0 && event_time == period.to_event_time_minutes ==> is_kept(
            event_time,
            period,
        ),
{
}

} // verus!
