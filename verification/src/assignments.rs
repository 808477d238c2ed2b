//! Which agents share a construction site.

use crate::db::{DbConstructionSite, DbJumpGateAssignmentEntry, DbStaticAgentInfo};
use crate::queries::{find_by_id, position_of_id};
use crate::ranking::{Ranked, is_ranked, sort_by_rank};
use crate::text::{
    copy_text, join, lemma_no_later_transitive, lemma_text_order_total, same_text, text_is_before,
    text_no_later, text_precedes,
};
use crate::time::CalendarDate;
use vstd::prelude::*;
use vstd::string::*;

verus! {

/// An agent with its headquarters and the jump gate of its construction site.
#[derive(Debug)]
pub struct AgentAssignment {
    pub jump_gate_waypoint_symbol: String,
    pub agent_headquarters_waypoint_symbol: String,
    pub agent_symbol: String,
}

/// Assignments are listed by jump gate, under one jump gate by
/// headquarters, and under one headquarters by agent, each in the order of
/// texts.
impl Ranked for AgentAssignment {
    open spec fn ranks_no_later(&self, other: &Self) -> bool {
        text_precedes(self.jump_gate_waypoint_symbol@, other.jump_gate_waypoint_symbol@) || (
        self.jump_gate_waypoint_symbol@ == other.jump_gate_waypoint_symbol@ && (text_precedes(
            self.agent_headquarters_waypoint_symbol@,
            other.agent_headquarters_waypoint_symbol@,
        ) || (self.agent_headquarters_waypoint_symbol@ == other.agent_headquarters_waypoint_symbol@
            && text_no_later(self.agent_symbol@, other.agent_symbol@))))
    }

    fn is_ranked_no_later(&self, other: &Self) -> (r: bool) {
        proof {
            lemma_text_order_total(
                self.jump_gate_waypoint_symbol@,
                other.jump_gate_waypoint_symbol@,
            );
            lemma_text_order_total(
                self.agent_headquarters_waypoint_symbol@,
                other.agent_headquarters_waypoint_symbol@,
            );
        }
        if text_is_before(
            self.jump_gate_waypoint_symbol.as_str(),
            other.jump_gate_waypoint_symbol.as_str(),
        ) {
            true
        } else if text_is_before(
            other.jump_gate_waypoint_symbol.as_str(),
            self.jump_gate_waypoint_symbol.as_str(),
        ) {
            false
        } else if text_is_before(
            self.agent_headquarters_waypoint_symbol.as_str(),
            other.agent_headquarters_waypoint_symbol.as_str(),
        ) {
            true
        } else if text_is_before(
            other.agent_headquarters_waypoint_symbol.as_str(),
            self.agent_headquarters_waypoint_symbol.as_str(),
        ) {
            false
        } else {
            !text_is_before(other.agent_symbol.as_str(), self.agent_symbol.as_str())
        }
    }

    proof fn lemma_total(a: &Self, b: &Self) {
        lemma_text_order_total(a.jump_gate_waypoint_symbol@, b.jump_gate_waypoint_symbol@);
        lemma_text_order_total(
            a.agent_headquarters_waypoint_symbol@,
            b.agent_headquarters_waypoint_symbol@,
        );
        lemma_text_order_total(a.agent_symbol@, b.agent_symbol@);
    }

    proof fn lemma_transitive(a: &Self, b: &Self, c: &Self) {
        lemma_no_later_transitive(
            a.jump_gate_waypoint_symbol@,
            b.jump_gate_waypoint_symbol@,
            c.jump_gate_waypoint_symbol@,
        );
        lemma_no_later_transitive(
            a.agent_headquarters_waypoint_symbol@,
            b.agent_headquarters_waypoint_symbol@,
            c.agent_headquarters_waypoint_symbol@,
        );
        lemma_no_later_transitive(a.agent_symbol@, b.agent_symbol@, c.agent_symbol@);
    }
}

/// The agents whose construction site is stored, in their order.
pub open spec fn assigned_agents(
    agents: Seq<DbStaticAgentInfo>,
    sites: Seq<DbConstructionSite>,
) -> Seq<DbStaticAgentInfo>
    decreases agents.len(),
{
    if agents.len() == 0 {
        Seq::<DbStaticAgentInfo>::empty()
    } else {
        let before = assigned_agents(agents.drop_last(), sites);
        if position_of_id(sites, agents.last().construction_site_id) is Some {
            before.push(agents.last())
        } else {
            before
        }
    }
}

/// Whether `assignment` names the agent with its headquarters and the jump
/// gate of its construction site.
pub open spec fn is_assignment_of(
    assignment: AgentAssignment,
    agent: DbStaticAgentInfo,
    sites: Seq<DbConstructionSite>,
) -> bool {
    &&& assignment.agent_symbol@ == agent.agent_symbol@
    &&& assignment.agent_headquarters_waypoint_symbol@ == agent.agent_headquarters_waypoint_symbol@
    &&& position_of_id(sites, agent.construction_site_id) matches Some(s)
        && assignment.jump_gate_waypoint_symbol@ == sites[s].jump_gate_waypoint_symbol@
}

/// Whether `assignments` name the agents whose construction site is
/// stored, agent by agent.
pub open spec fn are_assignments(
    assignments: Seq<AgentAssignment>,
    agents: Seq<DbStaticAgentInfo>,
    sites: Seq<DbConstructionSite>,
) -> bool {
    &&& assignments.len() == assigned_agents(agents, sites).len()
    &&& forall|i: int|
        0 <= i < assignments.len() ==> is_assignment_of(
            #[trigger] assignments[i],
            assigned_agents(agents, sites)[i],
            sites,
        )
}

/// The agents of an epoch, each with the jump gate of its construction site.
pub fn agent_assignments(agents: &Vec<DbStaticAgentInfo>, sites: &Vec<DbConstructionSite>) -> (assignments:
    Vec<AgentAssignment>)
    ensures
        are_assignments(assignments@, agents@, sites@),
{
    let mut assignments: Vec<AgentAssignment> = Vec::new();
    let mut i: usize = 0;
    while i < agents.len()
        invariant
            i <= agents.len(),
            are_assignments(assignments@, agents@.take(i as int), sites@),
        decreases agents.len() - i,
    {
        let agent = &agents[i];
        let ghost upto = agents@.take(i + 1);
        let ghost before = assigned_agents(agents@.take(i as int), sites@);
        assert(upto.drop_last() =~= agents@.take(i as int));
        match find_by_id(sites, agent.construction_site_id) {
            Some(s) => {
                let ghost named = assignments@;
                assignments.push(
                    AgentAssignment {
                        jump_gate_waypoint_symbol: copy_text(&sites[s].jump_gate_waypoint_symbol),
                        agent_headquarters_waypoint_symbol: copy_text(
                            &agent.agent_headquarters_waypoint_symbol,
                        ),
                        agent_symbol: copy_text(&agent.agent_symbol),
                    },
                );
                assert forall|k: int| 0 <= k < assignments@.len() implies is_assignment_of(
                    #[trigger] assignments@[k],
                    before.push(*agent)[k],
                    sites@,
                ) by {
                    if k < named.len() {
                        assert(assignments@[k] == named[k]);
                    }
                }
            },
            None => {},
        }
        i += 1;
    }
    assert(agents@.take(i as int) =~= agents@);
    assignments
}

/// The agents that share a headquarters and a jump gate.
pub struct AssignmentGroup {
    pub jump_gate: Seq<char>,
    pub headquarters: Seq<char>,
    pub agents: Seq<Seq<char>>,
}

/// Whether two assignments belong to the same group.
pub open spec fn shares_group(a: AgentAssignment, b: AgentAssignment) -> bool {
    a.jump_gate_waypoint_symbol@ == b.jump_gate_waypoint_symbol@
        && a.agent_headquarters_waypoint_symbol@ == b.agent_headquarters_waypoint_symbol@
}

/// The groups of a list of assignments: neighbours of the same
/// headquarters and jump gate form one group, in the order of the list.
pub open spec fn groups_of(assignments: Seq<AgentAssignment>) -> Seq<AssignmentGroup>
    decreases assignments.len(),
{
    if assignments.len() == 0 {
        Seq::<AssignmentGroup>::empty()
    } else {
        let before = groups_of(assignments.drop_last());
        let last = assignments.last();
        if assignments.len() >= 2 && shares_group(assignments[assignments.len() - 2], last) {
            before.drop_last().push(
                AssignmentGroup {
                    jump_gate: before.last().jump_gate,
                    headquarters: before.last().headquarters,
                    agents: before.last().agents.push(last.agent_symbol@),
                },
            )
        } else {
            before.push(
                AssignmentGroup {
                    jump_gate: last.jump_gate_waypoint_symbol@,
                    headquarters: last.agent_headquarters_waypoint_symbol@,
                    agents: seq![last.agent_symbol@],
                },
            )
        }
    }
}

/// A list of assignments that is not empty has groups; the last group is
/// that of the last assignment and names at least one agent.
pub proof fn lemma_last_group(assignments: Seq<AgentAssignment>)
    requires
        assignments.len() > 0,
    ensures
        groups_of(assignments).len() > 0,
        groups_of(assignments).last().jump_gate == assignments.last().jump_gate_waypoint_symbol@,
        groups_of(assignments).last().headquarters
            == assignments.last().agent_headquarters_waypoint_symbol@,
        groups_of(assignments).last().agents.len() > 0,
    decreases assignments.len(),
{
    if assignments.len() >= 2 {
        let init = assignments.drop_last();
        lemma_last_group(init);
    }
}

/// Whether `entry` lists a group: its headquarters, its jump gate, and its
/// agents joined by commas.
pub open spec fn is_group_entry(
    entry: DbJumpGateAssignmentEntry,
    group: AssignmentGroup,
    reset: CalendarDate,
) -> bool {
    &&& entry.reset == reset
    &&& entry.agent_headquarters_waypoint_symbol@ == group.headquarters
    &&& entry.jump_gate_waypoint_symbol@ == group.jump_gate
    &&& entry.agents_in_system_csv@ == join(group.agents, ',')
}

/// Whether `entries` list the groups one by one.
pub open spec fn are_group_entries(
    entries: Seq<DbJumpGateAssignmentEntry>,
    groups: Seq<AssignmentGroup>,
    reset: CalendarDate,
) -> bool {
    &&& entries.len() == groups.len()
    &&& forall|i: int| 0 <= i < entries.len() ==> is_group_entry(#[trigger] entries[i], groups[i], reset)
}

/// Lists the groups of a list of assignments.
pub fn group_assignments(assignments: &Vec<AgentAssignment>, reset: CalendarDate) -> (entries: Vec<
    DbJumpGateAssignmentEntry,
>)
    ensures
        are_group_entries(entries@, groups_of(assignments@), reset),
{
    let mut entries: Vec<DbJumpGateAssignmentEntry> = Vec::new();
    if assignments.len() == 0 {
        return entries;
    }
    let first = &assignments[0];
    let mut open = DbJumpGateAssignmentEntry {
        reset,
        agent_headquarters_waypoint_symbol: copy_text(&first.agent_headquarters_waypoint_symbol),
        jump_gate_waypoint_symbol: copy_text(&first.jump_gate_waypoint_symbol),
        agents_in_system_csv: copy_text(&first.agent_symbol),
    };
    let mut i: usize = 1;
    proof {
        reveal_strlit(",");
        let one = assignments@.take(1);
        assert(groups_of(one.drop_last()) =~= Seq::<AssignmentGroup>::empty());
    }
    while i < assignments.len()
        invariant
            1 <= i <= assignments.len(),
            ","@.len() == 1,
            ","@[0] == ',',
            groups_of(assignments@.take(i as int)).len() == entries@.len() + 1,
            are_group_entries(
                entries@,
                groups_of(assignments@.take(i as int)).drop_last(),
                reset,
            ),
            is_group_entry(open, groups_of(assignments@.take(i as int)).last(), reset),
        decreases assignments.len() - i,
    {
        let next = &assignments[i];
        let ghost before = assignments@.take(i as int);
        let ghost upto = assignments@.take(i + 1);
        let ghost groups = groups_of(before);
        proof {
            assert(upto.drop_last() =~= before);
            lemma_last_group(before);
        }
        if same_text(&open.jump_gate_waypoint_symbol, &next.jump_gate_waypoint_symbol) && same_text(
            &open.agent_headquarters_waypoint_symbol,
            &next.agent_headquarters_waypoint_symbol,
        ) {
            let ghost agents = groups.last().agents;
            open.agents_in_system_csv.append(",");
            open.agents_in_system_csv.append(next.agent_symbol.as_str());
            proof {
                let grown = agents.push(next.agent_symbol@);
                assert(grown.drop_last() =~= agents);
                assert(open.agents_in_system_csv@ =~= join(grown, ','));
            }
        } else {
            let closed = open;
            open = DbJumpGateAssignmentEntry {
                reset,
                agent_headquarters_waypoint_symbol: copy_text(
                    &next.agent_headquarters_waypoint_symbol,
                ),
                jump_gate_waypoint_symbol: copy_text(&next.jump_gate_waypoint_symbol),
                agents_in_system_csv: copy_text(&next.agent_symbol),
            };
            let ghost listed = entries@;
            entries.push(closed);
            assert(entries@.drop_last() =~= listed);
        }
        i += 1;
    }
    let ghost groups = groups_of(assignments@);
    let ghost listed = entries@;
    assert(assignments@.take(i as int) =~= assignments@);
    entries.push(open);
    assert forall|k: int| 0 <= k < entries@.len() implies is_group_entry(
        #[trigger] entries@[k],
        groups[k],
        reset,
    ) by {
        if k < listed.len() {
            assert(entries@[k] == listed[k]);
        }
    }
    entries
}

/// Which agents of an epoch share a construction site: for every jump gate
/// and every headquarters from which agents are assigned to it, the agents
/// in the order of their symbols. The entries come in the order of the jump
/// gates.
pub fn select_jump_gate_agent_assignment_for_reset(
    agents: &Vec<DbStaticAgentInfo>,
    sites: &Vec<DbConstructionSite>,
    reset_date: CalendarDate,
) -> (entries: Vec<DbJumpGateAssignmentEntry>)
    ensures
        exists|named: Seq<AgentAssignment>, ordered: Seq<AgentAssignment>|
            {
                &&& are_assignments(named, agents@, sites@)
                &&& ordered.to_multiset() == named.to_multiset()
                &&& is_ranked(ordered)
                &&& #[trigger] are_group_entries(entries@, groups_of(ordered), reset_date)
                &&& #[trigger] named.len() == ordered.len()
            },
{
    let named = agent_assignments(agents, sites);
    let ghost named_view = named@;
    let ordered = sort_by_rank(named);
    let entries = group_assignments(&ordered, reset_date);
    proof {
        broadcast use vstd::seq_lib::group_to_multiset_ensures;

        assert(ordered@.to_multiset().len() == named_view.to_multiset().len());
    }
    entries
}

} // verus!
