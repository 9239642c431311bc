//! What the console shows: the fleet, the groups and the throttle sets.

use crate::demo::fleet::{is_text, holds_text, lemma_filter_push, FleetNode};
use crate::demo::layout::SET_LABEL;
use crate::demo::readiness::{look_up, readiness_of, NodeReadiness};
use crate::labels::{get_label, label_of, label_texts, write_labels, Label};
use crate::sorting::{in_name_order, sort_by_name, Named};
use crate::text::{
    copied_text, decimal, decimal_digits, ends_with, has_prefix, has_suffix, join, joined, pieces,
    same, split_at_char, starts_with, view_of, views,
};
use vstd::prelude::*;

verus! {

// ----- the fleet -----

/// The last report of an agent.
pub struct AgentStatus {
    pub selected_group: Option<String>,
    pub reported_version: Option<String>,
    pub reported_ready: Option<bool>,
}

/// An agent resource.
pub struct AgentRecord {
    pub resource: String,
    pub labels: Vec<Label>,
    pub status: Option<AgentStatus>,
}

/// The node that an agent runs on, if it is labelled.
pub open spec fn agent_node(agent: AgentRecord) -> Option<String> {
    label_of(agent.labels@, "demo.updated.dev/node"@)
}

/// The agents that name their node, in order.
pub open spec fn agents_on_nodes(agents: Seq<AgentRecord>) -> Seq<AgentRecord> {
    agents.filter(|agent: AgentRecord| agent_node(agent) is Some)
}

/// The group that an agent was given.
pub open spec fn agent_group(agent: AgentRecord) -> Option<String> {
    match agent.status {
        Some(status) => status.selected_group,
        None => None,
    }
}

/// Why a node reads as out of the load balancer.
pub open spec fn absence_note(in_load_balancer: bool, stale: bool) -> Option<Seq<char>> {
    if in_load_balancer {
        None
    } else if stale {
        Some("readiness unknown (watch stalled) — failing closed"@)
    } else {
        Some("readiness withdrawn (watch)"@)
    }
}

/// Whether a fleet node is what an agent and the readiness watch say of it. A node that the watch
/// has not seen is out of the load balancer, and so is every node while the watch is stale.
pub open spec fn shows(
    node: FleetNode,
    agent: AgentRecord,
    readiness: Seq<NodeReadiness>,
    stale: bool,
) -> bool {
    &&& Some(node.node) == agent_node(agent)
    &&& node.resource == agent.resource
    &&& node.kind == label_of(agent.labels@, "demo.updated.dev/kind"@)
    &&& node.selected_group == agent_group(agent)
    &&& node.version == (match agent.status {
        Some(status) => status.reported_version,
        None => None,
    })
    &&& node.healthy == (agent.status is Some && agent.status->Some_0.reported_ready == Some(true))
    &&& node.in_load_balancer == (!stale && readiness_of(readiness, node.node@) == Some(true))
    &&& node.readyz_probe_millis == 0
    &&& view_of(node.probe_note) == absence_note(node.in_load_balancer, stale)
}

/// Whether each fleet node shows the agent at its place.
pub open spec fn shows_all(
    nodes: Seq<FleetNode>,
    agents: Seq<AgentRecord>,
    readiness: Seq<NodeReadiness>,
    stale: bool,
) -> bool {
    &&& nodes.len() == agents.len()
    &&& forall|i: int|
        0 <= i < nodes.len() ==> shows(#[trigger] nodes[i], agents[i], readiness, stale)
}

fn show(agent: &AgentRecord, node: String, readiness: &Vec<NodeReadiness>, stale: bool) -> (result:
    FleetNode)
    requires
        Some(node) == agent_node(*agent),
    ensures
        shows(result, *agent, readiness@, stale),
{
    let kind = get_label(&agent.labels, "demo.updated.dev/kind");
    let (selected_group, version, healthy) = match &agent.status {
        Some(status) => (
            copied_text(&status.selected_group),
            copied_text(&status.reported_version),
            match status.reported_ready {
                Some(ready) => ready,
                None => false,
            },
        ),
        None => (None, None, false),
    };
    let ready = match look_up(readiness, node.as_str()) {
        Some(ready) => ready,
        None => false,
    };
    let in_load_balancer = !stale && ready;
    let probe_note = if in_load_balancer {
        None
    } else if stale {
        Some("readiness unknown (watch stalled) — failing closed".to_owned())
    } else {
        Some("readiness withdrawn (watch)".to_owned())
    };
    FleetNode {
        node,
        resource: agent.resource.clone(),
        selected_group,
        version,
        kind,
        healthy,
        in_load_balancer,
        readyz_probe_millis: 0,
        probe_note,
    }
}

impl Named for FleetNode {
    open spec fn name_view(&self) -> Seq<char> {
        self.node@
    }

    fn name_text(&self) -> (result: &str) {
        self.node.as_str()
    }
}

/// The fleet in the order of its nodes' names: every agent that names its node.
pub fn fleet(agents: &Vec<AgentRecord>, readiness: &Vec<NodeReadiness>, stale: bool) -> (result:
    Vec<FleetNode>)
    ensures
        exists|nodes: Seq<FleetNode>| #[trigger]
            shows_all(nodes, agents_on_nodes(agents@), readiness@, stale) && result@
                == in_name_order(nodes),
{
    let mut nodes: Vec<FleetNode> = Vec::new();
    let mut index: usize = 0;
    proof {
        reveal(Seq::filter);
        assert(agents@.take(0) =~= Seq::<AgentRecord>::empty());
    }
    while index < agents.len()
        invariant
            index <= agents.len(),
            shows_all(nodes@, agents_on_nodes(agents@.take(index as int)), readiness@, stale),
        decreases agents.len() - index,
    {
        proof {
            assert(agents@.take(index + 1) =~= agents@.take(index as int).push(
                agents@[index as int],
            ));
            lemma_filter_push(
                agents@.take(index as int),
                agents@[index as int],
                |agent: AgentRecord| agent_node(agent) is Some,
            );
        }
        match get_label(&agents[index].labels, "demo.updated.dev/node") {
            Some(node) => {
                nodes.push(show(&agents[index], node, readiness, stale));
            },
            None => {},
        }
        index = index + 1;
    }
    assert(agents@.take(agents.len() as int) =~= agents@);
    assert(shows_all(nodes@, agents_on_nodes(agents@), readiness@, stale));
    sort_by_name(nodes)
}

// ----- the fleet without flicker -----

/// How long a node's readiness must fail before the console shows it as out.
pub const READYZ_DEBOUNCE_NANOS: u64 = 2_000_000_000;

/// Since when a node's readiness has failed.
pub struct FailingSince {
    pub node: String,
    pub since: u64,
}

/// Since when a node's readiness has failed, if it fails.
pub open spec fn since_of(failing: Seq<FailingSince>, node: Seq<char>) -> Option<u64>
    decreases failing.len(),
{
    if failing.len() == 0 {
        None
    } else if failing.last().node@ == node {
        Some(failing.last().since)
    } else {
        since_of(failing.drop_last(), node)
    }
}

fn find_since(failing: &Vec<FailingSince>, node: &str) -> (result: Option<u64>)
    ensures
        result == since_of(failing@, node@),
{
    let mut index: usize = failing.len();
    assert(failing@.take(failing@.len() as int) =~= failing@);
    while index > 0
        invariant
            index <= failing.len(),
            since_of(failing@.take(index as int), node@) == since_of(failing@, node@),
        decreases index,
    {
        let ghost first = failing@.take(index as int);
        assert(first.last() == failing@[index - 1]);
        assert(first.drop_last() =~= failing@.take(index - 1));
        if same(failing[index - 1].node.as_str(), node) {
            return Some(failing[index - 1].since);
        }
        index = index - 1;
    }
    None
}

/// The first `count` nodes decide since when each node fails: one that is in the load balancer does
/// not, and one that is out does since it was first seen so, at `now` at the latest.
pub open spec fn failing_after(
    failing: Seq<FailingSince>,
    nodes: Seq<FleetNode>,
    now: u64,
    count: int,
    node: Seq<char>,
) -> Option<u64>
    decreases count,
{
    if count <= 0 {
        since_of(failing, node)
    } else {
        let before = failing_after(failing, nodes, now, count - 1, node);
        if nodes[count - 1].node@ != node {
            before
        } else if nodes[count - 1].in_load_balancer {
            None
        } else if before is Some {
            before
        } else {
            Some(now)
        }
    }
}

/// Nanoseconds from `since` to `now`; none where `now` is earlier.
pub open spec fn elapsed(since: u64, now: u64) -> u64 {
    if now >= since {
        (now - since) as u64
    } else {
        0
    }
}

/// The note of a node that the console still shows as in.
pub open spec fn debounce_note(note: Option<Seq<char>>, waited: u64) -> Seq<char> {
    let debounced = "readyz failing "@ + decimal_digits((waited / 1_000_000) as nat)
        + "ms (debounced, still IN)"@;
    match note {
        Some(existing) => existing + "; "@ + debounced,
        None => debounced,
    }
}

/// Whether a shown node is the raw one, or the raw one kept in the load balancer because it has
/// not failed for long.
pub open spec fn is_debounced(shown: FleetNode, raw: FleetNode, since: Option<u64>, now: u64) -> bool {
    if raw.in_load_balancer || since is None || elapsed(since->Some_0, now)
        >= READYZ_DEBOUNCE_NANOS {
        shown == raw
    } else {
        &&& shown.in_load_balancer
        &&& view_of(shown.probe_note) == Some(
            debounce_note(view_of(raw.probe_note), elapsed(since->Some_0, now)),
        )
        &&& shown == (FleetNode {
            in_load_balancer: shown.in_load_balancer,
            probe_note: shown.probe_note,
            ..raw
        })
    }
}

/// Whether one of some nodes has this name.
pub open spec fn is_present(nodes: Seq<FleetNode>, node: Seq<char>) -> bool {
    exists|i: int| 0 <= i < nodes.len() && (#[trigger] nodes[i]).node@ == node
}

fn has_node(nodes: &Vec<FleetNode>, node: &str) -> (result: bool)
    ensures
        result == is_present(nodes@, node@),
{
    let mut index: usize = 0;
    while index < nodes.len()
        invariant
            index <= nodes.len(),
            forall|i: int| 0 <= i < index ==> (#[trigger] nodes@[i]).node@ != node@,
        decreases nodes.len() - index,
    {
        if same(nodes[index].node.as_str(), node) {
            assert(nodes@[index as int].node@ == node@);
            return true;
        }
        index = index + 1;
    }
    false
}

fn copy_node(node: &FleetNode) -> (result: FleetNode)
    ensures
        result == *node,
{
    FleetNode {
        node: node.node.clone(),
        resource: node.resource.clone(),
        selected_group: copied_text(&node.selected_group),
        version: copied_text(&node.version),
        kind: copied_text(&node.kind),
        healthy: node.healthy,
        in_load_balancer: node.in_load_balancer,
        readyz_probe_millis: node.readyz_probe_millis,
        probe_note: copied_text(&node.probe_note),
    }
}

proof fn lemma_since_push(failing: Seq<FailingSince>, item: FailingSince, node: Seq<char>)
    ensures
        since_of(failing.push(item), node) == (if item.node@ == node {
            Some(item.since)
        } else {
            since_of(failing, node)
        }),
{
    assert(failing.push(item).drop_last() =~= failing);
}

fn forget(failing: &Vec<FailingSince>, node: &str) -> (result: Vec<FailingSince>)
    ensures
        forall|other: Seq<char>| #[trigger]
            since_of(result@, other) == (if other == node@ {
                None
            } else {
                since_of(failing@, other)
            }),
{
    let mut result: Vec<FailingSince> = Vec::new();
    let mut index: usize = 0;
    while index < failing.len()
        invariant
            index <= failing.len(),
            forall|other: Seq<char>| #[trigger]
                since_of(result@, other) == (if other == node@ {
                    None
                } else {
                    since_of(failing@.take(index as int), other)
                }),
        decreases failing.len() - index,
    {
        let ghost before = result@;
        let ghost first = failing@.take(index + 1);
        proof {
            assert(first.drop_last() =~= failing@.take(index as int));
            assert(first.last() == failing@[index as int]);
        }
        let entry = &failing[index];
        if !same(entry.node.as_str(), node) {
            result.push(FailingSince { node: entry.node.clone(), since: entry.since });
        }
        assert forall|other: Seq<char>| #[trigger] since_of(result@, other) == (if other == node@ {
            None
        } else {
            since_of(first, other)
        }) by {
            assert(since_of(before, other) == (if other == node@ {
                None
            } else {
                since_of(failing@.take(index as int), other)
            }));
            if failing@[index as int].node@ != node@ {
                lemma_since_push(before, result@.last(), other);
                assert(before.push(result@.last()) =~= result@);
            }
        }
        index = index + 1;
    }
    assert(failing@.take(failing.len() as int) =~= failing@);
    result
}

fn keep_present(failing: &Vec<FailingSince>, nodes: &Vec<FleetNode>) -> (result: Vec<FailingSince>)
    ensures
        forall|other: Seq<char>| #[trigger]
            since_of(result@, other) == (if is_present(nodes@, other) {
                since_of(failing@, other)
            } else {
                None
            }),
{
    let mut result: Vec<FailingSince> = Vec::new();
    let mut index: usize = 0;
    while index < failing.len()
        invariant
            index <= failing.len(),
            forall|other: Seq<char>| #[trigger]
                since_of(result@, other) == (if is_present(nodes@, other) {
                    since_of(failing@.take(index as int), other)
                } else {
                    None
                }),
        decreases failing.len() - index,
    {
        let ghost before = result@;
        let ghost first = failing@.take(index + 1);
        proof {
            assert(first.drop_last() =~= failing@.take(index as int));
            assert(first.last() == failing@[index as int]);
        }
        let entry = &failing[index];
        if has_node(nodes, entry.node.as_str()) {
            result.push(FailingSince { node: entry.node.clone(), since: entry.since });
        }
        assert forall|other: Seq<char>| #[trigger]
            since_of(result@, other) == (if is_present(nodes@, other) {
                since_of(first, other)
            } else {
                None
            }) by {
            assert(since_of(before, other) == (if is_present(nodes@, other) {
                since_of(failing@.take(index as int), other)
            } else {
                None
            }));
            if is_present(nodes@, failing@[index as int].node@) {
                lemma_since_push(before, result@.last(), other);
                assert(before.push(result@.last()) =~= result@);
            }
        }
        index = index + 1;
    }
    assert(failing@.take(failing.len() as int) =~= failing@);
    result
}

/// The fleet as the console shows it: a node stays in the load balancer until its readiness has
/// failed for the whole debounce interval. What is remembered of nodes that are gone is dropped.
pub fn fleet_for_ui(nodes: &Vec<FleetNode>, failing: &mut Vec<FailingSince>, now: u64) -> (result:
    Vec<FleetNode>)
    ensures
        result@.len() == nodes@.len(),
        forall|i: int|
            0 <= i < nodes@.len() ==> is_debounced(
                #[trigger] result@[i],
                nodes@[i],
                failing_after(old(failing)@, nodes@, now, i + 1, nodes@[i].node@),
                now,
            ),
        forall|node: Seq<char>| #[trigger]
            since_of(final(failing)@, node) == (if is_present(nodes@, node) {
                failing_after(old(failing)@, nodes@, now, nodes@.len() as int, node)
            } else {
                None
            }),
{
    let ghost before = failing@;
    let mut result: Vec<FleetNode> = Vec::new();
    let mut index: usize = 0;
    while index < nodes.len()
        invariant
            index <= nodes.len(),
            result@.len() == index,
            forall|i: int|
                0 <= i < index ==> is_debounced(
                    #[trigger] result@[i],
                    nodes@[i],
                    failing_after(before, nodes@, now, i + 1, nodes@[i].node@),
                    now,
                ),
            forall|node: Seq<char>| #[trigger]
                since_of(failing@, node) == failing_after(before, nodes@, now, index as int, node),
        decreases nodes.len() - index,
    {
        let ghost earlier = failing@;
        let raw = &nodes[index];
        let mut shown = copy_node(raw);
        if raw.in_load_balancer {
            *failing = forget(failing, raw.node.as_str());
            assert forall|node: Seq<char>| #[trigger]
                since_of(failing@, node) == failing_after(
                    before,
                    nodes@,
                    now,
                    index + 1,
                    node,
                ) by {
                assert(since_of(earlier, node) == failing_after(
                    before,
                    nodes@,
                    now,
                    index as int,
                    node,
                ));
            }
        } else {
            let since: u64 = match find_since(failing, raw.node.as_str()) {
                Some(since) => since,
                None => {
                    failing.push(FailingSince { node: raw.node.clone(), since: now });
                    now
                },
            };
            assert forall|node: Seq<char>| #[trigger]
                since_of(failing@, node) == failing_after(
                    before,
                    nodes@,
                    now,
                    index + 1,
                    node,
                ) by {
                assert(since_of(earlier, node) == failing_after(
                    before,
                    nodes@,
                    now,
                    index as int,
                    node,
                ));
                assert(since_of(earlier, raw.node@) == failing_after(
                    before,
                    nodes@,
                    now,
                    index as int,
                    raw.node@,
                ));
                if since_of(earlier, raw.node@) is None {
                    lemma_since_push(earlier, failing@.last(), node);
                    assert(earlier.push(failing@.last()) =~= failing@);
                }
            }
            assert(since_of(earlier, raw.node@) == failing_after(
                before,
                nodes@,
                now,
                index as int,
                raw.node@,
            ));
            assert(Some(since) == failing_after(before, nodes@, now, index + 1, raw.node@));
            let waited: u64 = if now >= since {
                now - since
            } else {
                0
            };
            if waited < READYZ_DEBOUNCE_NANOS {
                let mut debounced = String::from_str("readyz failing ");
                debounced.append(decimal(waited / 1_000_000).as_str());
                debounced.append("ms (debounced, still IN)");
                let note = match &raw.probe_note {
                    Some(existing) => {
                        let mut note = existing.clone();
                        note.append("; ");
                        note.append(debounced.as_str());
                        note
                    },
                    None => debounced,
                };
                shown.in_load_balancer = true;
                shown.probe_note = Some(note);
            }
        }
        result.push(shown);
        index = index + 1;
    }
    *failing = keep_present(failing, nodes);
    assert forall|node: Seq<char>| #[trigger]
        since_of(failing@, node) == (if is_present(nodes@, node) {
            failing_after(before, nodes@, now, nodes@.len() as int, node)
        } else {
            None
        }) by {}
    result
}

/// A node that has been seen out of the load balancer for less than the debounce interval is shown
/// as in, and one that has been out for the interval is shown as out: smoothing hides no
/// departure for longer than that.
pub proof fn smoothing_is_bounded(shown: FleetNode, raw: FleetNode, since: u64, now: u64)
    requires
        !raw.in_load_balancer,
        is_debounced(shown, raw, Some(since), now),
    ensures
        shown.in_load_balancer <==> elapsed(since, now) < READYZ_DEBOUNCE_NANOS,
{
}

// ----- groups -----

/// A rollout group.
pub struct GroupRecord {
    pub name: String,
    pub labels: Vec<Label>,
    pub match_labels: Vec<Label>,
    /// Where the group's application lies in the repository.
    pub application_path: String,
}

/// A rollout group as the console shows it.
pub struct GroupView {
    pub name: String,
    pub set: String,
    pub selector: String,
    pub desired_version: String,
    pub selected_nodes: Vec<String>,
}

impl Named for GroupView {
    open spec fn name_view(&self) -> Seq<char> {
        self.name@
    }

    fn name_text(&self) -> (result: &str) {
        self.name.as_str()
    }
}

impl Named for String {
    open spec fn name_view(&self) -> Seq<char> {
        self@
    }

    fn name_text(&self) -> (result: &str) {
        self.as_str()
    }
}

/// The nodes whose agents were given a group, in order.
pub open spec fn members_of(agents: Seq<AgentRecord>, group: Seq<char>) -> Seq<String>
    decreases agents.len(),
{
    if agents.len() == 0 {
        Seq::empty()
    } else {
        let agent = agents.last();
        let before = members_of(agents.drop_last(), group);
        if agent_node(agent) is Some && is_text(agent_group(agent), group) {
            before.push(agent_node(agent)->Some_0)
        } else {
            before
        }
    }
}

fn list_members(agents: &Vec<AgentRecord>, group: &str) -> (result: Vec<String>)
    ensures
        result@ == members_of(agents@, group@),
{
    let mut result: Vec<String> = Vec::new();
    let mut index: usize = 0;
    while index < agents.len()
        invariant
            index <= agents.len(),
            result@ == members_of(agents@.take(index as int), group@),
        decreases agents.len() - index,
    {
        assert(agents@.take(index + 1).drop_last() =~= agents@.take(index as int));
        match get_label(&agents[index].labels, "demo.updated.dev/node") {
            Some(node) => {
                let selected = match &agents[index].status {
                    Some(status) => holds_text(&status.selected_group, group),
                    None => false,
                };
                if selected {
                    result.push(node);
                }
            },
            None => {},
        }
        index = index + 1;
    }
    assert(agents@.take(agents.len() as int) =~= agents@);
    result
}

/// The first of some texts that ends with `suffix`.
pub open spec fn first_ending(items: Seq<Seq<char>>, suffix: Seq<char>) -> Option<Seq<char>>
    decreases items.len(),
{
    if items.len() == 0 {
        None
    } else if has_suffix(items[0], suffix) {
        Some(items[0])
    } else {
        first_ending(items.skip(1), suffix)
    }
}

/// The version that an application path names: its first segment that reads as a major release.
pub open spec fn path_version(path: Seq<char>) -> Seq<char> {
    match first_ending(pieces(path, '/'), ".0.0"@) {
        Some(segment) => segment,
        None => "unknown"@,
    }
}

fn version_in_path(path: &str) -> (result: String)
    ensures
        result@ == path_version(path@),
{
    let segments = split_at_char(path, '/');
    let ghost all = views(segments@);
    let mut index: usize = 0;
    assert(all.skip(0) =~= all);
    while index < segments.len()
        invariant
            index <= segments.len(),
            all == views(segments@),
            all == pieces(path@, '/'),
            first_ending(all, ".0.0"@) == first_ending(all.skip(index as int), ".0.0"@),
        decreases segments.len() - index,
    {
        assert(all.skip(index as int).skip(1) =~= all.skip(index + 1));
        assert(all.skip(index as int)[0] == segments@[index as int]@);
        if ends_with(segments[index].as_str(), ".0.0") {
            return segments[index].clone();
        }
        index = index + 1;
    }
    "unknown".to_owned()
}

/// Whether a view is what a group and the agents say of it.
pub open spec fn shows_group(view: GroupView, group: GroupRecord, agents: Seq<AgentRecord>) -> bool {
    &&& view.name == group.name
    &&& view.set@ == (match label_of(group.labels@, SET_LABEL@) {
        Some(set) => set@,
        None => Seq::empty(),
    })
    &&& view.selector@ == joined(label_texts(group.match_labels@), ", "@)
    &&& view.desired_version@ == path_version(group.application_path@)
    &&& view.selected_nodes@ == in_name_order(members_of(agents, group.name@))
}

/// The groups that are not there to overlap others, in order.
pub open spec fn shown_groups(groups: Seq<GroupRecord>) -> Seq<GroupRecord> {
    groups.filter(|group: GroupRecord| !has_prefix(group.name@, "overlapping-"@))
}

/// Whether each view shows the group at its place.
pub open spec fn shows_groups(
    shown: Seq<GroupView>,
    groups: Seq<GroupRecord>,
    agents: Seq<AgentRecord>,
) -> bool {
    &&& shown.len() == groups.len()
    &&& forall|i: int| 0 <= i < shown.len() ==> shows_group(#[trigger] shown[i], groups[i], agents)
}

/// The groups in the order of their names, each with the nodes that were given it.
pub fn groups(records: &Vec<GroupRecord>, agents: &Vec<AgentRecord>) -> (result: Vec<GroupView>)
    ensures
        exists|shown: Seq<GroupView>| #[trigger]
            shows_groups(shown, shown_groups(records@), agents@) && result@ == in_name_order(shown),
{
    let mut shown: Vec<GroupView> = Vec::new();
    let mut index: usize = 0;
    proof {
        reveal(Seq::filter);
        assert(records@.take(0) =~= Seq::<GroupRecord>::empty());
    }
    while index < records.len()
        invariant
            index <= records.len(),
            shows_groups(shown@, shown_groups(records@.take(index as int)), agents@),
        decreases records.len() - index,
    {
        proof {
            assert(records@.take(index + 1) =~= records@.take(index as int).push(
                records@[index as int],
            ));
            lemma_filter_push(
                records@.take(index as int),
                records@[index as int],
                |group: GroupRecord| !has_prefix(group.name@, "overlapping-"@),
            );
        }
        let group = &records[index];
        if !starts_with(group.name.as_str(), "overlapping-") {
            let set = match get_label(&group.labels, SET_LABEL) {
                Some(set) => set,
                None => String::new(),
            };
            let selector = join(&write_labels(&group.match_labels), ", ");
            let selected_nodes = sort_by_name(list_members(agents, group.name.as_str()));
            shown.push(
                GroupView {
                    name: group.name.clone(),
                    set,
                    selector,
                    desired_version: version_in_path(group.application_path.as_str()),
                    selected_nodes,
                },
            );
        }
        index = index + 1;
    }
    assert(records@.take(records.len() as int) =~= records@);
    assert(shows_groups(shown@, shown_groups(records@), agents@));
    sort_by_name(shown)
}

// ----- throttle sets -----

/// A window of a rollout calendar.
pub struct CalendarEntry {
    pub date: String,
    pub start: String,
    pub end: String,
}

/// What the operator reports of a throttle set.
#[derive(Clone, Copy)]
pub struct SetStatus {
    pub frozen: Option<bool>,
    pub member_count: Option<u32>,
    pub rolling_count: Option<u32>,
}

/// A throttle set.
pub struct SetRecord {
    pub name: String,
    pub calendar: Vec<CalendarEntry>,
    pub status: Option<SetStatus>,
}

/// A throttle set as the console shows it.
pub struct SetCalendarView {
    pub name: String,
    pub calendar: Vec<CalendarEntry>,
    pub frozen: Option<bool>,
    pub member_count: Option<u32>,
    pub rolling_count: Option<u32>,
}

impl Named for SetCalendarView {
    open spec fn name_view(&self) -> Seq<char> {
        self.name@
    }

    fn name_text(&self) -> (result: &str) {
        self.name.as_str()
    }
}

fn copy_calendar(calendar: &Vec<CalendarEntry>) -> (result: Vec<CalendarEntry>)
    ensures
        result@ == calendar@,
{
    let mut result: Vec<CalendarEntry> = Vec::new();
    let mut index: usize = 0;
    while index < calendar.len()
        invariant
            index <= calendar.len(),
            result@ == calendar@.take(index as int),
        decreases calendar.len() - index,
    {
        let entry = &calendar[index];
        result.push(
            CalendarEntry {
                date: entry.date.clone(),
                start: entry.start.clone(),
                end: entry.end.clone(),
            },
        );
        index = index + 1;
    }
    result
}

/// Whether a view is what a throttle set says of itself.
pub open spec fn shows_set(view: SetCalendarView, set: SetRecord) -> bool {
    &&& view.name == set.name
    &&& view.calendar@ == set.calendar@
    &&& view.frozen == (match set.status {
        Some(status) => status.frozen,
        None => None,
    })
    &&& view.member_count == (match set.status {
        Some(status) => status.member_count,
        None => None,
    })
    &&& view.rolling_count == (match set.status {
        Some(status) => status.rolling_count,
        None => None,
    })
}

/// Whether each view shows the throttle set at its place.
pub open spec fn shows_sets(shown: Seq<SetCalendarView>, sets: Seq<SetRecord>) -> bool {
    &&& shown.len() == sets.len()
    &&& forall|i: int| 0 <= i < shown.len() ==> shows_set(#[trigger] shown[i], sets[i])
}

/// The throttle sets in the order of their names.
pub fn sets(records: &Vec<SetRecord>) -> (result: Vec<SetCalendarView>)
    ensures
        exists|shown: Seq<SetCalendarView>| #[trigger]
            shows_sets(shown, records@) && result@ == in_name_order(shown),
{
    let mut shown: Vec<SetCalendarView> = Vec::new();
    let mut index: usize = 0;
    while index < records.len()
        invariant
            index <= records.len(),
            shows_sets(shown@, records@.take(index as int)),
        decreases records.len() - index,
    {
        let set = &records[index];
        let (frozen, member_count, rolling_count) = match set.status {
            Some(status) => (status.frozen, status.member_count, status.rolling_count),
            None => (None, None, None),
        };
        shown.push(
            SetCalendarView {
                name: set.name.clone(),
                calendar: copy_calendar(&set.calendar),
                frozen,
                member_count,
                rolling_count,
            },
        );
        index = index + 1;
    }
    assert(records@.take(records.len() as int) =~= records@);
    assert(shows_sets(shown@, records@));
    sort_by_name(shown)
}

/// Whether a listing of the sets shows one that is frozen; a listing that failed shows none.
pub open spec fn shows_frozen(listing: Option<Vec<SetCalendarView>>) -> bool {
    listing is Some && exists|i: int|
        0 <= i < listing->Some_0@.len() && (#[trigger] listing->Some_0@[i]).frozen == Some(true)
}

/// Whether a listing of the sets shows one that is frozen; a listing that failed shows none.
pub fn any_set_frozen(listing: &Option<Vec<SetCalendarView>>) -> (result: bool)
    ensures
        result == shows_frozen(*listing),
{
    match listing {
        Some(shown) => {
            let mut index: usize = 0;
            while index < shown.len()
                invariant
                    index <= shown.len(),
                    *listing == Some(*shown),
                    forall|i: int| 0 <= i < index ==> (#[trigger] shown@[i]).frozen != Some(true),
                decreases shown.len() - index,
            {
                match shown[index].frozen {
                    Some(frozen) => {
                        if frozen {
                            assert(listing->Some_0@[index as int].frozen == Some(true));
                            return true;
                        }
                    },
                    None => {},
                }
                index = index + 1;
            }
            false
        },
        None => false,
    }
}

/// Whether a calendar has a window on `date`.
pub open spec fn has_date(calendar: Seq<CalendarEntry>, date: Seq<char>) -> bool {
    exists|i: int| 0 <= i < calendar.len() && (#[trigger] calendar[i]).date@ == date
}

/// Whether an entry is the whole day of `date`.
pub open spec fn is_whole_day(entry: CalendarEntry, date: Seq<char>) -> bool {
    entry.date@ == date && entry.start@ == "00:00"@ && entry.end@ == "24:00"@
}

/// The window of the whole day of `date`.
pub fn whole_day(date: &str) -> (result: CalendarEntry)
    ensures
        is_whole_day(result, date@),
{
    CalendarEntry {
        date: date.to_owned(),
        start: "00:00".to_owned(),
        end: "24:00".to_owned(),
    }
}

/// Whether `once` is `calendar` with the whole day of `date`; as it was, if it already has a window on
/// that date.
pub open spec fn with_date(
    calendar: Seq<CalendarEntry>,
    date: Seq<char>,
    once: Seq<CalendarEntry>,
) -> bool {
    if has_date(calendar, date) {
        once == calendar
    } else {
        &&& once.len() == calendar.len() + 1
        &&& once.drop_last() == calendar
        &&& is_whole_day(once.last(), date)
    }
}

/// A calendar with the whole day of `date`, where the operator accepts that window. One that it
/// rejects is never written: its verdict is the error.
pub fn add_calendar_date(
    calendar: &Vec<CalendarEntry>,
    date: &str,
    verdict: Result<(), String>,
) -> (result: Result<Vec<CalendarEntry>, String>)
    ensures
        match result {
            Ok(once) => verdict is Ok && with_date(calendar@, date@, once@),
            Err(message) => verdict is Err && verdict->Err_0@ == message@,
        },
{
    match verdict {
        Ok(_) => {},
        Err(message) => return Err(message),
    }
    let mut once = copy_calendar(calendar);
    let mut index: usize = 0;
    while index < calendar.len()
        invariant
            index <= calendar.len(),
            verdict is Ok,
            once@ == calendar@,
            forall|i: int| 0 <= i < index ==> (#[trigger] calendar@[i]).date@ != date@,
        decreases calendar.len() - index,
    {
        if same(calendar[index].date.as_str(), date) {
            assert(calendar@[index as int].date@ == date@);
            return Ok(once);
        }
        index = index + 1;
    }
    once.push(whole_day(date));
    assert(once@.drop_last() =~= calendar@);
    Ok(once)
}

/// The event that says a date was added to a set's calendar.
pub fn calendar_added_event(date: &str, set: &str) -> (result: String)
    ensures
        result@ == "rollout calendar: added "@ + date@ + " (00:00–24:00 UTC) to set "@ + set@,
{
    let mut event = String::from_str("rollout calendar: added ");
    event.append(date);
    event.append(" (00:00–24:00 UTC) to set ");
    event.append(set);
    event
}

/// The event that says a set's calendar was cleared.
pub fn calendar_cleared_event(set: &str) -> (result: String)
    ensures
        result@ == "rollout calendar: cleared set "@ + set@,
{
    let mut event = String::from_str("rollout calendar: cleared set ");
    event.append(set);
    event
}

/// Adding a date twice is adding it once.
pub proof fn adding_a_date_is_idempotent(
    calendar: Seq<CalendarEntry>,
    once: Seq<CalendarEntry>,
    twice: Seq<CalendarEntry>,
    date: Seq<char>,
)
    requires
        with_date(calendar, date, once),
        with_date(once, date, twice),
    ensures
        has_date(once, date),
        twice == once,
{
    if !has_date(calendar, date) {
        assert(once[once.len() - 1].date@ == date);
    }
}

/// A calendar never comes to hold a window that the operator rejects: where it accepts all that the
/// calendar holds, and the whole day that is added, it accepts all that is written.
pub proof fn only_accepted_windows_are_written(
    calendar: Seq<CalendarEntry>,
    once: Seq<CalendarEntry>,
    date: Seq<char>,
    accepts: spec_fn(CalendarEntry) -> bool,
)
    requires
        with_date(calendar, date, once),
        forall|i: int| 0 <= i < calendar.len() ==> #[trigger] accepts(calendar[i]),
        forall|entry: CalendarEntry| is_whole_day(entry, date) ==> #[trigger] accepts(entry),
    ensures
        forall|i: int| 0 <= i < once.len() ==> #[trigger] accepts(once[i]),
{
    assert forall|i: int| 0 <= i < once.len() implies #[trigger] accepts(once[i]) by {
        if has_date(calendar, date) {
            assert(accepts(calendar[i]));
        } else if i < calendar.len() {
            assert(once.drop_last()[i] == once[i]);
            assert(accepts(calendar[i]));
        }
    }
}

// ----- what the console shows -----

/// A node is shown as healthy where its agent reports that it is ready, and as in the load balancer
/// where a watch that is not stale saw it ready last; a note says why it is out.
pub proof fn nodes_are_shown_as_they_report(
    node: FleetNode,
    agent: AgentRecord,
    readiness: Seq<NodeReadiness>,
    stale: bool,
)
    requires
        shows(node, agent, readiness, stale),
    ensures
        label_of(agent.labels@, "demo.updated.dev/node"@) == Some(node.node),
        node.healthy <==> agent.status is Some && agent.status->0.reported_ready == Some(true),
        node.in_load_balancer <==> !stale && readiness_of(readiness, node.node@) == Some(true),
        agent.status is Some ==> node.version == agent.status->0.reported_version
            && node.selected_group == agent.status->0.selected_group,
        agent.status is None ==> node.version is None && node.selected_group is None,
        node.resource == agent.resource,
        node.kind == label_of(agent.labels@, "demo.updated.dev/kind"@),
        node.readyz_probe_millis == 0,
        node.in_load_balancer ==> node.probe_note is None,
        stale ==> view_of(node.probe_note) == Some(
            "readiness unknown (watch stalled) — failing closed"@,
        ),
        !stale && !node.in_load_balancer ==> view_of(node.probe_note) == Some(
            "readiness withdrawn (watch)"@,
        ),
{
}

proof fn lemma_failing_elsewhere(
    failing: Seq<FailingSince>,
    nodes: Seq<FleetNode>,
    now: u64,
    from: int,
    count: int,
    node: Seq<char>,
)
    requires
        0 <= from <= count <= nodes.len(),
        forall|i: int| from <= i < count ==> (#[trigger] nodes[i]).node@ != node,
    ensures
        failing_after(failing, nodes, now, count, node) == failing_after(
            failing,
            nodes,
            now,
            from,
            node,
        ),
    decreases count,
{
    if count > from {
        lemma_failing_elsewhere(failing, nodes, now, from, count - 1, node);
    }
}

/// A node that is in the load balancer fails no more; one that is out has failed since it was first seen
/// out, which is now where it was not seen out before. No other node has a say in it.
pub proof fn a_node_fails_since_it_was_first_seen_out(
    failing: Seq<FailingSince>,
    nodes: Seq<FleetNode>,
    now: u64,
    index: int,
)
    requires
        0 <= index < nodes.len(),
        forall|i: int|
            0 <= i < nodes.len() && i != index ==> (#[trigger] nodes[i]).node@ != nodes[index].node@,
    ensures
        ({
            let node = nodes[index].node@;
            let after = failing_after(failing, nodes, now, nodes.len() as int, node);
            &&& after == failing_after(failing, nodes, now, index + 1, node)
            &&& nodes[index].in_load_balancer ==> after is None
            &&& !nodes[index].in_load_balancer ==> after == Some(
                match since_of(failing, node) {
                    Some(since) => since,
                    None => now,
                },
            )
        }),
{
    let node = nodes[index].node@;
    lemma_failing_elsewhere(failing, nodes, now, 0, index, node);
    lemma_failing_elsewhere(failing, nodes, now, index + 1, nodes.len() as int, node);
}

/// Smoothing keeps a node in the load balancer for the first two seconds that it is out, says so, and
/// changes nothing else of it; a node that is in is shown as it is.
pub proof fn smoothing_lasts_two_seconds(
    shown: FleetNode,
    raw: FleetNode,
    since: u64,
    now: u64,
)
    requires
        since <= now,
        is_debounced(shown, raw, Some(since), now),
    ensures
        raw.in_load_balancer ==> shown == raw,
        now - since >= 2_000_000_000 ==> shown == raw,
        !raw.in_load_balancer && now - since < 2_000_000_000 ==> {
            let said = "readyz failing "@ + decimal_digits(((now - since) / 1_000_000) as nat)
                + "ms (debounced, still IN)"@;
            &&& shown.in_load_balancer
            &&& raw.probe_note is None ==> view_of(shown.probe_note) == Some(said)
            &&& raw.probe_note is Some ==> view_of(shown.probe_note) == Some(
                raw.probe_note->0@ + "; "@ + said,
            )
        },
        shown.node == raw.node,
        shown.healthy == raw.healthy,
        shown.version == raw.version,
        shown.selected_group == raw.selected_group,
{
}

/// The nodes of a group are those whose agents were given it, in order, and no others.
pub proof fn members_are_those_given_the_group(
    agents: Seq<AgentRecord>,
    next: AgentRecord,
    group: Seq<char>,
)
    ensures
        members_of(Seq::empty(), group).len() == 0,
        ({
            let node = label_of(next.labels@, "demo.updated.dev/node"@);
            let given = next.status is Some && view_of(next.status->0.selected_group) == Some(group);
            &&& node is Some && given ==> members_of(agents.push(next), group) == members_of(
                agents,
                group,
            ).push(node->0)
            &&& !(node is Some && given) ==> members_of(agents.push(next), group) == members_of(
                agents,
                group,
            )
        }),
{
    assert(agents.push(next).drop_last() =~= agents);
}

proof fn lemma_first_ending(items: Seq<Seq<char>>, suffix: Seq<char>, index: int)
    requires
        0 <= index < items.len(),
        has_suffix(items[index], suffix),
        forall|i: int| 0 <= i < index ==> !has_suffix(#[trigger] items[i], suffix),
    ensures
        first_ending(items, suffix) == Some(items[index]),
    decreases items.len(),
{
    if index > 0 {
        assert(!has_suffix(items[0], suffix));
        let rest = items.skip(1);
        assert forall|i: int| 0 <= i < index - 1 implies !has_suffix(#[trigger] rest[i], suffix) by {
            assert(rest[i] == items[i + 1]);
        }
        lemma_first_ending(rest, suffix, index - 1);
    }
}

proof fn lemma_none_ending(items: Seq<Seq<char>>, suffix: Seq<char>)
    requires
        forall|i: int| 0 <= i < items.len() ==> !has_suffix(#[trigger] items[i], suffix),
    ensures
        first_ending(items, suffix) is None,
    decreases items.len(),
{
    if items.len() > 0 {
        assert(!has_suffix(items[0], suffix));
        let rest = items.skip(1);
        assert forall|i: int| 0 <= i < rest.len() implies !has_suffix(#[trigger] rest[i], suffix) by {
            assert(rest[i] == items[i + 1]);
        }
        lemma_none_ending(rest, suffix);
    }
}

/// A path names the first of its segments that ends like a major release, and none where no segment does.
pub proof fn paths_name_their_first_release(path: Seq<char>, index: int)
    requires
        0 <= index <= pieces(path, '/').len(),
        forall|i: int| 0 <= i < index ==> !has_suffix(#[trigger] pieces(path, '/')[i], ".0.0"@),
        index < pieces(path, '/').len() ==> has_suffix(pieces(path, '/')[index], ".0.0"@),
    ensures
        index < pieces(path, '/').len() ==> path_version(path) == pieces(path, '/')[index],
        index == pieces(path, '/').len() ==> path_version(path) == "unknown"@,
{
    let segments = pieces(path, '/');
    if index < segments.len() {
        lemma_first_ending(segments, ".0.0"@, index);
    } else {
        lemma_none_ending(segments, ".0.0"@);
    }
}

/// A group is shown with its set, what it selects and its nodes, and a set with its calendar and what the
/// operator reports of it; groups that overlap others on purpose are not shown.
pub proof fn groups_and_sets_are_shown_as_they_are(
    view: GroupView,
    group: GroupRecord,
    agents: Seq<AgentRecord>,
    shown: SetCalendarView,
    set: SetRecord,
    records: Seq<GroupRecord>,
)
    requires
        shows_group(view, group, agents),
        shows_set(shown, set),
    ensures
        view.name == group.name,
        match label_of(group.labels@, SET_LABEL@) {
            Some(name) => view.set@ == name@,
            None => view.set@.len() == 0,
        },
        view.selector@ == joined(label_texts(group.match_labels@), ", "@),
        view.selected_nodes@.to_multiset() == members_of(agents, group.name@).to_multiset(),
        shown.name == set.name,
        shown.calendar@ == set.calendar@,
        set.status is None ==> shown.frozen is None && shown.member_count is None
            && shown.rolling_count is None,
        set.status is Some ==> shown.frozen == set.status->0.frozen && shown.member_count
            == set.status->0.member_count && shown.rolling_count == set.status->0.rolling_count,
        shown_groups(records).contains(group) <==> records.contains(group) && !has_prefix(
            group.name@,
            "overlapping-"@,
        ),
{
    crate::sorting::ordering_permutes(members_of(agents, group.name@));
    let holds = |record: GroupRecord| !has_prefix(record.name@, "overlapping-"@);
    if records.contains(group) && holds(group) {
        let at = choose|i: int| 0 <= i < records.len() && records[i] == group;
        records.lemma_filter_contains(holds, at);
    }
    if shown_groups(records).contains(group) {
        records.lemma_filter_contains_rev(holds, group);
        let at = choose|i: int|
            0 <= i < shown_groups(records).len() && shown_groups(records)[i] == group;
        records.lemma_filter_pred(holds, at);
    }
}

/// A listing shows a freeze exactly where it was read and one of its sets says that it is frozen.
pub proof fn a_freeze_is_a_set_that_says_so(sets: Vec<SetCalendarView>)
    ensures
        shows_frozen(Some(sets)) <==> exists|i: int|
            0 <= i < sets@.len() && (#[trigger] sets@[i]).frozen == Some(true),
        !shows_frozen(None),
{
}

/// Adding a date keeps every window that a calendar has, and adds the whole day where it has none on
/// that date.
pub proof fn adding_a_date_keeps_the_others(
    calendar: Seq<CalendarEntry>,
    date: Seq<char>,
    once: Seq<CalendarEntry>,
)
    requires
        with_date(calendar, date, once),
    ensures
        forall|i: int| 0 <= i < calendar.len() ==> #[trigger] once[i] == calendar[i],
        (exists|i: int| 0 <= i < calendar.len() && (#[trigger] calendar[i]).date@ == date) ==> once
            == calendar,
        (forall|i: int| 0 <= i < calendar.len() ==> (#[trigger] calendar[i]).date@ != date)
            ==> once.len() == calendar.len() + 1 && once.last().date@ == date && once.last().start@
            == "00:00"@ && once.last().end@ == "24:00"@,
{
    if !has_date(calendar, date) {
        assert forall|i: int| 0 <= i < calendar.len() implies #[trigger] once[i] == calendar[i] by {
            assert(once.drop_last()[i] == once[i]);
        }
    }
}

/// Every agent that names its node is shown once, in its place, and so are every group and every set.
pub proof fn everything_is_shown_in_its_place(
    nodes: Seq<FleetNode>,
    agents: Seq<AgentRecord>,
    readiness: Seq<NodeReadiness>,
    stale: bool,
    views: Seq<GroupView>,
    groups: Seq<GroupRecord>,
    shown: Seq<SetCalendarView>,
    sets: Seq<SetRecord>,
    place: int,
)
    requires
        shows_all(nodes, agents, readiness, stale),
        shows_groups(views, groups, agents),
        shows_sets(shown, sets),
    ensures
        nodes.len() == agents.len(),
        views.len() == groups.len(),
        shown.len() == sets.len(),
        0 <= place < agents.len() ==> shows(nodes[place], agents[place], readiness, stale),
        0 <= place < groups.len() ==> shows_group(views[place], groups[place], agents),
        0 <= place < sets.len() ==> shows_set(shown[place], sets[place]),
{
}

/// A node is present where one of the nodes has its name, and nowhere else.
pub proof fn nodes_are_present_by_their_names(nodes: Seq<FleetNode>, index: int, name: Seq<char>)
    ensures
        0 <= index < nodes.len() ==> is_present(nodes, nodes[index].node@),
        (forall|i: int| 0 <= i < nodes.len() ==> (#[trigger] nodes[i]).node@ != name)
            ==> !is_present(nodes, name),
{
}

/// A node fails since the time that was noted for it last, and not at all where nothing was noted; what
/// is noted of a node says nothing of another.
pub proof fn the_last_note_of_a_node_counts(failing: Seq<FailingSince>, note: FailingSince, node: Seq<char>)
    ensures
        since_of(Seq::empty(), node) is None,
        since_of(failing.push(note), note.node@) == Some(note.since),
        node != note.node@ ==> since_of(failing.push(note), node) == since_of(failing, node),
{
    assert(failing.push(note).drop_last() =~= failing);
}

} // verus!
