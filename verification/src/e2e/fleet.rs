//! The fleet as the control plane records it, and the waits for it to converge.

use crate::commands::{
    agent_args, agent_exec, kubectl_value, present_value, read_value, read_words, says,
    value_args, value_says, value_words,
};
use crate::demo::console::{agent_group, AgentRecord};
use crate::demo::fleet::{
    begins, begins_with, count_where, holds_text, is_text, lemma_count_by_multiset,
    lemma_count_of_both, lemma_count_of_none, lemma_filter_push,
};
use crate::e2e::enrollment::jenkins_group;
use crate::e2e::layout::{
    cohort_group_text, set_name_text, EXTERNAL_COHORT, FLEET_SET, HAPROXY_GROUP, NAMESPACE,
    NODE_COUNT, NODE_LABEL,
};
use crate::labels::{get_label, label_of};
use crate::sorting::{in_name_order, sort_by_name, Named};
use crate::text::{
    copied_text, decimal, decimal_digits, is_without, lemma_divided, lines, lines_of, listed,
    pieces, same, split_at_char, trim, trimmed, view_of, views,
};
use crate::waiting::{lag_text, lagging_text, write_lag, write_lagging};
use vstd::prelude::*;

verus! {

/// A node as the operator recorded it from the node's own signed report.
pub struct FleetNode {
    /// The node's name, which is also that of its pod.
    pub node: String,
    pub selected_group: Option<String>,
    /// The version that the node says it runs.
    pub version: Option<String>,
    pub healthy: bool,
}

impl Named for FleetNode {
    open spec fn name_view(&self) -> Seq<char> {
        self.node@
    }

    fn name_text(&self) -> (result: &str) {
        self.node.as_str()
    }
}

// ----- reading the fleet -----

/// The node of an agent that names one.
pub open spec fn node_of(agent: AgentRecord) -> Option<FleetNode> {
    match label_of(agent.labels@, NODE_LABEL@) {
        None => None,
        Some(node) => Some(
            FleetNode {
                node,
                selected_group: agent_group(agent),
                version: match agent.status {
                    Some(status) => status.reported_version,
                    None => None,
                },
                healthy: match agent.status {
                    Some(status) => status.reported_ready == Some(true),
                    None => false,
                },
            },
        ),
    }
}

/// The nodes of the agents that name one, in order.
pub open spec fn named_nodes(agents: Seq<AgentRecord>) -> Seq<FleetNode>
    decreases agents.len(),
{
    if agents.len() == 0 {
        Seq::empty()
    } else {
        match node_of(agents.last()) {
            Some(node) => named_nodes(agents.drop_last()).push(node),
            None => named_nodes(agents.drop_last()),
        }
    }
}

fn read_node(agent: &AgentRecord) -> (result: Option<FleetNode>)
    ensures
        result == node_of(*agent),
{
    match get_label(&agent.labels, NODE_LABEL) {
        None => None,
        Some(node) => {
            let (selected_group, version, healthy) = match &agent.status {
                Some(status) => (
                    copied_text(&status.selected_group),
                    copied_text(&status.reported_version),
                    match status.reported_ready {
                        Some(ready) => ready,
                        None => false,
                    },
                ),
                None => (None, None, false),
            };
            Some(FleetNode { node, selected_group, version, healthy })
        },
    }
}

/// Every node that the layout labelled, in the order of their names.
pub fn nodes(agents: &Vec<AgentRecord>) -> (result: Vec<FleetNode>)
    ensures
        result@ == in_name_order(named_nodes(agents@)),
{
    let mut found: Vec<FleetNode> = Vec::new();
    let mut index: usize = 0;
    assert(found@ =~= named_nodes(agents@.take(0)));
    while index < agents.len()
        invariant
            index <= agents.len(),
            found@ == named_nodes(agents@.take(index as int)),
        decreases agents.len() - index,
    {
        assert(agents@.take(index + 1).drop_last() =~= agents@.take(index as int));
        assert(agents@.take(index + 1).last() == agents@[index as int]);
        match read_node(&agents[index]) {
            Some(node) => found.push(node),
            None => {},
        }
        index = index + 1;
    }
    assert(agents@.take(agents.len() as int) =~= agents@);
    sort_by_name(found)
}

// ----- convergence -----

/// Whether a node belongs to a cohort, as against the external slice, another tier, or none yet.
pub open spec fn in_cohort(node: FleetNode) -> bool {
    begins(node.selected_group, "fleet-cohort-"@)
}

/// Whether a node belongs to a cohort.
pub fn is_cohort_member(node: &FleetNode) -> (result: bool)
    ensures
        result == in_cohort(*node),
{
    begins_with(&node.selected_group, "fleet-cohort-")
}

/// A node's group tells whether it belongs to a cohort, and nothing else of it does: the group of a
/// cohort does, and none of another tier, nor a set, nor none at all.
pub proof fn cohorts_are_told_by_their_groups(
    node: FleetNode,
    other: FleetNode,
    index: nat,
    role: Seq<char>,
)
    ensures
        is_text(node.selected_group, cohort_group_text(index)) ==> in_cohort(node),
        node.selected_group is None ==> !in_cohort(node),
        is_text(node.selected_group, EXTERNAL_COHORT@) ==> !in_cohort(node),
        is_text(node.selected_group, HAPROXY_GROUP@) ==> !in_cohort(node),
        is_text(node.selected_group, jenkins_group(role)) ==> !in_cohort(node),
        is_text(node.selected_group, set_name_text(index)) ==> !in_cohort(node),
        is_text(node.selected_group, FLEET_SET@) ==> !in_cohort(node),
        view_of(node.selected_group) == view_of(other.selected_group) ==> in_cohort(node)
            == in_cohort(other),
{
    let prefix = "fleet-cohort-"@;
    reveal_strlit("fleet-cohort-");
    reveal_strlit("fleet-");
    reveal_strlit("cohort-");
    reveal_strlit("external");
    reveal_strlit("haproxy");
    reveal_strlit("jenkins-");
    reveal_strlit("fleet-set-");
    reveal_strlit("fleet-all");
    assert(cohort_group_text(index).take(13) =~= prefix);
    if in_cohort(node) {
        let group = node.selected_group->Some_0@;
        assert(group.take(13)[0] == 'f' && group.take(13)[6] == 'c');
        assert(group[0] == 'f' && group[6] == 'c');
    }
}

/// Whether a node is healthy on a version.
pub open spec fn on_version(node: FleetNode, version: Seq<char>) -> bool {
    node.healthy && is_text(node.version, version)
}

/// Whether a node is healthy on a version.
pub fn node_converged(node: &FleetNode, version: &str) -> (result: bool)
    ensures
        result == on_version(*node, version@),
{
    node.healthy && holds_text(&node.version, version)
}

/// The number of cohort members.
pub open spec fn member_count(nodes: Seq<FleetNode>) -> nat
    decreases nodes.len(),
{
    if nodes.len() == 0 {
        0
    } else if in_cohort(nodes.last()) {
        member_count(nodes.drop_last()) + 1
    } else {
        member_count(nodes.drop_last())
    }
}

/// The number of cohort members that are healthy on a version.
pub open spec fn converged_count(nodes: Seq<FleetNode>, version: Seq<char>) -> nat
    decreases nodes.len(),
{
    if nodes.len() == 0 {
        0
    } else if in_cohort(nodes.last()) && on_version(nodes.last(), version) {
        converged_count(nodes.drop_last(), version) + 1
    } else {
        converged_count(nodes.drop_last(), version)
    }
}

/// How many cohort members there are, and how many of them are healthy on a version.
pub struct CohortCount {
    pub members: usize,
    pub converged: usize,
}

impl CohortCount {
    /// Whether the whole fleet is there, and all of it on the version.
    pub fn is_whole(&self) -> (result: bool)
        ensures
            result == (self.members == NODE_COUNT && self.converged == NODE_COUNT),
    {
        self.members == NODE_COUNT && self.converged == NODE_COUNT
    }
}

/// How many cohort members there are, and how many of them are healthy on a version.
pub fn count_cohorts(nodes: &Vec<FleetNode>, version: &str) -> (result: CohortCount)
    ensures
        result.members == member_count(nodes@),
        result.converged == converged_count(nodes@, version@),
{
    let mut members: usize = 0;
    let mut converged: usize = 0;
    let mut index: usize = 0;
    assert(nodes@.take(0).len() == 0);
    while index < nodes.len()
        invariant
            index <= nodes.len(),
            members <= index,
            converged <= index,
            members == member_count(nodes@.take(index as int)),
            converged == converged_count(nodes@.take(index as int), version@),
        decreases nodes.len() - index,
    {
        assert(nodes@.take(index + 1).drop_last() =~= nodes@.take(index as int));
        assert(nodes@.take(index + 1).last() == nodes@[index as int]);
        if is_cohort_member(&nodes[index]) {
            members = members + 1;
            if node_converged(&nodes[index], version) {
                converged = converged + 1;
            }
        }
        index = index + 1;
    }
    assert(nodes@.take(nodes.len() as int) =~= nodes@);
    CohortCount { members, converged }
}

/// Whether the cohorts are complete and healthy on a version.
pub open spec fn converged_on(nodes: Seq<FleetNode>, version: Seq<char>) -> bool {
    member_count(nodes) == NODE_COUNT && converged_count(nodes, version) == NODE_COUNT
}

proof fn lemma_counts(nodes: Seq<FleetNode>, version: Seq<char>)
    ensures
        converged_count(nodes, version) <= member_count(nodes),
        converged_count(nodes, version) == member_count(nodes) <==> (forall|i: int|
            0 <= i < nodes.len() && in_cohort(#[trigger] nodes[i]) ==> on_version(
                nodes[i],
                version,
            )),
    decreases nodes.len(),
{
    if nodes.len() > 0 {
        let before = nodes.drop_last();
        lemma_counts(before, version);
        assert forall|i: int| 0 <= i < before.len() implies before[i] == nodes[i] by {}
        if converged_count(nodes, version) == member_count(nodes) {
            assert forall|i: int| 0 <= i < nodes.len() && in_cohort(
                #[trigger] nodes[i],
            ) implies on_version(nodes[i], version) by {
                if i < before.len() {
                    assert(before[i] == nodes[i]);
                }
            }
        } else if forall|i: int|
            0 <= i < nodes.len() && in_cohort(#[trigger] nodes[i]) ==> on_version(
                nodes[i],
                version,
            ) {
            assert forall|i: int| 0 <= i < before.len() && in_cohort(
                #[trigger] before[i],
            ) implies on_version(before[i], version) by {
                assert(before[i] == nodes[i]);
            }
        }
    }
}

/// A fleet has converged exactly when its cohorts are complete and every member is healthy on the
/// version.
pub proof fn convergence_is_every_member(nodes: Seq<FleetNode>, version: Seq<char>)
    ensures
        converged_on(nodes, version) <==> member_count(nodes) == NODE_COUNT && (forall|i: int|
            0 <= i < nodes.len() && in_cohort(#[trigger] nodes[i]) ==> on_version(
                nodes[i],
                version,
            )),
{
    lemma_counts(nodes, version);
}

proof fn lemma_counts_are_filters(nodes: Seq<FleetNode>, version: Seq<char>)
    ensures
        member_count(nodes) == count_where(nodes, |node: FleetNode| in_cohort(node)),
        converged_count(nodes, version) == count_where(
            nodes,
            |node: FleetNode| in_cohort(node) && on_version(node, version),
        ),
    decreases nodes.len(),
{
    let member = |node: FleetNode| in_cohort(node);
    let done = |node: FleetNode| in_cohort(node) && on_version(node, version);
    reveal(Seq::filter);
    if nodes.len() > 0 {
        let before = nodes.drop_last();
        lemma_counts_are_filters(before, version);
        lemma_filter_push(before, nodes.last(), member);
        lemma_filter_push(before, nodes.last(), done);
        assert(before.push(nodes.last()) =~= nodes);
    }
}

/// Nodes outside the cohorts neither help nor hinder, whatever their health.
pub proof fn other_nodes_do_not_matter(
    nodes: Seq<FleetNode>,
    extra: Seq<FleetNode>,
    version: Seq<char>,
)
    requires
        forall|i: int| 0 <= i < extra.len() ==> !in_cohort(#[trigger] extra[i]),
    ensures
        member_count(nodes + extra) == member_count(nodes),
        converged_count(nodes + extra, version) == converged_count(nodes, version),
        converged_on(nodes + extra, version) == converged_on(nodes, version),
{
    let member = |node: FleetNode| in_cohort(node);
    let done = |node: FleetNode| in_cohort(node) && on_version(node, version);
    lemma_counts_are_filters(nodes + extra, version);
    lemma_counts_are_filters(nodes, version);
    lemma_count_of_both(nodes, extra, member);
    lemma_count_of_both(nodes, extra, done);
    lemma_count_of_none(extra, member);
    lemma_count_of_none(extra, done);
}

/// The order of the nodes does not matter.
pub proof fn order_does_not_matter(
    nodes: Seq<FleetNode>,
    other: Seq<FleetNode>,
    version: Seq<char>,
)
    requires
        nodes.to_multiset() == other.to_multiset(),
    ensures
        member_count(nodes) == member_count(other),
        converged_count(nodes, version) == converged_count(other, version),
        converged_on(nodes, version) == converged_on(other, version),
{
    let member = |node: FleetNode| in_cohort(node);
    let done = |node: FleetNode| in_cohort(node) && on_version(node, version);
    lemma_counts_are_filters(nodes, version);
    lemma_counts_are_filters(other, version);
    lemma_count_by_multiset(nodes, member);
    lemma_count_by_multiset(other, member);
    lemma_count_by_multiset(nodes, done);
    lemma_count_by_multiset(other, done);
}

/// The cohort members that are not healthy on a version, as a message lists them.
pub open spec fn lags(nodes: Seq<FleetNode>, version: Seq<char>) -> Seq<Seq<char>>
    decreases nodes.len(),
{
    if nodes.len() == 0 {
        Seq::empty()
    } else {
        let last = nodes.last();
        if in_cohort(last) && !on_version(last, version) {
            lags(nodes.drop_last(), version).push(
                lag_text(
                    last.node@,
                    last.healthy,
                    view_of(last.version),
                    view_of(last.selected_group),
                ),
            )
        } else {
            lags(nodes.drop_last(), version)
        }
    }
}

fn list_lags(nodes: &Vec<FleetNode>, version: &str) -> (result: Vec<String>)
    ensures
        views(result@) == lags(nodes@, version@),
{
    let mut result: Vec<String> = Vec::new();
    let mut index: usize = 0;
    assert(views(result@) =~= lags(nodes@.take(0), version@));
    while index < nodes.len()
        invariant
            index <= nodes.len(),
            views(result@) == lags(nodes@.take(index as int), version@),
        decreases nodes.len() - index,
    {
        assert(nodes@.take(index + 1).drop_last() =~= nodes@.take(index as int));
        assert(nodes@.take(index + 1).last() == nodes@[index as int]);
        let node = &nodes[index];
        if is_cohort_member(node) && !node_converged(node, version) {
            let ghost before = result@;
            let lag = write_lag(
                node.node.as_str(),
                node.healthy,
                &node.version,
                &node.selected_group,
            );
            result.push(lag);
            assert(views(result@) =~= views(before).push(lag@));
        }
        index = index + 1;
    }
    assert(nodes@.take(nodes.len() as int) =~= nodes@);
    result
}

/// A wait for the cohorts to be healthy on a version, with one look a second.
pub struct FleetWait {
    pub version: String,
    pub seconds: usize,
    /// The looks so far.
    pub second: usize,
    /// The fleet as it was last seen.
    pub last: Vec<FleetNode>,
    /// The error of the last look; empty where it had none.
    pub last_error: String,
}

/// What a look comes to.
pub enum FleetLook {
    /// The fleet has converged.
    Converged,
    /// It has not; with a notice now and again.
    Again(Option<String>),
}

/// The notice at a look that did not end a wait: one every fifteen seconds.
pub open spec fn fleet_notice(second: usize, nodes: Seq<FleetNode>, version: Seq<char>) -> Option<
    Seq<char>,
> {
    if second % 15 == 0 {
        Some(
            "waiting for fleet convergence ("@ + decimal_digits(converged_count(nodes, version))
                + "/"@ + decimal_digits(NODE_COUNT as nat) + " exact)"@,
        )
    } else {
        None
    }
}

impl FleetWait {
    /// A wait of so many seconds.
    pub fn new(version: &str, seconds: usize) -> (result: FleetWait)
        ensures
            result.version@ == version@,
            result.seconds == seconds,
            result.second == 0,
            result.last@.len() == 0,
            result.last_error@.len() == 0,
    {
        let last_error = String::new();
        assert(last_error@ =~= Seq::<char>::empty());
        FleetWait { version: version.to_owned(), seconds, second: 0, last: Vec::new(), last_error }
    }

    /// Whether the wait has run out.
    pub fn is_over(&self) -> (result: bool)
        ensures
            result == (self.second >= self.seconds),
    {
        self.second >= self.seconds
    }

    /// Takes the outcome of a look. A fleet that cannot be read is looked at again, like one that
    /// has not converged.
    pub fn look(&mut self, outcome: Result<Vec<FleetNode>, String>) -> (result: FleetLook)
        requires
            old(self).second < old(self).seconds,
        ensures
            final(self).version@ == old(self).version@,
            final(self).seconds == old(self).seconds,
            match outcome {
                Err(error) => result is Again && result->Again_0 is None && final(self).second
                    == old(self).second + 1 && final(self).last@ == old(self).last@
                    && final(self).last_error@ == error@,
                Ok(nodes) => {
                    &&& final(self).last@ == nodes@
                    &&& final(self).last_error@.len() == 0
                    &&& result is Converged <==> converged_on(nodes@, old(self).version@)
                    &&& result is Again ==> final(self).second == old(self).second + 1 && view_of(
                        result->Again_0,
                    ) == fleet_notice(old(self).second, nodes@, old(self).version@)
                },
            },
    {
        match outcome {
            Err(error) => {
                self.last_error = error;
                self.second = self.second + 1;
                FleetLook::Again(None)
            },
            Ok(nodes) => {
                let empty = String::new();
                assert(empty@ =~= Seq::<char>::empty());
                self.last_error = empty;
                let count = count_cohorts(&nodes, self.version.as_str());
                self.last = nodes;
                if count.members == NODE_COUNT && count.converged == NODE_COUNT {
                    return FleetLook::Converged;
                }
                let notice = if self.second % 15 == 0 {
                    let mut text = String::from_str("waiting for fleet convergence (");
                    text.append(decimal(count.converged as u64).as_str());
                    text.append("/");
                    text.append(decimal(NODE_COUNT as u64).as_str());
                    text.append(" exact)");
                    Some(text)
                } else {
                    None
                };
                self.second = self.second + 1;
                FleetLook::Again(notice)
            },
        }
    }

    /// The message of a wait that has run out.
    pub fn timeout_message(&self) -> (result: String)
        ensures
            result@ == lagging_text(
                self.version@,
                self.last@.len(),
                lags(self.last@, self.version@),
                self.last_error@,
            ),
    {
        let lagging = list_lags(&self.last, self.version.as_str());
        write_lagging(
            self.version.as_str(),
            self.last.len(),
            &lagging,
            self.last_error.as_str(),
        )
    }
}

// ----- rejection records -----

/// The arguments that read a node's record of the releases it has rejected.
pub fn rejection_args(node: &str) -> (result: Vec<String>)
    ensures
        views(result@) == agent_args(node@, seq!["cat"@, "/var/lib/updated/state/rejected"@]),
{
    agent_exec(node, vec!["cat", "/var/lib/updated/state/rejected"])
}

/// Whether a line of the record names a rejection.
pub open spec fn line_names(line: Seq<char>, rejection: Seq<char>) -> bool {
    pieces(trimmed(line), ':').len() > 1 && pieces(trimmed(line), ':')[1] == rejection
}

fn names_rejection(line: &str, rejection: &str) -> (result: bool)
    ensures
        result == line_names(line@, rejection@),
{
    let parts = split_at_char(trim(line), ':');
    assert(views(parts@).len() == parts@.len());
    if parts.len() <= 1 {
        return false;
    }
    assert(views(parts@)[1] == parts@[1]@);
    same(parts[1].as_str(), rejection)
}

/// Whether one of some lines names a rejection.
pub open spec fn lines_name(rows: Seq<Seq<char>>, rejection: Seq<char>) -> bool {
    exists|i: int| 0 <= i < rows.len() && line_names(#[trigger] rows[i], rejection)
}

/// Whether a node's record names a rejection; one that cannot be read names none.
pub open spec fn record_names(record: Option<Seq<char>>, rejection: Seq<char>) -> bool {
    match record {
        Some(text) => lines_name(lines_of(text), rejection),
        None => false,
    }
}

/// Whether a node has durably rejected a release: its record, where it can be read, names the
/// rejection of the release's digest. `rejection` is that name; none where the digest has none.
pub fn rejected_release(record: &Option<String>, rejection: &Option<String>) -> (result: bool)
    ensures
        result == match view_of(*rejection) {
            Some(name) => record_names(view_of(*record), name),
            None => false,
        },
{
    let name = match rejection {
        Some(name) => name,
        None => return false,
    };
    let text = match record {
        Some(text) => text,
        None => return false,
    };
    let rows = lines(text.as_str());
    let ghost all = lines_of(text@);
    assert(views(rows@) == all);
    let mut index: usize = 0;
    while index < rows.len()
        invariant
            index <= rows.len(),
            all == lines_of(text@),
            views(rows@) == all,
            rows@.len() == all.len(),
            view_of(*record) == Some(text@),
            view_of(*rejection) == Some(name@),
            forall|i: int| 0 <= i < index ==> !line_names(#[trigger] all[i], name@),
        decreases rows.len() - index,
    {
        assert(views(rows@)[index as int] == rows@[index as int]@);
        if names_rejection(rows[index].as_str(), name.as_str()) {
            assert(line_names(all[index as int], name@));
            return true;
        }
        index = index + 1;
    }
    false
}

// ----- single values -----

/// The arguments that read the address of the pod of an application.
pub fn pod_ip_args(label: &str) -> (result: Vec<String>)
    ensures
        views(result@) == seq![
            "-n"@,
            NAMESPACE@,
            "get"@,
            "pod"@,
            "-l"@,
            "app="@ + label@,
            "-o"@,
            "jsonpath={.items[0].status.podIP}"@,
        ],
{
    let mut selector = String::from_str("app=");
    selector.append(label);
    listed(
        vec![
            "-n",
            NAMESPACE,
            "get",
            "pod",
            "-l",
            selector.as_str(),
            "-o",
            "jsonpath={.items[0].status.podIP}",
        ],
    )
}

/// The address of the pod of an application, from what was read.
pub fn pod_ip_by_app(label: &str, outcome: &str) -> (result: Result<String, String>)
    ensures
        match result {
            Ok(address) => address@ == trimmed(outcome@) && address@.len() > 0,
            Err(message) => trimmed(outcome@).len() == 0 && message@
                == "no running pod carries app="@ + label@,
        },
{
    let address = trim(outcome);
    if address.unicode_len() == 0 {
        let mut message = String::from_str("no running pod carries app=");
        message.append(label);
        Err(message)
    } else {
        Ok(address.to_owned())
    }
}

/// The arguments that read one field of one condition of a group.
pub fn condition_args(group: &str, condition: &str, field: &str) -> (result: Vec<String>)
    ensures
        views(result@) == value_args(
            "updategroup"@,
            group@,
            "{.status.conditions[?(@.type==\""@ + condition@ + "\")]."@ + field@ + "}"@,
        ),
{
    let mut path = String::from_str("{.status.conditions[?(@.type==\"");
    path.append(condition);
    path.append("\")].");
    path.append(field);
    path.append("}");
    kubectl_value("updategroup", group, path.as_str())
}

/// One field of one condition of a group, from what was read; none while it is not published.
pub fn condition_field(outcome: &Option<String>) -> (result: Option<String>)
    ensures
        view_of(result) == present_value(view_of(*outcome)),
{
    read_value(outcome)
}

/// The arguments that read which deployments a set has halted.
pub fn halted_args(set: &str) -> (result: Vec<String>)
    ensures
        views(result@) == value_args(
            "updategroupset"@,
            set@,
            "{.status.halted[*].deployment}"@,
        ),
{
    kubectl_value("updategroupset", set, "{.status.halted[*].deployment}")
}

/// The deployments that a set has halted, from what was read; none where it could not be.
pub fn halted_deployments(outcome: &Option<String>) -> (result: Vec<String>)
    ensures
        views(result@) == value_words(view_of(*outcome)),
{
    read_words(outcome)
}

/// The arguments that read whether a set has rolled a halted deployment back.
pub fn rolled_back_args(set: &str, deployment: &str) -> (result: Vec<String>)
    ensures
        views(result@) == value_args(
            "updategroupset"@,
            set@,
            "{.status.halted[?(@.deployment==\""@ + deployment@ + "\")].rolledBack}"@,
        ),
{
    let mut path = String::from_str("{.status.halted[?(@.deployment==\"");
    path.append(deployment);
    path.append("\")].rolledBack}");
    kubectl_value("updategroupset", set, path.as_str())
}

/// Whether a set has rolled a halted deployment back, from what was read.
pub fn halt_rolled_back(outcome: &Option<String>) -> (result: bool)
    ensures
        result == says(view_of(*outcome), "true"@),
{
    value_says(outcome, "true")
}

// ----- what the fleet's nodes show -----

/// A node is healthy where its agent reports that it is ready, and runs the version that its agent
/// reports; an agent that names no node shows none.
pub proof fn nodes_are_as_they_report(agent: AgentRecord)
    ensures
        node_of(agent) is Some <==> label_of(agent.labels@, NODE_LABEL@) is Some,
        match node_of(agent) {
            Some(node) => {
                &&& Some(node.node) == label_of(agent.labels@, NODE_LABEL@)
                &&& node.healthy <==> agent.status is Some && agent.status->0.reported_ready
                    == Some(true)
                &&& match agent.status {
                    Some(status) => node.version == status.reported_version
                        && node.selected_group == status.selected_group,
                    None => node.version is None && node.selected_group is None,
                }
            },
            None => true,
        },
{
}

/// Every agent that names a node is listed, in order, and nothing else is.
pub proof fn every_named_node_is_listed(agents: Seq<AgentRecord>, next: AgentRecord)
    ensures
        named_nodes(Seq::empty()).len() == 0,
        label_of(next.labels@, NODE_LABEL@) is None ==> named_nodes(agents.push(next))
            == named_nodes(agents),
        label_of(next.labels@, NODE_LABEL@) is Some ==> named_nodes(agents.push(next))
            == named_nodes(agents).push(node_of(next)->Some_0),
{
    assert(agents.push(next).drop_last() =~= agents);
}

/// The fleet has converged on a version exactly where it has as many members as there are nodes, and
/// each of them is healthy and reports that version; no other version will do.
pub proof fn convergence_is_every_member_healthy_on_it(nodes: Seq<FleetNode>, version: Seq<char>)
    ensures
        converged_on(nodes, version) <==> nodes.filter(|node: FleetNode| in_cohort(node)).len()
            == NODE_COUNT && (forall|i: int|
            0 <= i < nodes.len() && in_cohort(#[trigger] nodes[i]) ==> nodes[i].healthy && view_of(
                nodes[i].version,
            ) == Some(version)),
        converged_count(nodes, version) == nodes.filter(
            |node: FleetNode|
                in_cohort(node) && node.healthy && view_of(node.version) == Some(version),
        ).len(),
{
    lemma_counts(nodes, version);
    lemma_counts_are_filters(nodes, version);
    let done = |node: FleetNode| in_cohort(node) && on_version(node, version);
    let shown = |node: FleetNode|
        in_cohort(node) && node.healthy && view_of(node.version) == Some(version);
    assert forall|node: FleetNode| #[trigger] done(node) == shown(node) by {}
    assert(done =~= shown);
    if forall|i: int|
        0 <= i < nodes.len() && in_cohort(#[trigger] nodes[i]) ==> nodes[i].healthy && view_of(
            nodes[i].version,
        ) == Some(version) {
        assert forall|i: int| 0 <= i < nodes.len() && in_cohort(#[trigger] nodes[i]) implies on_version(
            nodes[i],
            version,
        ) by {}
    }
}

proof fn lemma_lags(nodes: Seq<FleetNode>, version: Seq<char>)
    ensures
        lags(nodes, version).len() + converged_count(nodes, version) == member_count(nodes),
        forall|i: int|
            0 <= i < nodes.len() && in_cohort(#[trigger] nodes[i]) && !on_version(nodes[i], version)
                ==> lags(nodes, version).contains(
                lag_text(
                    nodes[i].node@,
                    nodes[i].healthy,
                    view_of(nodes[i].version),
                    view_of(nodes[i].selected_group),
                ),
            ),
    decreases nodes.len(),
{
    if nodes.len() > 0 {
        let before = nodes.drop_last();
        let listed = lags(nodes, version);
        let earlier = lags(before, version);
        lemma_lags(before, version);
        assert forall|i: int|
            0 <= i < nodes.len() && in_cohort(#[trigger] nodes[i]) && !on_version(
                nodes[i],
                version,
            ) implies listed.contains(
            lag_text(
                nodes[i].node@,
                nodes[i].healthy,
                view_of(nodes[i].version),
                view_of(nodes[i].selected_group),
            ),
        ) by {
            let text = lag_text(
                nodes[i].node@,
                nodes[i].healthy,
                view_of(nodes[i].version),
                view_of(nodes[i].selected_group),
            );
            if i < before.len() {
                assert(before[i] == nodes[i]);
                let at = choose|at: int| 0 <= at < earlier.len() && earlier[at] == text;
                assert(listed[at] == text);
            } else {
                assert(listed[listed.len() - 1] == text);
            }
        }
    }
}

/// Every member that is not healthy, or reports another version, is listed as lagging; as many are
/// listed as there are such members.
pub proof fn every_laggard_is_listed(nodes: Seq<FleetNode>, version: Seq<char>, index: int)
    requires
        0 <= index < nodes.len(),
        in_cohort(nodes[index]),
        !nodes[index].healthy || view_of(nodes[index].version) != Some(version),
    ensures
        lags(nodes, version).contains(
            lag_text(
                nodes[index].node@,
                nodes[index].healthy,
                view_of(nodes[index].version),
                view_of(nodes[index].selected_group),
            ),
        ),
        lags(nodes, version).len() + converged_count(nodes, version) == member_count(nodes),
{
    lemma_lags(nodes, version);
}

/// A notice comes with every fifteenth look, and states how many members are done.
pub proof fn notices_come_every_fifteen_seconds(
    second: usize,
    nodes: Seq<FleetNode>,
    version: Seq<char>,
)
    ensures
        fleet_notice(second, nodes, version) is Some <==> second as int % 15 == 0,
        fleet_notice(second, nodes, version) is Some ==> fleet_notice(second, nodes, version)->0
            == "waiting for fleet convergence ("@ + decimal_digits(
            nodes.filter(
                |node: FleetNode|
                    in_cohort(node) && node.healthy && view_of(node.version) == Some(version),
            ).len(),
        ) + "/"@ + decimal_digits(NODE_COUNT as nat) + " exact)"@,
{
    convergence_is_every_member_healthy_on_it(nodes, version);
}

/// A line of the record names what stands between its first two colons, and a line without a colon
/// names nothing.
pub proof fn records_name_their_second_part(
    first: Seq<char>,
    second: Seq<char>,
    rest: Seq<char>,
    rejection: Seq<char>,
    line: Seq<char>,
)
    requires
        is_without(first, ':'),
        is_without(second, ':'),
    ensures
        trimmed(line) == first ==> !line_names(line, rejection),
        trimmed(line) == first + seq![':'] + second ==> (line_names(line, rejection) <==> rejection
            == second),
        trimmed(line) == first + seq![':'] + (second + seq![':'] + rest) ==> (line_names(
            line,
            rejection,
        ) <==> rejection == second),
{
    lemma_divided(first, ':', second);
    lemma_divided(second, ':', rest);
    lemma_divided(first, ':', second + seq![':'] + rest);
}

/// A record names a rejection exactly where it could be read and one of its lines names it.
pub proof fn records_name_what_a_line_names(text: Seq<char>, rejection: Seq<char>)
    ensures
        record_names(Some(text), rejection) <==> exists|i: int|
            0 <= i < lines_of(text).len() && line_names(#[trigger] lines_of(text)[i], rejection),
        !record_names(None, rejection),
{
}

} // verus!
