//! The demo fleet as the control plane reports it.

use crate::demo::layout::{
    cohort_group_text, set_name_text, DEMO_EXTERNAL_COHORT, DEMO_FLEET_SET, DEMO_HAPROXY_GROUP,
    DEMO_NODE_COUNT,
};
use crate::text::{has_prefix, same, starts_with, view_of};
use vstd::multiset::Multiset;
use vstd::prelude::*;

verus! {

/// One node of the fleet.
pub struct FleetNode {
    pub node: String,
    pub resource: String,
    pub selected_group: Option<String>,
    /// The version that the node reports.
    pub version: Option<String>,
    /// What the node runs, where that is not the sample application.
    pub kind: Option<String>,
    pub healthy: bool,
    pub in_load_balancer: bool,
    pub readyz_probe_millis: u64,
    /// Why the node reads as out of the load balancer.
    pub probe_note: Option<String>,
}

/// Whether an optional text is this one.
pub open spec fn is_text(item: Option<String>, text: Seq<char>) -> bool {
    item is Some && item->Some_0@ == text
}

/// Whether an optional text is this one.
pub fn holds_text(item: &Option<String>, text: &str) -> (result: bool)
    ensures
        result == is_text(*item, text@),
{
    match item {
        Some(value) => same(value.as_str(), text),
        None => false,
    }
}

/// Whether an optional text begins with `prefix`.
pub open spec fn begins(item: Option<String>, prefix: Seq<char>) -> bool {
    item is Some && has_prefix(item->Some_0@, prefix)
}

/// Whether an optional text begins with `prefix`.
pub fn begins_with(item: &Option<String>, prefix: &str) -> (result: bool)
    ensures
        result == begins(*item, prefix@),
{
    match item {
        Some(value) => starts_with(value.as_str(), prefix),
        None => false,
    }
}

/// Whether a node belongs to a cohort, as opposed to another tier or none.
pub open spec fn in_cohort(node: FleetNode) -> bool {
    begins(node.selected_group, "demo-cohort-"@)
}

/// Whether a node belongs to a cohort.
pub fn is_cohort_member(node: &FleetNode) -> (result: bool)
    ensures
        result == in_cohort(*node),
{
    begins_with(&node.selected_group, "demo-cohort-")
}

/// A node's group tells whether it belongs to a cohort, and nothing else of it does: the group of a
/// cohort does, and none of another tier, nor a set, nor none at all.
pub proof fn cohorts_are_told_by_their_groups(node: FleetNode, other: FleetNode, index: nat)
    ensures
        is_text(node.selected_group, cohort_group_text(index)) ==> in_cohort(node),
        node.selected_group is None ==> !in_cohort(node),
        is_text(node.selected_group, DEMO_EXTERNAL_COHORT@) ==> !in_cohort(node),
        is_text(node.selected_group, DEMO_HAPROXY_GROUP@) ==> !in_cohort(node),
        begins(node.selected_group, "magnolia-"@) ==> !in_cohort(node),
        is_text(node.selected_group, set_name_text(index)) ==> !in_cohort(node),
        is_text(node.selected_group, DEMO_FLEET_SET@) ==> !in_cohort(node),
        view_of(node.selected_group) == view_of(other.selected_group) ==> in_cohort(node)
            == in_cohort(other),
{
    let prefix = "demo-cohort-"@;
    reveal_strlit("demo-cohort-");
    reveal_strlit("demo-");
    reveal_strlit("cohort-");
    reveal_strlit("external");
    reveal_strlit("haproxy");
    reveal_strlit("magnolia-");
    reveal_strlit("demo-set-");
    reveal_strlit("demo-fleet");
    assert(cohort_group_text(index).take(12) =~= prefix);
    if in_cohort(node) {
        let group = node.selected_group->Some_0@;
        assert(group.take(12)[0] == 'd' && group.take(12)[5] == 'c');
        assert(group[0] == 'd' && group[5] == 'c');
        if begins(node.selected_group, "magnolia-"@) {
            assert(group.take(9)[0] == 'm');
        }
    }
}

/// Whether a node of a demo group is healthy on `version`.
pub open spec fn on_version(node: FleetNode, version: Seq<char>) -> bool {
    node.healthy && is_text(node.version, version) && begins(node.selected_group, "demo-"@)
}

/// Whether a node of a demo group is healthy on `version`.
pub fn fleet_node_converged(node: &FleetNode, version: &str) -> (result: bool)
    ensures
        result == on_version(*node, version@),
{
    node.healthy && holds_text(&node.version, version) && begins_with(&node.selected_group, "demo-")
}

/// The cohort members among some nodes, in order.
pub open spec fn cohort_members(nodes: Seq<FleetNode>) -> Seq<FleetNode> {
    nodes.filter(|node: FleetNode| in_cohort(node))
}

/// Whether the cohort fleet is complete and healthy on `version`.
pub open spec fn converged_on(nodes: Seq<FleetNode>, version: Seq<char>) -> bool {
    &&& cohort_members(nodes).len() == DEMO_NODE_COUNT
    &&& forall|i: int|
        0 <= i < nodes.len() && in_cohort(#[trigger] nodes[i]) ==> on_version(nodes[i], version)
}

/// The number of elements of a list that a predicate holds of.
pub open spec fn count_where<T>(items: Seq<T>, holds: spec_fn(T) -> bool) -> nat {
    items.filter(holds).len()
}

/// A list's filter grows by the element that is appended, if the predicate holds of it.
pub proof fn lemma_filter_push<T>(items: Seq<T>, item: T, holds: spec_fn(T) -> bool)
    ensures
        items.push(item).filter(holds) == (if holds(item) {
            items.filter(holds).push(item)
        } else {
            items.filter(holds)
        }),
{
    reveal(Seq::filter);
    assert(items.push(item).drop_last() == items);
}

/// A list's filter on its first elements is no longer than on all.
pub proof fn lemma_filter_len<T>(items: Seq<T>, holds: spec_fn(T) -> bool)
    ensures
        items.filter(holds).len() <= items.len(),
    decreases items.len(),
{
    reveal(Seq::filter);
    if items.len() > 0 {
        lemma_filter_len(items.drop_last(), holds);
    }
}

/// Whether the cohort fleet is complete and healthy on `version`. Nodes outside the cohorts do
/// not count.
pub fn fleet_converged(nodes: &Vec<FleetNode>, version: &str) -> (result: bool)
    ensures
        result == converged_on(nodes@, version@),
        result <==> nodes@.filter(|node: FleetNode| in_cohort(node)).len() == 32 && (forall|i: int|
            0 <= i < nodes@.len() && in_cohort(#[trigger] nodes@[i]) ==> nodes@[i].healthy && view_of(
                nodes@[i].version,
            ) == Some(version@)),
{
    proof {
        convergence_is_every_member(nodes@, version@);
    }
    let ghost member = |node: FleetNode| in_cohort(node);
    let mut members: usize = 0;
    let mut all = true;
    let mut index: usize = 0;
    proof {
        reveal(Seq::filter);
    }
    while index < nodes.len()
        invariant
            index <= nodes.len(),
            member == (|node: FleetNode| in_cohort(node)),
            members == nodes@.take(index as int).filter(member).len(),
            members <= index,
            all <==> forall|i: int|
                0 <= i < index && in_cohort(#[trigger] nodes@[i]) ==> on_version(
                    nodes@[i],
                    version@,
                ),
        decreases nodes.len() - index,
    {
        proof {
            assert(nodes@.take(index + 1) == nodes@.take(index as int).push(nodes@[index as int]));
            lemma_filter_push(nodes@.take(index as int), nodes@[index as int], member);
        }
        if is_cohort_member(&nodes[index]) {
            members = members + 1;
            if !fleet_node_converged(&nodes[index], version) {
                all = false;
            }
        }
        index = index + 1;
    }
    assert(nodes@.take(nodes.len() as int) == nodes@);
    members == DEMO_NODE_COUNT && all
}

// ----- what convergence rests on -----

/// The fleet has converged exactly when it has as many cohort members as it should, and each of them
/// is healthy on the version.
pub proof fn convergence_is_every_member(nodes: Seq<FleetNode>, version: Seq<char>)
    ensures
        converged_on(nodes, version) <==> count_where(nodes, |node: FleetNode| in_cohort(node))
            == DEMO_NODE_COUNT && (forall|i: int|
            0 <= i < nodes.len() && in_cohort(#[trigger] nodes[i]) ==> nodes[i].healthy && is_text(
                nodes[i].version,
                version,
            )),
{
    reveal_strlit("demo-cohort-");
    reveal_strlit("demo-");
    assert forall|node: FleetNode| in_cohort(node) implies begins(node.selected_group, "demo-"@) by {
        let group = node.selected_group->Some_0@;
        assert(group.take(5) =~= group.take(12).take(5));
        assert(group.take(5) =~= "demo-"@);
    }
    assert(cohort_members(nodes) == nodes.filter(|node: FleetNode| in_cohort(node)));
    if converged_on(nodes, version) {
        assert forall|i: int| 0 <= i < nodes.len() && in_cohort(#[trigger] nodes[i]) implies nodes[i].healthy
            && is_text(nodes[i].version, version) by {
            assert(on_version(nodes[i], version));
        }
    }
}

/// How often a predicate holds of a list does not rest on its order.
pub proof fn lemma_count_by_multiset<T>(items: Seq<T>, holds: spec_fn(T) -> bool)
    ensures
        count_where(items, holds) == items.to_multiset().filter(holds).len(),
    decreases items.len(),
{
    broadcast use vstd::seq_lib::group_to_multiset_ensures;

    reveal(Seq::filter);
    if items.len() == 0 {
        assert(items.to_multiset() =~= Multiset::<T>::empty());
        assert(items.to_multiset().filter(holds) =~= Multiset::<T>::empty());
    } else {
        let before = items.drop_last();
        let item = items.last();
        lemma_count_by_multiset(before, holds);
        lemma_filter_push(before, item, holds);
        assert(before.push(item) =~= items);
        assert(items.to_multiset() =~= before.to_multiset().insert(item));
        if holds(item) {
            assert(items.to_multiset().filter(holds) =~= before.to_multiset().filter(holds).insert(
                item,
            ));
        } else {
            assert(items.to_multiset().filter(holds) =~= before.to_multiset().filter(holds));
        }
    }
}

/// How often a predicate holds of two lists, one after the other.
pub proof fn lemma_count_of_both<T>(left: Seq<T>, right: Seq<T>, holds: spec_fn(T) -> bool)
    ensures
        count_where(left + right, holds) == count_where(left, holds) + count_where(right, holds),
    decreases right.len(),
{
    if right.len() == 0 {
        assert(left + right =~= left);
        reveal(Seq::filter);
    } else {
        lemma_count_of_both(left, right.drop_last(), holds);
        lemma_filter_push(left + right.drop_last(), right.last(), holds);
        lemma_filter_push(right.drop_last(), right.last(), holds);
        assert((left + right.drop_last()).push(right.last()) =~= left + right);
        assert(right.drop_last().push(right.last()) =~= right);
    }
}

/// A predicate that holds of no element holds of none.
pub proof fn lemma_count_of_none<T>(items: Seq<T>, holds: spec_fn(T) -> bool)
    requires
        forall|i: int| 0 <= i < items.len() ==> !holds(#[trigger] items[i]),
    ensures
        count_where(items, holds) == 0,
    decreases items.len(),
{
    reveal(Seq::filter);
    if items.len() > 0 {
        let before = items.drop_last();
        assert forall|i: int| 0 <= i < before.len() implies !holds(#[trigger] before[i]) by {
            assert(before[i] == items[i]);
        }
        lemma_count_of_none(before, holds);
        assert(!holds(items[items.len() - 1]));
    }
}

/// Where one predicate implies another, they hold of equally many elements exactly when every element
/// that the second holds of has the first hold of it too.
pub proof fn lemma_counts_agree<T>(
    items: Seq<T>,
    narrow: spec_fn(T) -> bool,
    wide: spec_fn(T) -> bool,
)
    requires
        forall|item: T| #[trigger] narrow(item) ==> wide(item),
    ensures
        count_where(items, narrow) <= count_where(items, wide),
        count_where(items, narrow) == count_where(items, wide) <==> (forall|i: int|
            0 <= i < items.len() && wide(#[trigger] items[i]) ==> narrow(items[i])),
    decreases items.len(),
{
    reveal(Seq::filter);
    if items.len() > 0 {
        let before = items.drop_last();
        let last = items.last();
        lemma_counts_agree(before, narrow, wide);
        lemma_filter_push(before, last, narrow);
        lemma_filter_push(before, last, wide);
        assert(before.push(last) =~= items);
        assert(last == items[items.len() - 1]);
        assert forall|i: int| 0 <= i < before.len() implies before[i] == items[i] by {}
        if count_where(items, narrow) == count_where(items, wide) {
            assert forall|i: int| 0 <= i < items.len() && wide(#[trigger] items[i]) implies narrow(
                items[i],
            ) by {
                if i < before.len() {
                    assert(wide(before[i]));
                }
            }
        }
        if forall|i: int| 0 <= i < items.len() && wide(#[trigger] items[i]) ==> narrow(items[i]) {
            assert forall|i: int| 0 <= i < before.len() && wide(#[trigger] before[i]) implies narrow(
                before[i],
            ) by {
                assert(wide(items[i]));
            }
        }
    }
}

/// Nodes outside the cohorts neither help nor hinder, whatever their health.
pub proof fn other_nodes_do_not_matter(
    nodes: Seq<FleetNode>,
    extra: Seq<FleetNode>,
    version: Seq<char>,
)
    requires
        forall|i: int| 0 <= i < extra.len() ==> !in_cohort(#[trigger] extra[i]),
    ensures
        converged_on(nodes + extra, version) == converged_on(nodes, version),
{
    let member = |node: FleetNode| in_cohort(node);
    let all = nodes + extra;
    lemma_count_of_both(nodes, extra, member);
    lemma_count_of_none(extra, member);
    assert forall|i: int| 0 <= i < all.len() && in_cohort(#[trigger] all[i]) implies i < nodes.len()
        && all[i] == nodes[i] by {
        if i >= nodes.len() {
            assert(all[i] == extra[i - nodes.len()]);
        }
    }
    if converged_on(all, version) {
        assert forall|i: int| 0 <= i < nodes.len() && in_cohort(#[trigger] nodes[i]) implies on_version(
            nodes[i],
            version,
        ) by {
            assert(all[i] == nodes[i]);
        }
    }
}

proof fn lemma_order_keeps(nodes: Seq<FleetNode>, other: Seq<FleetNode>, version: Seq<char>)
    requires
        nodes.to_multiset() == other.to_multiset(),
        converged_on(nodes, version),
    ensures
        converged_on(other, version),
{
    broadcast use vstd::seq_lib::group_to_multiset_ensures;

    let member = |node: FleetNode| in_cohort(node);
    lemma_count_by_multiset(nodes, member);
    lemma_count_by_multiset(other, member);
    assert forall|i: int| 0 <= i < other.len() && in_cohort(#[trigger] other[i]) implies on_version(
        other[i],
        version,
    ) by {
        assert(other.contains(other[i]));
        assert(other.to_multiset().count(other[i]) > 0);
        assert(nodes.contains(other[i]));
        let place = nodes.index_of(other[i]);
        assert(nodes[place] == other[i]);
    }
}

/// The order of the nodes does not matter.
pub proof fn order_does_not_matter(
    nodes: Seq<FleetNode>,
    other: Seq<FleetNode>,
    version: Seq<char>,
)
    requires
        nodes.to_multiset() == other.to_multiset(),
    ensures
        converged_on(nodes, version) == converged_on(other, version),
{
    if converged_on(nodes, version) {
        lemma_order_keeps(nodes, other, version);
    }
    if converged_on(other, version) {
        lemma_order_keeps(other, nodes, version);
    }
}

} // verus!
