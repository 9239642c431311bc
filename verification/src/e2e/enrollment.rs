//! The labels of the end-to-end fleet's nodes, and the nodes that are reserved ahead of time.

use crate::demo::fleet::{holds_text, is_text};
use crate::e2e::fleet::{node_converged, on_version, FleetNode};
use crate::e2e::layout::{
    cohort_label, cohort_label_text, external_ordinal, jenkins_cohorts, jenkins_table,
    names_are_distinct, COHORT_LABEL, COHORT_SIZE, EXTERNAL_COHORT, EXTERNAL_COUNT, KIND_LABEL,
    NODE_COUNT, NODE_LABEL, ROLE_LABEL,
};
use crate::enrollment::{
    patch_view, patch_views, patched_label, remove_label, set_label, LabelPatch, PatchView,
};
use crate::identity::{agent_resource_name, enrolled_name, resource_name};
use crate::labels::Label;
use crate::naming::{agent_hostname, agent_name, numbered};
use crate::resources::{label, pairs};
use crate::text::{decimal_digits, same, view_of};
use vstd::prelude::*;

verus! {

// ----- nodes that enroll -----

/// The labels of a node with this cohort label.
pub open spec fn node_labels(ordinal: nat, cohort: Seq<char>) -> PatchView {
    PatchView {
        resource: enrolled_name(agent_name(ordinal)),
        changes: seq![
            (NODE_LABEL@, Some(agent_name(ordinal))),
            (COHORT_LABEL@, Some(cohort)),
            ("updated.dev/role"@, None),
        ],
    }
}

fn node_patch(ordinal: usize, cohort: &str) -> (result: LabelPatch)
    ensures
        patch_view(result) == node_labels(ordinal as nat, cohort@),
{
    let node = agent_hostname(ordinal);
    let patch = LabelPatch {
        resource: agent_resource_name(ordinal),
        changes: vec![
            set_label(NODE_LABEL, node.as_str()),
            set_label(COHORT_LABEL, cohort),
            remove_label("updated.dev/role"),
        ],
    };
    assert(patch_view(patch) =~= node_labels(ordinal as nat, cohort@));
    patch
}

/// The labels of every node of the cohorts, in the order of its ordinals.
pub fn label_cohort_agents() -> (result: Vec<LabelPatch>)
    ensures
        patch_views(result@) == Seq::new(
            NODE_COUNT as nat,
            |i: int| node_labels(i as nat, cohort_label_text(i as nat / COHORT_SIZE as nat)),
        ),
{
    let mut result: Vec<LabelPatch> = Vec::new();
    let mut ordinal: usize = 0;
    while ordinal < NODE_COUNT
        invariant
            ordinal <= NODE_COUNT,
            result@.len() == ordinal,
            forall|i: int|
                0 <= i < ordinal ==> patch_view(#[trigger] result@[i]) == node_labels(
                    i as nat,
                    cohort_label_text(i as nat / COHORT_SIZE as nat),
                ),
        decreases NODE_COUNT - ordinal,
    {
        let cohort = cohort_label(ordinal / COHORT_SIZE);
        result.push(node_patch(ordinal, cohort.as_str()));
        ordinal = ordinal + 1;
    }
    assert(patch_views(result@) =~= Seq::new(
        NODE_COUNT as nat,
        |i: int| node_labels(i as nat, cohort_label_text(i as nat / COHORT_SIZE as nat)),
    ));
    result
}

/// The labels of the nodes outside the sets, in order.
pub fn label_external_agents() -> (result: Vec<LabelPatch>)
    ensures
        patch_views(result@) == Seq::new(
            EXTERNAL_COUNT as nat,
            |i: int| node_labels((NODE_COUNT + i) as nat, EXTERNAL_COHORT@),
        ),
{
    let mut result: Vec<LabelPatch> = Vec::new();
    let mut index: usize = 0;
    while index < EXTERNAL_COUNT
        invariant
            index <= EXTERNAL_COUNT,
            result@.len() == index,
            forall|i: int|
                0 <= i < index ==> patch_view(#[trigger] result@[i]) == node_labels(
                    (NODE_COUNT + i) as nat,
                    EXTERNAL_COHORT@,
                ),
        decreases EXTERNAL_COUNT - index,
    {
        result.push(node_patch(external_ordinal(index), EXTERNAL_COHORT));
        index = index + 1;
    }
    assert(patch_views(result@) =~= Seq::new(
        EXTERNAL_COUNT as nat,
        |i: int| node_labels((NODE_COUNT + i) as nat, EXTERNAL_COHORT@),
    ));
    result
}

/// A cohort's selector finds exactly the nodes of the cohort.
pub proof fn cohorts_select_their_nodes(ordinal: nat, cohort: nat)
    ensures
        patched_label(
            node_labels(ordinal, cohort_label_text(ordinal / COHORT_SIZE as nat)).changes,
            COHORT_LABEL@,
        ) == Some(cohort_label_text(cohort)) <==> ordinal / COHORT_SIZE as nat == cohort,
{
    let text = cohort_label_text(ordinal / COHORT_SIZE as nat);
    let changes = node_labels(ordinal, text).changes;
    reveal_strlit("updated.dev/role");
    reveal_strlit("e2e.updated.dev/cohort");
    assert("updated.dev/role"@.len() == 16);
    assert(COHORT_LABEL@.len() == 22);
    reveal_with_fuel(patched_label, 3);
    assert(changes.last().0 == "updated.dev/role"@);
    assert(changes.drop_last().last() == (COHORT_LABEL@, Some(text)));
    if ordinal / COHORT_SIZE as nat != cohort {
        names_are_distinct(ordinal / COHORT_SIZE as nat, cohort);
    }
}

// ----- nodes that are reserved -----

/// The name of a Jenkins node.
pub open spec fn jenkins_node(role: Seq<char>, ordinal: nat) -> Seq<char> {
    "jenkins-"@ + role + "-"@ + decimal_digits(ordinal)
}

fn write_jenkins_node(role: &str, ordinal: usize) -> (result: String)
    ensures
        result@ == jenkins_node(role@, ordinal as nat),
{
    let mut prefix = String::from_str("jenkins-");
    prefix.append(role);
    prefix.append("-");
    numbered(prefix.as_str(), ordinal)
}

/// The name of the group, and of the workload, of a Jenkins role.
pub open spec fn jenkins_group(role: Seq<char>) -> Seq<char> {
    "jenkins-"@ + role
}

/// The name of the group, and of the workload, of a Jenkins role.
pub fn write_jenkins_group(role: &str) -> (result: String)
    ensures
        result@ == jenkins_group(role@),
{
    let mut name = String::from_str("jenkins-");
    name.append(role);
    name
}

/// A node whose place in the inventory is taken before it enrolls.
pub struct ReservedAgent {
    pub resource: String,
    pub labels: Vec<Label>,
}

/// A node whose place in the inventory is taken before it enrolls.
#[verifier::ext_equal]
pub struct ReservedView {
    pub resource: Seq<char>,
    pub labels: Seq<(Seq<char>, Seq<char>)>,
}

/// What a reservation says.
pub open spec fn reserved_view(agent: ReservedAgent) -> ReservedView {
    ReservedView { resource: agent.resource@, labels: pairs(agent.labels@) }
}

/// What some reservations say.
pub open spec fn reserved_views(agents: Seq<ReservedAgent>) -> Seq<ReservedView> {
    Seq::new(agents.len(), |i: int| reserved_view(agents[i]))
}

/// The reservation of a Jenkins node.
pub open spec fn jenkins_reservation(role: Seq<char>, ordinal: nat) -> ReservedView {
    ReservedView {
        resource: enrolled_name(jenkins_node(role, ordinal)),
        labels: seq![
            (NODE_LABEL@, jenkins_node(role, ordinal)),
            (KIND_LABEL@, "jenkins"@),
            (ROLE_LABEL@, role),
        ],
    }
}

/// The reservations of the first `count` nodes of a role.
pub open spec fn role_reservations(role: Seq<char>, count: int) -> Seq<ReservedView> {
    Seq::new(count as nat, |i: int| jenkins_reservation(role, i as nat))
}

/// The reservations of the nodes of the first `count` roles.
pub open spec fn jenkins_reservations(count: int) -> Seq<ReservedView>
    decreases count,
{
    if count <= 0 {
        Seq::empty()
    } else {
        let row = jenkins_table()[count - 1];
        jenkins_reservations(count - 1) + role_reservations(row.0, row.1)
    }
}

fn reserve(role: &str, ordinal: usize) -> (result: ReservedAgent)
    ensures
        reserved_view(result) == jenkins_reservation(role@, ordinal as nat),
{
    let node = write_jenkins_node(role, ordinal);
    let agent = ReservedAgent {
        resource: resource_name(node.as_str()),
        labels: vec![
            label(NODE_LABEL, node.as_str()),
            label(KIND_LABEL, "jenkins"),
            label(ROLE_LABEL, role),
        ],
    };
    assert(reserved_view(agent) =~= jenkins_reservation(role@, ordinal as nat));
    agent
}

/// The reservations of every Jenkins node, role by role.
pub fn reserve_jenkins_agents() -> (result: Vec<ReservedAgent>)
    ensures
        reserved_views(result@) == jenkins_reservations(jenkins_table().len() as int),
{
    let cohorts = jenkins_cohorts();
    let ghost table = jenkins_table();
    let mut result: Vec<ReservedAgent> = Vec::new();
    let mut index: usize = 0;
    assert(reserved_views(result@) =~= Seq::<ReservedView>::empty());
    while index < cohorts.len()
        invariant
            index <= cohorts.len(),
            cohorts@.len() == table.len(),
            table == jenkins_table(),
            forall|i: int|
                0 <= i < cohorts@.len() ==> (cohorts@[i].0@, (#[trigger] cohorts@[i]).1 as int)
                    == table[i],
            reserved_views(result@) == jenkins_reservations(index as int),
        decreases cohorts.len() - index,
    {
        let (role, replicas) = cohorts[index];
        let ghost before = result@;
        assert((cohorts@[index as int].0@, cohorts@[index as int].1 as int) == table[index as int]);
        let mut ordinal: usize = 0;
        assert(reserved_views(result@) =~= reserved_views(before) + role_reservations(role@, 0));
        while ordinal < replicas
            invariant
                ordinal <= replicas,
                reserved_views(result@) == reserved_views(before) + role_reservations(
                    role@,
                    ordinal as int,
                ),
            decreases replicas - ordinal,
        {
            let ghost earlier = result@;
            let agent = reserve(role, ordinal);
            result.push(agent);
            proof {
                assert(reserved_views(result@) =~= reserved_views(earlier).push(
                    reserved_view(agent),
                ));
                assert(role_reservations(role@, ordinal + 1) =~= role_reservations(
                    role@,
                    ordinal as int,
                ).push(jenkins_reservation(role@, ordinal as nat)));
                assert(reserved_views(result@) =~= reserved_views(before) + role_reservations(
                    role@,
                    ordinal + 1,
                ));
            }
            ordinal = ordinal + 1;
        }
        index = index + 1;
    }
    result
}

/// Whether one of some nodes is the Jenkins node with this role and ordinal, healthy on its release.
pub open spec fn jenkins_confirmed(nodes: Seq<FleetNode>, role: Seq<char>, ordinal: nat) -> bool {
    exists|i: int|
        0 <= i < nodes.len() && is_installed_jenkins(#[trigger] nodes[i], role, ordinal)
}

/// Whether a node is the Jenkins node with this role and ordinal, healthy on its release.
pub open spec fn is_installed_jenkins(node: FleetNode, role: Seq<char>, ordinal: nat) -> bool {
    node.node@ == jenkins_node(role, ordinal) && is_text(node.selected_group, jenkins_group(role))
        && on_version(node, "1.0.0"@)
}

/// Whether every Jenkins node is confirmed.
pub open spec fn jenkins_installed(nodes: Seq<FleetNode>) -> bool {
    forall|index: int, ordinal: int|
        0 <= index < jenkins_table().len() && 0 <= ordinal < jenkins_table()[index].1
            ==> #[trigger] jenkins_confirmed(
            nodes,
            jenkins_table()[index].0,
            ordinal as nat,
        )
}

fn find_jenkins(nodes: &Vec<FleetNode>, role: &str, ordinal: usize) -> (result: bool)
    ensures
        result == jenkins_confirmed(nodes@, role@, ordinal as nat),
{
    let name = write_jenkins_node(role, ordinal);
    let group = write_jenkins_group(role);
    let mut index: usize = 0;
    while index < nodes.len()
        invariant
            index <= nodes.len(),
            name@ == jenkins_node(role@, ordinal as nat),
            group@ == jenkins_group(role@),
            forall|i: int|
                0 <= i < index ==> !is_installed_jenkins(
                    #[trigger] nodes@[i],
                    role@,
                    ordinal as nat,
                ),
        decreases nodes.len() - index,
    {
        let node = &nodes[index];
        if same(node.node.as_str(), name.as_str()) && holds_text(
            &node.selected_group,
            group.as_str(),
        ) && node_converged(node, "1.0.0") {
            assert(is_installed_jenkins(nodes@[index as int], role@, ordinal as nat));
            return true;
        }
        index = index + 1;
    }
    false
}

/// Whether every Jenkins node that is expected has confirmed, itself, that it is healthy.
pub fn assert_jenkins_installed(nodes: &Vec<FleetNode>) -> (result: bool)
    ensures
        result == jenkins_installed(nodes@),
{
    let cohorts = jenkins_cohorts();
    let ghost table = jenkins_table();
    let mut index: usize = 0;
    while index < cohorts.len()
        invariant
            index <= cohorts.len(),
            cohorts@.len() == table.len(),
            table == jenkins_table(),
            forall|i: int|
                0 <= i < cohorts@.len() ==> (cohorts@[i].0@, (#[trigger] cohorts@[i]).1 as int)
                    == table[i],
            forall|i: int, ordinal: int|
                0 <= i < index && 0 <= ordinal < table[i].1 ==> #[trigger] jenkins_confirmed(
                    nodes@,
                    table[i].0,
                    ordinal as nat,
                ),
        decreases cohorts.len() - index,
    {
        let (role, replicas) = cohorts[index];
        assert((cohorts@[index as int].0@, cohorts@[index as int].1 as int) == table[index as int]);
        let mut ordinal: usize = 0;
        while ordinal < replicas
            invariant
                ordinal <= replicas,
                index < table.len(),
                table == jenkins_table(),
                (role@, replicas as int) == table[index as int],
                forall|i: int|
                    0 <= i < ordinal ==> #[trigger] jenkins_confirmed(nodes@, role@, i as nat),
            decreases replicas - ordinal,
        {
            if !find_jenkins(nodes, role, ordinal) {
                proof {
                    let row = index as int;
                    let place = ordinal as int;
                    assert(0 <= place < jenkins_table()[row].1);
                    assert(!jenkins_confirmed(nodes@, jenkins_table()[row].0, place as nat));
                    assert(!jenkins_installed(nodes@));
                }
                return false;
            }
            ordinal = ordinal + 1;
        }
        index = index + 1;
    }
    true
}

// ----- what the labels say -----

/// A node is labelled with its name and its cohort, and loses the role of another life. A Jenkins node is
/// reserved under the name that it enrolls under, with its name, its kind and its role.
pub proof fn labels_say_what_a_node_is(ordinal: nat, cohort: Seq<char>, role: Seq<char>)
    ensures
        ({
            let patch = node_labels(ordinal, cohort);
            let served = "jenkins-"@ + role + "-"@ + decimal_digits(ordinal);
            let reserved = jenkins_reservation(role, ordinal);
            &&& patch.resource == enrolled_name(agent_name(ordinal))
            &&& patched_label(patch.changes, NODE_LABEL@) == Some(agent_name(ordinal))
            &&& patched_label(patch.changes, COHORT_LABEL@) == Some(cohort)
            &&& patched_label(patch.changes, "updated.dev/role"@) is None
            &&& patch.changes.contains(("updated.dev/role"@, None))
            &&& reserved.resource == enrolled_name(served)
            &&& reserved.labels.contains((NODE_LABEL@, served))
            &&& reserved.labels.contains((KIND_LABEL@, "jenkins"@))
            &&& reserved.labels.contains((ROLE_LABEL@, role))
            &&& jenkins_group(role) == "jenkins-"@ + role
        }),
{
    reveal_strlit("updated.dev/role");
    reveal_strlit("e2e.updated.dev/cohort");
    reveal_strlit("e2e.updated.dev/node");
    assert("updated.dev/role"@.len() == 16);
    assert(COHORT_LABEL@.len() == 22);
    assert(NODE_LABEL@.len() == 20);
    reveal_with_fuel(patched_label, 4);
    let changes = node_labels(ordinal, cohort).changes;
    assert(changes.last() == changes[2] && changes.drop_last().last() == changes[1]
        && changes.drop_last().drop_last().last() == changes[0]);
    let labels = jenkins_reservation(role, ordinal).labels;
    assert(labels[0] == (NODE_LABEL@, jenkins_node(role, ordinal)));
    assert(labels[1] == (KIND_LABEL@, "jenkins"@));
    assert(labels[2] == (ROLE_LABEL@, role));
}

/// Every node of every Jenkins role is reserved, role by role, and no other.
pub proof fn every_jenkins_node_is_reserved(count: int, ordinal: int)
    requires
        0 < count <= jenkins_table().len(),
        0 <= ordinal < jenkins_table()[count - 1].1,
    ensures
        jenkins_reservations(0).len() == 0,
        jenkins_reservations(count).len() == jenkins_reservations(count - 1).len()
            + jenkins_table()[count - 1].1,
        jenkins_reservations(count).take(jenkins_reservations(count - 1).len() as int)
            == jenkins_reservations(count - 1),
        jenkins_reservations(count)[jenkins_reservations(count - 1).len() + ordinal]
            == jenkins_reservation(jenkins_table()[count - 1].0, ordinal as nat),
{
    let earlier = jenkins_reservations(count - 1);
    assert(jenkins_reservations(count).take(earlier.len() as int) =~= earlier);
}

/// Jenkins is installed exactly where each of its nodes is there under its own name, in the group of its
/// role, healthy and on the first release.
pub proof fn jenkins_is_installed_on_every_node(nodes: Seq<FleetNode>, role: Seq<char>, ordinal: nat)
    ensures
        jenkins_confirmed(nodes, role, ordinal) <==> exists|i: int|
            0 <= i < nodes.len() && (#[trigger] nodes[i]).node@ == "jenkins-"@ + role + "-"@
                + decimal_digits(ordinal) && view_of(nodes[i].selected_group) == Some(
                "jenkins-"@ + role,
            ) && nodes[i].healthy && view_of(nodes[i].version) == Some("1.0.0"@),
        jenkins_installed(nodes) <==> forall|place: int, at: int|
            0 <= place < jenkins_table().len() && 0 <= at < jenkins_table()[place].1
                ==> #[trigger] jenkins_confirmed(nodes, jenkins_table()[place].0, at as nat),
{
    if jenkins_confirmed(nodes, role, ordinal) {
        let at = choose|i: int|
            0 <= i < nodes.len() && is_installed_jenkins(#[trigger] nodes[i], role, ordinal);
        assert(nodes[at].node@ == jenkins_node(role, ordinal));
    }
    if exists|i: int|
        0 <= i < nodes.len() && (#[trigger] nodes[i]).node@ == "jenkins-"@ + role + "-"@
            + decimal_digits(ordinal) && view_of(nodes[i].selected_group) == Some(
            "jenkins-"@ + role,
        ) && nodes[i].healthy && view_of(nodes[i].version) == Some("1.0.0"@) {
        let at = choose|i: int|
            0 <= i < nodes.len() && (#[trigger] nodes[i]).node@ == "jenkins-"@ + role + "-"@
                + decimal_digits(ordinal) && view_of(nodes[i].selected_group) == Some(
                "jenkins-"@ + role,
            ) && nodes[i].healthy && view_of(nodes[i].version) == Some("1.0.0"@);
        assert(is_installed_jenkins(nodes[at], role, ordinal));
    }
}

} // verus!
