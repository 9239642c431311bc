//! The labels of the demo's nodes, and its nodes outside the cluster.

use crate::demo::layout::{
    cohort_label, cohort_label_text, external_ordinal, magnolia_cohorts, magnolia_row,
    magnolia_table, names_are_distinct, DEMO_COHORT_SIZE, DEMO_EXTERNAL_COHORT,
    DEMO_EXTERNAL_COUNT, DEMO_EXTERNAL_VM_COHORT, DEMO_EXTERNAL_VM_GATEWAY_PORT,
    DEMO_EXTERNAL_VM_HOSTNAME, DEMO_HAPROXY_COHORT, DEMO_HAPROXY_REPLICAS, DEMO_NODE_COUNT,
};
use crate::enrollment::{
    patch_view, patch_views, patched_label, remove_label, set_label, write_member, LabelPatch,
    PatchView,
};
use crate::identity::{agent_resource_name, enrolled_name, resource_name};
use crate::naming::{agent_hostname, agent_name, numbered};
use crate::text::{
    decimal, decimal_digits, divide, divided, first_word, first_word_of, is_without, join, joined,
    lemma_divided, lemma_position, lemma_position_bounds, listed, pieces, position_of,
    split_at_char, trim, trimmed, view_of, views,
};
use vstd::prelude::*;

verus! {

/// The labels of a node of the fleet with this cohort label.
pub open spec fn fleet_labels(ordinal: nat, cohort: Seq<char>) -> PatchView {
    PatchView {
        resource: enrolled_name(agent_name(ordinal)),
        changes: seq![
            ("demo.updated.dev/node"@, Some(agent_name(ordinal))),
            ("demo.updated.dev/cohort"@, Some(cohort)),
            ("demo.updated.dev/track"@, None),
            ("updated.dev/role"@, None),
        ],
    }
}

fn fleet_patch(ordinal: usize, cohort: &str) -> (result: LabelPatch)
    ensures
        patch_view(result) == fleet_labels(ordinal as nat, cohort@),
{
    let node = agent_hostname(ordinal);
    let patch = LabelPatch {
        resource: agent_resource_name(ordinal),
        changes: vec![
            set_label("demo.updated.dev/node", node.as_str()),
            set_label("demo.updated.dev/cohort", cohort),
            remove_label("demo.updated.dev/track"),
            remove_label("updated.dev/role"),
        ],
    };
    assert(patch_view(patch) =~= fleet_labels(ordinal as nat, cohort@));
    patch
}

/// The labels of every node of the fleet, in the order of its ordinals.
pub fn label_demo_agents() -> (result: Vec<LabelPatch>)
    ensures
        patch_views(result@) == Seq::new(
            DEMO_NODE_COUNT as nat,
            |i: int|
                fleet_labels(i as nat, cohort_label_text(i as nat / DEMO_COHORT_SIZE as nat)),
        ),
{
    let mut result: Vec<LabelPatch> = Vec::new();
    let mut ordinal: usize = 0;
    while ordinal < DEMO_NODE_COUNT
        invariant
            ordinal <= DEMO_NODE_COUNT,
            result@.len() == ordinal,
            forall|i: int|
                0 <= i < ordinal ==> patch_view(#[trigger] result@[i]) == fleet_labels(
                    i as nat,
                    cohort_label_text(i as nat / DEMO_COHORT_SIZE as nat),
                ),
        decreases DEMO_NODE_COUNT - ordinal,
    {
        let cohort = cohort_label(ordinal / DEMO_COHORT_SIZE);
        result.push(fleet_patch(ordinal, cohort.as_str()));
        ordinal = ordinal + 1;
    }
    assert(patch_views(result@) =~= Seq::new(
        DEMO_NODE_COUNT as nat,
        |i: int| fleet_labels(i as nat, cohort_label_text(i as nat / DEMO_COHORT_SIZE as nat)),
    ));
    result
}

/// A cohort's selector finds exactly the nodes of the cohort.
pub proof fn cohorts_select_their_nodes(ordinal: nat, cohort: nat)
    ensures
        patched_label(
            fleet_labels(
                ordinal,
                cohort_label_text(ordinal / DEMO_COHORT_SIZE as nat),
            ).changes,
            "demo.updated.dev/cohort"@,
        ) == Some(cohort_label_text(cohort)) <==> ordinal / DEMO_COHORT_SIZE as nat == cohort,
{
    let label = cohort_label_text(ordinal / DEMO_COHORT_SIZE as nat);
    let changes = fleet_labels(ordinal, label).changes;
    reveal_strlit("updated.dev/role");
    reveal_strlit("demo.updated.dev/track");
    reveal_strlit("demo.updated.dev/cohort");
    assert("updated.dev/role"@.len() == 16);
    assert("demo.updated.dev/track"@.len() == 22);
    assert("demo.updated.dev/cohort"@.len() == 23);
    reveal_with_fuel(patched_label, 4);
    assert(changes.last().0 == "updated.dev/role"@);
    assert(changes.drop_last().last().0 == "demo.updated.dev/track"@);
    assert(changes.drop_last().drop_last().last() == ("demo.updated.dev/cohort"@, Some(label)));
    if ordinal / DEMO_COHORT_SIZE as nat != cohort {
        names_are_distinct(ordinal / DEMO_COHORT_SIZE as nat, cohort);
    }
}

/// The labels of the nodes outside the sets, in order.
pub fn label_external_agents() -> (result: Vec<LabelPatch>)
    ensures
        patch_views(result@) == Seq::new(
            DEMO_EXTERNAL_COUNT as nat,
            |i: int| fleet_labels((DEMO_NODE_COUNT + i) as nat, DEMO_EXTERNAL_COHORT@),
        ),
{
    let mut result: Vec<LabelPatch> = Vec::new();
    let mut index: usize = 0;
    while index < DEMO_EXTERNAL_COUNT
        invariant
            index <= DEMO_EXTERNAL_COUNT,
            result@.len() == index,
            forall|i: int|
                0 <= i < index ==> patch_view(#[trigger] result@[i]) == fleet_labels(
                    (DEMO_NODE_COUNT + i) as nat,
                    DEMO_EXTERNAL_COHORT@,
                ),
        decreases DEMO_EXTERNAL_COUNT - index,
    {
        result.push(fleet_patch(external_ordinal(index), DEMO_EXTERNAL_COHORT));
        index = index + 1;
    }
    assert(patch_views(result@) =~= Seq::new(
        DEMO_EXTERNAL_COUNT as nat,
        |i: int| fleet_labels((DEMO_NODE_COUNT + i) as nat, DEMO_EXTERNAL_COHORT@),
    ));
    result
}

/// The name of a Magnolia node.
pub open spec fn magnolia_node(role: Seq<char>, ordinal: nat) -> Seq<char> {
    "magnolia-"@ + role + "-"@ + decimal_digits(ordinal)
}

/// The labels of a Magnolia node.
pub open spec fn magnolia_labels(role: Seq<char>, ordinal: nat) -> PatchView {
    PatchView {
        resource: enrolled_name(magnolia_node(role, ordinal)),
        changes: seq![
            ("demo.updated.dev/node"@, Some(magnolia_node(role, ordinal))),
            ("demo.updated.dev/kind"@, Some("magnolia"@)),
            ("demo.updated.dev/role"@, Some(role)),
        ],
    }
}

/// The labels of the nodes of the first `count` Magnolia cohorts.
pub open spec fn magnolia_patches(count: int) -> Seq<PatchView>
    decreases count,
{
    if count <= 0 {
        Seq::empty()
    } else {
        let (role, _, _, replicas) = magnolia_table()[count - 1];
        magnolia_patches(count - 1) + Seq::new(
            replicas as nat,
            |i: int| magnolia_labels(role, i as nat),
        )
    }
}

/// The labels of every Magnolia node.
pub fn label_magnolia_agents() -> (result: Vec<LabelPatch>)
    ensures
        patch_views(result@) == magnolia_patches(magnolia_table().len() as int),
{
    let cohorts = magnolia_cohorts();
    let mut result: Vec<LabelPatch> = Vec::new();
    let mut index: usize = 0;
    assert(patch_views(result@) =~= magnolia_patches(0));
    while index < cohorts.len()
        invariant
            index <= cohorts.len(),
            cohorts@.len() == magnolia_table().len(),
            forall|i: int|
                0 <= i < cohorts@.len() ==> magnolia_row(#[trigger] cohorts@[i])
                    == magnolia_table()[i],
            patch_views(result@) == magnolia_patches(index as int),
        decreases cohorts.len() - index,
    {
        let cohort = &cohorts[index];
        let ghost row = magnolia_table()[index as int];
        assert(magnolia_row(cohorts@[index as int]) == row);
        let ghost before = patch_views(result@);
        let ghost added = Seq::new(row.3 as nat, |i: int| magnolia_labels(row.0, i as nat));
        let mut ordinal: usize = 0;
        assert(patch_views(result@) =~= before + added.take(0));
        while ordinal < cohort.replicas
            invariant
                ordinal <= cohort.replicas,
                magnolia_row(*cohort) == row,
                added == Seq::new(row.3 as nat, |i: int| magnolia_labels(row.0, i as nat)),
                patch_views(result@) == before + added.take(ordinal as int),
            decreases cohort.replicas - ordinal,
        {
            let ghost earlier = result@;
            let mut node = String::from_str("magnolia-");
            node.append(cohort.role);
            node.append("-");
            node.append(decimal(ordinal as u64).as_str());
            let patch = LabelPatch {
                resource: resource_name(node.as_str()),
                changes: vec![
                    set_label("demo.updated.dev/node", node.as_str()),
                    set_label("demo.updated.dev/kind", "magnolia"),
                    set_label("demo.updated.dev/role", cohort.role),
                ],
            };
            assert(patch_view(patch) =~= magnolia_labels(row.0, ordinal as nat));
            result.push(patch);
            assert(patch_views(result@) =~= patch_views(earlier).push(patch_view(patch)));
            assert(before + added.take(ordinal + 1) =~= (before + added.take(ordinal as int)).push(
                added[ordinal as int],
            ));
            ordinal = ordinal + 1;
        }
        assert(added.take(cohort.replicas as int) =~= added);
        index = index + 1;
    }
    result
}

/// The labels of a HAProxy node.
pub open spec fn haproxy_labels(ordinal: nat) -> PatchView {
    let node = "haproxy-"@ + decimal_digits(ordinal);
    PatchView {
        resource: enrolled_name(node),
        changes: seq![
            ("demo.updated.dev/node"@, Some(node)),
            ("demo.updated.dev/cohort"@, Some(DEMO_HAPROXY_COHORT@)),
            ("demo.updated.dev/kind"@, Some("haproxy"@)),
        ],
    }
}

/// The labels of every HAProxy node.
pub fn label_haproxy_agents() -> (result: Vec<LabelPatch>)
    ensures
        patch_views(result@) == Seq::new(
            DEMO_HAPROXY_REPLICAS as nat,
            |i: int| haproxy_labels(i as nat),
        ),
{
    let mut result: Vec<LabelPatch> = Vec::new();
    let mut ordinal: usize = 0;
    while ordinal < DEMO_HAPROXY_REPLICAS
        invariant
            ordinal <= DEMO_HAPROXY_REPLICAS,
            result@.len() == ordinal,
            forall|i: int|
                0 <= i < ordinal ==> patch_view(#[trigger] result@[i]) == haproxy_labels(i as nat),
        decreases DEMO_HAPROXY_REPLICAS - ordinal,
    {
        let node = numbered("haproxy-", ordinal);
        let patch = LabelPatch {
            resource: resource_name(node.as_str()),
            changes: vec![
                set_label("demo.updated.dev/node", node.as_str()),
                set_label("demo.updated.dev/cohort", DEMO_HAPROXY_COHORT),
                set_label("demo.updated.dev/kind", "haproxy"),
            ],
        };
        assert(patch_view(patch) =~= haproxy_labels(ordinal as nat));
        result.push(patch);
        ordinal = ordinal + 1;
    }
    assert(patch_views(result@) =~= Seq::new(
        DEMO_HAPROXY_REPLICAS as nat,
        |i: int| haproxy_labels(i as nat),
    ));
    result
}

/// The labels of the machine outside the cluster.
pub fn label_external_vm_agent() -> (result: LabelPatch)
    ensures
        patch_view(result) == (PatchView {
            resource: enrolled_name(DEMO_EXTERNAL_VM_HOSTNAME@),
            changes: seq![
                ("demo.updated.dev/node"@, Some(DEMO_EXTERNAL_VM_HOSTNAME@)),
                ("demo.updated.dev/cohort"@, Some(DEMO_EXTERNAL_VM_COHORT@)),
                ("demo.updated.dev/kind"@, Some("magnolia"@)),
            ],
        }),
{
    let patch = LabelPatch {
        resource: resource_name(DEMO_EXTERNAL_VM_HOSTNAME),
        changes: vec![
            set_label("demo.updated.dev/node", DEMO_EXTERNAL_VM_HOSTNAME),
            set_label("demo.updated.dev/cohort", DEMO_EXTERNAL_VM_COHORT),
            set_label("demo.updated.dev/kind", "magnolia"),
        ],
    };
    assert(patch_view(patch).changes =~= seq![
        ("demo.updated.dev/node"@, Some(DEMO_EXTERNAL_VM_HOSTNAME@)),
        ("demo.updated.dev/cohort"@, Some(DEMO_EXTERNAL_VM_COHORT@)),
        ("demo.updated.dev/kind"@, Some("magnolia"@)),
    ]);
    patch
}

// ----- the machine outside the cluster -----

/// The address of a machine that is reached as this target: what follows the last at-sign.
pub open spec fn target_address(target: Seq<char>) -> Seq<char> {
    pieces(target, '@').last()
}

/// The address of a machine that is reached as this target.
pub fn vm_address(target: &str) -> (result: String)
    ensures
        result@ == target_address(target@),
{
    let parts = split_at_char(target, '@');
    proof {
        assert(pieces(target@, '@').len() > 0);
        assert(views(parts@).len() == parts@.len());
        assert(views(parts@).last() == parts@.last()@);
    }
    parts[parts.len() - 1].clone()
}

/// The inventory of one machine, reached as this target: as root, where it names no user.
pub open spec fn inventory_text(target: Seq<char>) -> Seq<char> {
    let (user, host) = match divided(target, '@') {
        Some((user, host)) => (user, host),
        None => ("root"@, target),
    };
    "[updated_agents]\n"@ + host + " ansible_user="@ + user + "\n"@
}

/// The inventory of one machine, reached as this target.
pub fn vm_inventory(target: &str) -> (result: String)
    ensures
        result@ == inventory_text(target@),
{
    let (user, host) = match divide(target, '@') {
        Some((user, host)) => (user, host),
        None => ("root".to_owned(), target.to_owned()),
    };
    let mut text = String::from_str("[updated_agents]\n");
    text.append(host.as_str());
    text.append(" ansible_user=");
    text.append(user.as_str());
    text.append("\n");
    text
}

/// The address of this host for the machine to reach: what is configured, or else what the first
/// or the second way of asking says. An empty answer is none.
pub open spec fn host_address(
    configured: Option<Seq<char>>,
    first: Option<Seq<char>>,
    second: Option<Seq<char>>,
) -> Option<Seq<char>> {
    if configured is Some && configured->Some_0.len() > 0 {
        configured
    } else if first is Some && trimmed(first->Some_0).len() > 0 {
        Some(trimmed(first->Some_0))
    } else if second is Some {
        first_word_of(second->Some_0)
    } else {
        None
    }
}

/// The address of this host for the machine to reach.
pub fn host_ip(configured: &Option<String>, first: &Option<String>, second: &Option<String>) -> (result:
    Result<String, String>)
    ensures
        match result {
            Ok(address) => host_address(
                view_of(*configured),
                view_of(*first),
                view_of(*second),
            ) == Some(address@),
            Err(message) => {
                &&& host_address(view_of(*configured), view_of(*first), view_of(*second)) is None
                &&& message@
                    == "could not determine the host LAN IP (set DEMO_HOST_IP) to expose the gateway"@
            },
        },
{
    match configured {
        Some(address) => {
            if address.as_str().unicode_len() > 0 {
                return Ok(address.clone());
            }
        },
        None => {},
    }
    match first {
        Some(answer) => {
            let address = trim(answer.as_str());
            if address.unicode_len() > 0 {
                return Ok(address.to_owned());
            }
        },
        None => {},
    }
    match second {
        Some(answer) => {
            match first_word(answer.as_str()) {
                Some(address) => {
                    return Ok(address);
                },
                None => {},
            }
        },
        None => {},
    }
    Err(
        "could not determine the host LAN IP (set DEMO_HOST_IP) to expose the gateway".to_owned(),
    )
}

/// The arguments that expose the gateway to the machine.
pub fn gateway_forward_args() -> (result: Vec<String>)
    ensures
        views(result@) == seq![
            "-n"@,
            crate::commands::NAMESPACE@,
            "port-forward"@,
            "--address"@,
            "0.0.0.0"@,
            "service/updatec-gateway"@,
            decimal_digits(DEMO_EXTERNAL_VM_GATEWAY_PORT as nat) + ":80"@,
        ],
{
    let mut ports = decimal(DEMO_EXTERNAL_VM_GATEWAY_PORT as u64);
    ports.append(":80");
    listed(
        vec![
            "-n",
            crate::commands::NAMESPACE,
            "port-forward",
            "--address",
            "0.0.0.0",
            "service/updatec-gateway",
            ports.as_str(),
        ],
    )
}

/// The arguments that install the agent on the machine.
pub open spec fn playbook_text(
    inventory: Seq<char>,
    workspace: Seq<char>,
    variables: Seq<char>,
    host_ip: Seq<char>,
) -> Seq<Seq<char>> {
    seq![
        "-i"@,
        inventory,
        crate::soak::config::joined_path(workspace, "deploy/ansible/install-agent.yml"@),
        "-e"@,
        "updatedc_source="@ + workspace,
        "-e"@,
        "updated_enrollment_url=https://updatec-gateway"@,
        "-e"@,
        "@"@ + variables,
        "-e"@,
        "updated_hostname="@ + enrolled_name(DEMO_EXTERNAL_VM_HOSTNAME@),
        "-e"@,
        "updated_demo_shim_host="@ + host_ip,
        "-e"@,
        "updated_demo_shim_port="@ + decimal_digits(DEMO_EXTERNAL_VM_GATEWAY_PORT as nat),
    ]
}

fn assignment(name: &str, value: &str) -> (result: String)
    ensures
        result@ == name@ + value@,
{
    let mut text = String::from_str(name);
    text.append(value);
    text
}

/// The arguments that install the agent on the machine.
pub fn provision_external_vm(
    inventory: &str,
    workspace: &str,
    variables: &str,
    host_ip: &str,
) -> (result: Vec<String>)
    ensures
        views(result@) == playbook_text(inventory@, workspace@, variables@, host_ip@),
{
    let playbook = crate::soak::config::join_path(workspace, "deploy/ansible/install-agent.yml");
    let source = assignment("updatedc_source=", workspace);
    let file = assignment("@", variables);
    let hostname = assignment(
        "updated_hostname=",
        resource_name(DEMO_EXTERNAL_VM_HOSTNAME).as_str(),
    );
    let shim_host = assignment("updated_demo_shim_host=", host_ip);
    let shim_port = assignment(
        "updated_demo_shim_port=",
        decimal(DEMO_EXTERNAL_VM_GATEWAY_PORT as u64).as_str(),
    );
    listed(
        vec![
            "-i",
            inventory,
            playbook.as_str(),
            "-e",
            source.as_str(),
            "-e",
            "updated_enrollment_url=https://updatec-gateway",
            "-e",
            file.as_str(),
            "-e",
            hostname.as_str(),
            "-e",
            shim_host.as_str(),
            "-e",
            shim_port.as_str(),
        ],
    )
}

// ----- the inventory of the nodes outside the cluster -----

/// An external node's address and public key.
pub struct ExternalNode {
    pub address: String,
    pub key: String,
}

/// The inventory entries of the first external nodes.
pub open spec fn external_members(nodes: Seq<ExternalNode>) -> Seq<Seq<char>> {
    Seq::new(
        nodes.len(),
        |i: int|
            crate::enrollment::member_text(
                enrolled_name(agent_name((DEMO_NODE_COUNT + i) as nat)),
                nodes[i].address@,
                nodes[i].key@,
            ),
    )
}

/// The inventory of the nodes outside the cluster: the external agents in order, and the machine
/// where there is one.
pub open spec fn inventory_members(
    nodes: Seq<ExternalNode>,
    machine: Option<ExternalNode>,
) -> Seq<Seq<char>> {
    match machine {
        Some(node) => external_members(nodes).push(
            crate::enrollment::member_text(
                enrolled_name(DEMO_EXTERNAL_VM_HOSTNAME@),
                node.address@,
                node.key@,
            ),
        ),
        None => external_members(nodes),
    }
}

/// The inventory of the nodes outside the cluster.
pub fn reconciler_members(nodes: &Vec<ExternalNode>, machine: &Option<ExternalNode>) -> (result:
    String)
    requires
        nodes@.len() <= DEMO_EXTERNAL_COUNT,
    ensures
        result@ == joined(inventory_members(nodes@, *machine), ","@),
{
    let ghost all = external_members(nodes@);
    let mut members: Vec<String> = Vec::new();
    let mut index: usize = 0;
    assert(views(members@) =~= all.take(0));
    while index < nodes.len()
        invariant
            index <= nodes.len(),
            nodes@.len() <= DEMO_EXTERNAL_COUNT,
            all == external_members(nodes@),
            views(members@) == all.take(index as int),
        decreases nodes.len() - index,
    {
        let ghost before = members@;
        let resource = agent_resource_name(external_ordinal(index));
        let text = write_member(
            resource.as_str(),
            nodes[index].address.as_str(),
            nodes[index].key.as_str(),
        );
        members.push(text);
        assert(views(members@) =~= views(before).push(text@));
        assert(all.take(index + 1) =~= all.take(index as int).push(all[index as int]));
        index = index + 1;
    }
    assert(all.take(nodes.len() as int) =~= all);
    match machine {
        Some(node) => {
            let ghost before = members@;
            let resource = resource_name(DEMO_EXTERNAL_VM_HOSTNAME);
            let text = write_member(resource.as_str(), node.address.as_str(), node.key.as_str());
            members.push(text);
            assert(views(members@) =~= views(before).push(text@));
        },
        None => {},
    }
    join(&members, ",")
}

/// The message about a node without a public key.
pub fn unpinned_message(resource: &str) -> (result: String)
    ensures
        result@ == "UpdateAgent "@ + resource@
            + " never published a pinned public key to verify its health reports against"@,
{
    let mut message = String::from_str("UpdateAgent ");
    message.append(resource);
    message.append(" never published a pinned public key to verify its health reports against");
    message
}

// ----- what the labels say -----

/// A node of the fleet is labelled with its name and its cohort, and loses the labels of another life. A
/// Magnolia node is labelled with its name, its kind and its role; a load balancer with its name, its
/// cohort and its kind.
pub proof fn labels_say_what_a_node_is(ordinal: nat, cohort: Seq<char>, role: Seq<char>)
    ensures
        ({
            let fleet = fleet_labels(ordinal, cohort);
            let magnolia = magnolia_labels(role, ordinal);
            let haproxy = haproxy_labels(ordinal);
            let balancer = "haproxy-"@ + decimal_digits(ordinal);
            let served = "magnolia-"@ + role + "-"@ + decimal_digits(ordinal);
            &&& fleet.resource == enrolled_name(agent_name(ordinal))
            &&& patched_label(fleet.changes, "demo.updated.dev/node"@) == Some(agent_name(ordinal))
            &&& patched_label(fleet.changes, "demo.updated.dev/cohort"@) == Some(cohort)
            &&& patched_label(fleet.changes, "demo.updated.dev/track"@) is None
            &&& patched_label(fleet.changes, "updated.dev/role"@) is None
            &&& fleet.changes.contains(("demo.updated.dev/track"@, None))
            &&& fleet.changes.contains(("updated.dev/role"@, None))
            &&& magnolia.resource == enrolled_name(served)
            &&& patched_label(magnolia.changes, "demo.updated.dev/node"@) == Some(served)
            &&& patched_label(magnolia.changes, "demo.updated.dev/kind"@) == Some("magnolia"@)
            &&& patched_label(magnolia.changes, "demo.updated.dev/role"@) == Some(role)
            &&& haproxy.resource == enrolled_name(balancer)
            &&& patched_label(haproxy.changes, "demo.updated.dev/node"@) == Some(balancer)
            &&& patched_label(haproxy.changes, "demo.updated.dev/cohort"@) == Some(
                DEMO_HAPROXY_COHORT@,
            )
            &&& patched_label(haproxy.changes, "demo.updated.dev/kind"@) == Some("haproxy"@)
        }),
{
    reveal_strlit("demo.updated.dev/node");
    reveal_strlit("demo.updated.dev/cohort");
    reveal_strlit("demo.updated.dev/track");
    reveal_strlit("updated.dev/role");
    reveal_strlit("demo.updated.dev/kind");
    reveal_strlit("demo.updated.dev/role");
    assert("demo.updated.dev/node"@.len() == 21 && "demo.updated.dev/cohort"@.len() == 23);
    assert("demo.updated.dev/track"@.len() == 22 && "updated.dev/role"@.len() == 16);
    assert("demo.updated.dev/kind"@.len() == 21 && "demo.updated.dev/role"@.len() == 21);
    assert("demo.updated.dev/node"@[17] == 'n' && "demo.updated.dev/kind"@[17] == 'k'
        && "demo.updated.dev/role"@[17] == 'r');
    reveal_with_fuel(patched_label, 5);
    let fleet = fleet_labels(ordinal, cohort).changes;
    assert(fleet.last() == fleet[3] && fleet.drop_last().last() == fleet[2]
        && fleet.drop_last().drop_last().last() == fleet[1]
        && fleet.drop_last().drop_last().drop_last().last() == fleet[0]);
    let magnolia = magnolia_labels(role, ordinal).changes;
    assert(magnolia.last() == magnolia[2] && magnolia.drop_last().last() == magnolia[1]
        && magnolia.drop_last().drop_last().last() == magnolia[0]);
    let haproxy = haproxy_labels(ordinal).changes;
    assert(haproxy.last() == haproxy[2] && haproxy.drop_last().last() == haproxy[1]
        && haproxy.drop_last().drop_last().last() == haproxy[0]);
}

/// Every node of a Magnolia cohort is labelled, cohort by cohort.
pub proof fn every_magnolia_node_is_labelled(count: int, ordinal: int)
    requires
        0 < count <= magnolia_table().len(),
        0 <= ordinal < magnolia_table()[count - 1].3,
    ensures
        magnolia_patches(0).len() == 0,
        magnolia_patches(count).len() == magnolia_patches(count - 1).len() + magnolia_table()[count
            - 1].3,
        magnolia_patches(count).take(magnolia_patches(count - 1).len() as int) == magnolia_patches(
            count - 1,
        ),
        magnolia_patches(count)[magnolia_patches(count - 1).len() + ordinal] == magnolia_labels(
            magnolia_table()[count - 1].0,
            ordinal as nat,
        ),
{
    let earlier = magnolia_patches(count - 1);
    assert(magnolia_patches(count).take(earlier.len() as int) =~= earlier);
}

proof fn lemma_last_piece(text: Seq<char>, c: char, last: Seq<char>)
    requires
        is_without(last, c),
    ensures
        pieces(text + seq![c] + last, c).len() > 0,
        pieces(text + seq![c] + last, c).last() == last,
    decreases text.len(),
{
    let whole = text + seq![c] + last;
    lemma_position_bounds(text, c);
    let at = position_of(text, c);
    if at == text.len() {
        lemma_divided(text, c, last);
        lemma_divided(last, c, Seq::empty());
    } else {
        let rest = text.skip(at + 1);
        lemma_last_piece(rest, c, last);
        lemma_divided(text.take(at), c, rest + seq![c] + last);
        assert(whole =~= text.take(at) + seq![c] + (rest + seq![c] + last));
    }
}

/// A machine is reached at what follows the last at-sign of its target, by the user before the first, and
/// as root where no user is named.
pub proof fn machines_are_reached_as_their_target_says(user: Seq<char>, host: Seq<char>, any: Seq<char>)
    requires
        is_without(user, '@'),
        is_without(host, '@'),
    ensures
        target_address(any + seq!['@'] + host) == host,
        target_address(host) == host,
        inventory_text(user + seq!['@'] + any) == "[updated_agents]\n"@ + any + " ansible_user="@
            + user + "\n"@,
        inventory_text(host) == "[updated_agents]\n"@ + host + " ansible_user="@ + "root"@ + "\n"@,
{
    lemma_last_piece(any, '@', host);
    lemma_divided(host, '@', any);
    lemma_divided(user, '@', any);
    lemma_position(host, '@', host.len() as int);
}

/// The host is reached at what is configured, unless that is empty; or else at what the first way of
/// asking says, unless that is blank; or else at the first word of what the second says.
pub proof fn the_first_answer_counts(
    configured: Seq<char>,
    first: Seq<char>,
    second: Option<Seq<char>>,
)
    ensures
        configured.len() > 0 ==> host_address(Some(configured), Some(first), second) == Some(
            configured,
        ),
        trimmed(first).len() > 0 ==> host_address(None, Some(first), second) == Some(
            trimmed(first),
        ) && host_address(Some(Seq::empty()), Some(first), second) == Some(trimmed(first)),
        host_address(None, None, second) == (match second {
            Some(text) => first_word_of(text),
            None => None,
        }),
        trimmed(first).len() == 0 ==> host_address(None, Some(first), second) == host_address(
            None,
            None,
            second,
        ),
        host_address(Some(Seq::empty()), None, second) == host_address(None, None, second),
{
}

/// The inventory lists the external nodes in order, each under the name that it enrolled under, and the
/// machine last, where there is one.
pub proof fn the_inventory_lists_every_node(
    nodes: Seq<ExternalNode>,
    machine: ExternalNode,
    place: int,
)
    requires
        0 <= place < nodes.len(),
    ensures
        inventory_members(nodes, None).len() == nodes.len(),
        inventory_members(nodes, Some(machine)).len() == nodes.len() + 1,
        inventory_members(nodes, None)[place] == enrolled_name(
            agent_name((DEMO_NODE_COUNT + place) as nat),
        ) + "="@ + nodes[place].address@ + "="@ + nodes[place].key@,
        inventory_members(nodes, Some(machine))[place] == inventory_members(nodes, None)[place],
        inventory_members(nodes, Some(machine)).last() == enrolled_name(DEMO_EXTERNAL_VM_HOSTNAME@)
            + "="@ + machine.address@ + "="@ + machine.key@,
{
}

} // verus!
