//! The layout of the end-to-end fleet: sets, cohorts, tiers and the names they carry.

use crate::naming::{agent_name, agent_ordinal, ordinal_of, padded_name, spread_width, wave_width};
use crate::text::{decimal, decimal_digits, two_digits};
use vstd::prelude::*;

verus! {

/// The namespace every resource of the exercise lives in.
pub const NAMESPACE: &'static str = "updated-system";

pub const SET_COUNT: usize = 8;

/// Cohort groups per set. A set rolls all but one of them at a time.
pub const GROUPS_PER_SET: usize = 2;

/// Managed agents per cohort group.
pub const COHORT_SIZE: usize = 2;

/// Groups that roll at once across the fleet.
pub const FLEET_CONCURRENCY: u32 = 4;

/// How long a rollout of the whole fleet may take, in seconds.
pub const FLEET_ROLLOUT_TIMEOUT_SECS: usize = 900;

/// The seed of every chaos choice.
pub const CHAOS_SEED: u64 = 20260719;

/// The multiplier that spreads the choices of each wave.
pub const CHAOS_SEED_SPREAD: u64 = 0x9E37_79B9_7F4A_7C15;

pub const COHORT_COUNT: usize = 16;

pub const NODE_COUNT: usize = 32;

/// Agents that stand in for nodes outside the cluster. Their ordinals follow the fleet's.
pub const EXTERNAL_COUNT: usize = 2;

pub const EXTERNAL_COHORT: &'static str = "external";

pub const EXTERNAL_SERVICE: &'static str = "external";

pub const TOTAL_AGENTS: usize = 34;

pub const HAPROXY_REPLICAS: usize = 2;

pub const HAPROXY_COHORT: &'static str = "haproxy";

pub const HAPROXY_GROUP: &'static str = "haproxy";

pub const HAPROXY_BACKEND: &'static str = "fleet";

pub const HAPROXY_ADMIN_PORT: u16 = 9999;

pub const HAPROXY_FRONT_SERVICE: &'static str = "haproxy-front";

pub const HAPROXY_V1: &'static str = "1.0.0";

pub const HAPROXY_V2: &'static str = "2.0.0";

pub const HAPROXY_NEXT_PATH_ANNOTATION: &'static str = "e2e.updated.dev/next-path";

pub const HAPROXY_NEXT_SHA_ANNOTATION: &'static str = "e2e.updated.dev/next-sha256";

/// The HAProxy pods and the one health proxy that programs them.
pub const HAPROXY_TOTAL: usize = 3;

pub const JENKINS_TOTAL: usize = 4;

pub const REQUIRED_POD_CAPACITY: usize = 81;

/// Serving pods that a set keeps while one of its groups rolls.
pub const UPTIME_MARGIN: usize = 2;

/// The version the fleet is seeded on.
pub const BASELINE_VERSION: &'static str = "22.0.0";

/// Label that says which set a cohort group belongs to.
pub const SET_LABEL: &'static str = "e2e.updated.dev/set";

/// The set that paces the whole fleet.
pub const FLEET_SET: &'static str = "fleet-all";

pub const FLEET_LABEL: &'static str = "e2e.updated.dev/fleet";

pub const FLEET_VALUE: &'static str = "managed";

/// Label that carries a node's name.
pub const NODE_LABEL: &'static str = "e2e.updated.dev/node";

/// Label that carries a node's cohort.
pub const COHORT_LABEL: &'static str = "e2e.updated.dev/cohort";

/// Label of a node that runs something other than the sample application.
pub const KIND_LABEL: &'static str = "e2e.updated.dev/kind";

/// Label that carries a Jenkins node's role.
pub const ROLE_LABEL: &'static str = "e2e.updated.dev/role";

/// How long a wedged rollout is watched before it counts as held, in seconds.
pub const STALENESS_HOLD_SECS: usize = 30;

/// The service that receives alerts.
pub const ALERT_SINK: &'static str = "alert-sink";

pub const ALERT_PORT: u16 = 8080;

/// Where the alert receiver records deliveries.
pub const ALERT_RECORD: &'static str = "/tmp/alerts.jsonl";

/// Where the fleet's health index is read.
pub const HEALTH_CDN: &'static str = "http://minio:9000/updates/routing/updated-system/default";

pub const REPOSITORY_NAME: &'static str = "default";

pub const RELEASE_ENDPOINT: &'static str = "http://minio:9000";

pub const RELEASE_PUBLIC_ENDPOINT: &'static str = "https://minio-direct.updated-system.svc";

pub const RELEASE_BUCKET: &'static str = "updates";

pub const RELEASE_PREFIX: &'static str = "releases";

pub const RELEASE_REGION: &'static str = "us-east-1";

/// The sizes of the layout follow from one another, and the margin keeps every set serving.
pub proof fn the_layout_adds_up()
    ensures
        COHORT_COUNT == SET_COUNT * GROUPS_PER_SET,
        NODE_COUNT == COHORT_COUNT * COHORT_SIZE,
        TOTAL_AGENTS == NODE_COUNT + EXTERNAL_COUNT,
        HAPROXY_TOTAL == HAPROXY_REPLICAS + 1,
        JENKINS_TOTAL == jenkins_replicas(jenkins_table()),
        REQUIRED_POD_CAPACITY == TOTAL_AGENTS + JENKINS_TOTAL + HAPROXY_TOTAL + 40,
        UPTIME_MARGIN == (GROUPS_PER_SET - 1) * COHORT_SIZE,
        UPTIME_MARGIN >= 1,
{
    reveal_with_fuel(jenkins_replicas, 3);
    let table = jenkins_table();
    assert(table.drop_last().drop_last().len() == 0);
}

/// Ordinal of an external agent, right after the fleet's.
pub fn external_ordinal(index: usize) -> (result: usize)
    requires
        NODE_COUNT + index <= usize::MAX,
    ensures
        result == NODE_COUNT + index,
{
    NODE_COUNT + index
}

/// The Jenkins cohorts: role and replicas.
pub open spec fn jenkins_table() -> Seq<(Seq<char>, int)> {
    seq![("ci"@, 2int), ("release"@, 2int)]
}

/// The replicas of a table of cohorts.
pub open spec fn jenkins_replicas(table: Seq<(Seq<char>, int)>) -> int
    decreases table.len(),
{
    if table.len() == 0 {
        0
    } else {
        jenkins_replicas(table.drop_last()) + table.last().1
    }
}

/// The Jenkins cohorts: role and replicas.
pub fn jenkins_cohorts() -> (result: Vec<(&'static str, usize)>)
    ensures
        result@.len() == jenkins_table().len(),
        forall|i: int|
            0 <= i < result@.len() ==> (result@[i].0@, (#[trigger] result@[i]).1 as int)
                == jenkins_table()[i],
{
    let mut result: Vec<(&'static str, usize)> = Vec::new();
    result.push(("ci", 2));
    result.push(("release", 2));
    result
}

/// The Jenkins pods of every cohort.
pub fn jenkins_total() -> (result: usize)
    ensures
        result == jenkins_replicas(jenkins_table()),
{
    let cohorts = jenkins_cohorts();
    let ghost table = jenkins_table();
    let mut total: usize = 0;
    let mut index: usize = 0;
    while index < cohorts.len()
        invariant
            index <= cohorts.len(),
            cohorts@.len() == 2,
            table == jenkins_table(),
            forall|i: int|
                0 <= i < cohorts@.len() ==> (cohorts@[i].0@, (#[trigger] cohorts@[i]).1 as int)
                    == table[i],
            total == jenkins_replicas(table.take(index as int)),
            total <= 2 * index,
        decreases cohorts.len() - index,
    {
        assert(table.take(index + 1).drop_last() == table.take(index as int));
        assert(cohorts@[index as int].1 as int == table[index as int].1);
        total = total + cohorts[index].1;
        index = index + 1;
    }
    assert(table.take(2) == table);
    total
}

/// The identity of a group's deployment of a version.
pub fn versioned_deployment_name(group: &str, version: &str) -> (result: String)
    ensures
        result@ == group@ + "-"@ + version@,
{
    let mut result = String::from_str(group);
    result.append("-");
    result.append(version);
    result
}

pub open spec fn cohort_label_text(index: nat) -> Seq<char> {
    "cohort-"@ + two_digits(index)
}

pub fn cohort_label(index: usize) -> (result: String)
    ensures
        result@ == cohort_label_text(index as nat),
{
    padded_name("cohort-", index)
}

pub open spec fn cohort_group_text(index: nat) -> Seq<char> {
    "fleet-"@ + cohort_label_text(index)
}

pub fn cohort_group(index: usize) -> (result: String)
    ensures
        result@ == cohort_group_text(index as nat),
{
    let mut result = String::from_str("fleet-");
    result.append(cohort_label(index).as_str());
    result
}

/// The set of a cohort: sets are contiguous runs of cohorts.
pub fn cohort_set_index(index: usize) -> (result: usize)
    ensures
        result == index / GROUPS_PER_SET,
{
    index / GROUPS_PER_SET
}

/// The set of a fleet node, if its name is one and its ordinal lies in the fleet.
pub open spec fn node_set(node: Seq<char>) -> Option<nat> {
    match ordinal_of(node) {
        None => None,
        Some(ordinal) => {
            let set = ordinal / COHORT_SIZE as nat / GROUPS_PER_SET as nat;
            if set < SET_COUNT {
                Some(set)
            } else {
                None
            }
        },
    }
}

/// The set of a fleet node, if its name is one and its ordinal lies in the fleet.
pub fn node_set_index(node: &str) -> (result: Option<usize>)
    ensures
        match result {
            Some(set) => node_set(node@) == Some(set as nat),
            None => node_set(node@) is None,
        },
{
    match agent_ordinal(node) {
        None => None,
        Some(ordinal) => {
            let set: usize = cohort_set_index(ordinal / COHORT_SIZE);
            if set < SET_COUNT {
                Some(set)
            } else {
                None
            }
        },
    }
}

/// Every fleet node belongs to the set of its cohort, and the agents that follow the fleet
/// belong to none.
pub proof fn nodes_belong_to_their_cohorts_set(ordinal: nat)
    requires
        ordinal <= usize::MAX,
    ensures
        ordinal < NODE_COUNT ==> node_set(agent_name(ordinal)) == Some(
            ordinal / COHORT_SIZE as nat / GROUPS_PER_SET as nat,
        ),
        ordinal >= NODE_COUNT ==> node_set(agent_name(ordinal)) is None,
{
    crate::naming::agent_names_round_trip(ordinal);
}

pub open spec fn set_name_text(set: nat) -> Seq<char> {
    "fleet-set-"@ + two_digits(set)
}

/// The name of a set, which its groups carry as a label.
pub fn set_name(set: usize) -> (result: String)
    ensures
        result@ == set_name_text(set as nat),
{
    padded_name("fleet-set-", set)
}

pub open spec fn set_service_text(set: nat) -> Seq<char> {
    "fleet-lb-set-"@ + two_digits(set)
}

/// The name of the service in front of a set's pods.
pub fn set_service_name(set: usize) -> (result: String)
    ensures
        result@ == set_service_text(set as nat),
{
    padded_name("fleet-lb-set-", set)
}

/// Distinct sets and cohorts have distinct names.
pub proof fn names_are_distinct(left: nat, right: nat)
    requires
        left != right,
    ensures
        set_name_text(left) != set_name_text(right),
        set_service_text(left) != set_service_text(right),
        cohort_label_text(left) != cohort_label_text(right),
        cohort_group_text(left) != cohort_group_text(right),
{
    if set_name_text(left) == set_name_text(right) {
        crate::naming::padded_names_are_injective("fleet-set-"@, left, right);
    }
    if set_service_text(left) == set_service_text(right) {
        crate::naming::padded_names_are_injective("fleet-lb-set-"@, left, right);
    }
    if cohort_label_text(left) == cohort_label_text(right) {
        crate::naming::padded_names_are_injective("cohort-"@, left, right);
    }
    if cohort_group_text(left) == cohort_group_text(right) {
        assert(cohort_group_text(left) =~= ("fleet-"@ + "cohort-"@) + two_digits(left));
        assert(cohort_group_text(right) =~= ("fleet-"@ + "cohort-"@) + two_digits(right));
        crate::naming::padded_names_are_injective("fleet-"@ + "cohort-"@, left, right);
    }
}

/// Where the controller delivers alerts.
pub fn alert_url() -> (result: String)
    ensures
        result@ == "http://"@ + ALERT_SINK@ + ":"@ + decimal_digits(ALERT_PORT as nat) + "/alerts"@,
{
    let mut result = String::from_str("http://");
    result.append(ALERT_SINK);
    result.append(":");
    result.append(decimal(ALERT_PORT as u64).as_str());
    result.append("/alerts");
    result
}

/// The flags that address the release repository.
pub open spec fn repository_flags_text() -> Seq<char> {
    "--bucket "@ + RELEASE_BUCKET@ + " --prefix "@ + RELEASE_PREFIX@ + " --endpoint "@
        + RELEASE_ENDPOINT@ + " --region "@ + RELEASE_REGION@
}

/// The flags that address the release repository.
pub fn release_repository_flags() -> (result: String)
    ensures
        result@ == repository_flags_text(),
{
    let mut result = String::from_str("--bucket ");
    result.append(RELEASE_BUCKET);
    result.append(" --prefix ");
    result.append(RELEASE_PREFIX);
    result.append(" --endpoint ");
    result.append(RELEASE_ENDPOINT);
    result.append(" --region ");
    result.append(RELEASE_REGION);
    result
}

/// The URL that a group's repository resolves `namespace` from.
pub open spec fn repository_url_text(namespace: Seq<char>) -> Seq<char> {
    RELEASE_PUBLIC_ENDPOINT@ + "/"@ + RELEASE_BUCKET@ + "/"@ + RELEASE_PREFIX@ + "/"@ + namespace
        + "/"@
}

/// The URL that a group's repository resolves `namespace` from.
pub fn release_repository_url(namespace: &str) -> (result: String)
    ensures
        result@ == repository_url_text(namespace@),
{
    let mut result = String::from_str(RELEASE_PUBLIC_ENDPOINT);
    result.append("/");
    result.append(RELEASE_BUCKET);
    result.append("/");
    result.append(RELEASE_PREFIX);
    result.append("/");
    result.append(namespace);
    result.append("/");
    result
}

/// How many groups may roll at once in the wave with this seed: from the fleet's concurrency up
/// to one group per set.
pub fn fleet_rollout_width(seed: u64) -> (result: u32)
    ensures
        result == spread_width(
            seed,
            FLEET_CONCURRENCY as int,
            SET_COUNT - FLEET_CONCURRENCY + 1,
        ),
        FLEET_CONCURRENCY <= result <= SET_COUNT,
{
    wave_width(seed)
}

/// The rollout widths span the whole band from the fleet's concurrency to one group per set.
pub proof fn rollout_widths_span_the_band(width: int)
    requires
        FLEET_CONCURRENCY <= width <= SET_COUNT,
    ensures
        exists|seed: u64|
            #[trigger] spread_width(
                seed,
                FLEET_CONCURRENCY as int,
                SET_COUNT - FLEET_CONCURRENCY + 1,
            ) == width,
{
    crate::naming::every_width_occurs(width);
    let seed = choose|seed: u64| #[trigger] spread_width(seed, 4, 5) == width;
    assert(spread_width(seed, FLEET_CONCURRENCY as int, SET_COUNT - FLEET_CONCURRENCY + 1)
        == width);
}

} // verus!
