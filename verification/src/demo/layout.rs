//! The layout of the demo fleet: sets, cohorts, tiers and the names they carry.

use crate::naming::{agent_name, agent_ordinal, ordinal_of, padded_name, spread_width, wave_width};
use crate::text::two_digits;
use vstd::prelude::*;

verus! {

/// How long a set must hold a full, healthy pool before its load is counted, in nanoseconds.
pub const LOAD_STEADY_GRACE_NANOS: u64 = 10_000_000_000;

pub const DEMO_SET_COUNT: usize = 8;

/// Cohort groups per set. A set rolls all but one of them at a time.
pub const DEMO_GROUPS_PER_SET: usize = 2;

/// Managed agents per cohort group.
pub const DEMO_COHORT_SIZE: usize = 2;

/// Groups that roll at once across the fleet.
pub const DEMO_FLEET_CONCURRENCY: u32 = 4;

/// How long a generation may take to settle, in seconds.
pub const DEMO_SETTLE_TIMEOUT_SECS: usize = 900;

/// How long the convergence that closes an epoch may spend admitting, in seconds.
pub const DEMO_CONVERGE_TIMEOUT_SECS: usize = 240;

/// How long a driver waits for one epoch: a generation, a convergence and a minute of slack.
pub const DEMO_EPOCH_TIMEOUT_SECS: usize = 1200;

/// The seed of the first chaos pass.
pub const CHAOS_SEED_BASE: u64 = 20260719;

/// The multiplier that spreads seeds and the choices of each wave.
pub const CHAOS_SEED_SPREAD: u64 = 0x9E37_79B9_7F4A_7C15;

pub const DEMO_COHORT_COUNT: usize = 16;

pub const DEMO_NODE_COUNT: usize = 32;

/// Agents that stand in for nodes outside the cluster. Their ordinals follow the fleet's.
pub const DEMO_EXTERNAL_COUNT: usize = 2;

pub const DEMO_EXTERNAL_COHORT: &'static str = "external";

pub const DEMO_EXTERNAL_SERVICE: &'static str = "external";

pub const DEMO_TOTAL_AGENTS: usize = 34;

pub const DEMO_EXTERNAL_VM_HOSTNAME: &'static str = "magnolia-manual-vm";

pub const DEMO_EXTERNAL_VM_COHORT: &'static str = "external-vm";

pub const DEMO_EXTERNAL_VM_GATEWAY_PORT: u16 = 18080;

pub const DEMO_MAGNOLIA_TOTAL: usize = 4;

pub const DEMO_HAPROXY_REPLICAS: usize = 2;

pub const DEMO_HAPROXY_COHORT: &'static str = "haproxy";

pub const DEMO_HAPROXY_GROUP: &'static str = "haproxy";

pub const DEMO_HAPROXY_BACKEND: &'static str = "fleet";

pub const DEMO_HAPROXY_ADMIN_PORT: u16 = 9999;

pub const DEMO_HAPROXY_FRONT_SERVICE: &'static str = "haproxy-front";

pub const DEMO_HAPROXY_V1: &'static str = "1.0.0";

pub const DEMO_HAPROXY_V2: &'static str = "2.0.0";

pub const DEMO_HAPROXY_NEXT_PATH_ANNOTATION: &'static str = "demo.updated.dev/next-path";

pub const DEMO_HAPROXY_NEXT_SHA_ANNOTATION: &'static str = "demo.updated.dev/next-sha256";

/// The group of the node outside the cluster.
pub const MAGNOLIA_MANUAL_GROUP: &'static str = "magnolia-manual";

/// The HAProxy pods and the one health proxy that programs them.
pub const DEMO_HAPROXY_TOTAL: usize = 3;

pub const DEMO_REQUIRED_POD_CAPACITY: usize = 81;

/// Serving pods that a set keeps while one of its groups rolls.
pub const DEMO_UPTIME_MARGIN: usize = 2;

/// The window the golden signals cover, in nanoseconds.
pub const LOAD_WINDOW_NANOS: u64 = 30_000_000_000;

/// Synthetic load workers per set.
pub const LOAD_WORKERS_PER_SET: usize = 3;

/// How long a request of the synthetic load may take, in milliseconds.
pub const LOAD_REQUEST_TIMEOUT_MILLIS: u64 = 800;

/// How often the load balancers' view of the ready endpoints is refreshed, in milliseconds.
pub const LOAD_READY_REFRESH_MILLIS: u64 = 300;

/// How long a readiness watch may go without an event before its view is not trusted, in
/// nanoseconds.
pub const READINESS_WATCH_STALE_NANOS: u64 = 30_000_000_000;

/// Label that says which display set a cohort group belongs to.
pub const SET_LABEL: &'static str = "demo.updated.dev/set";

/// The set that paces the whole fleet.
pub const DEMO_FLEET_SET: &'static str = "demo-fleet";

pub const DEMO_FLEET_LABEL: &'static str = "demo.updated.dev/fleet";

pub const DEMO_FLEET_VALUE: &'static str = "managed";

/// Where agents write their reports.
pub const DEMO_REPORT_URL: &'static str = "https://updatec-gateway";

/// Where reports are read.
pub const DEMO_HEALTH_CDN: &'static str = "http://minio:9000/updates/routing";

pub const DEMO_RELEASE_ENDPOINT: &'static str = "http://minio:9000";

pub const DEMO_RELEASE_BUCKET: &'static str = "updates";

pub const DEMO_RELEASE_PREFIX: &'static str = "releases";

pub const DEMO_RELEASE_REGION: &'static str = "us-east-1";

/// The ingress that the synthetic load enters through.
pub const DEMO_INGRESS_URL: &'static str = "http://ingress-nginx-controller.ingress-nginx";

/// How many events the log retains.
pub const MAX_EVENTS: usize = 100;

/// The sizes of the layout follow from one another, and the margin keeps every set serving.
pub proof fn the_layout_adds_up()
    ensures
        DEMO_COHORT_COUNT == DEMO_SET_COUNT * DEMO_GROUPS_PER_SET,
        DEMO_NODE_COUNT == DEMO_COHORT_COUNT * DEMO_COHORT_SIZE,
        DEMO_TOTAL_AGENTS == DEMO_NODE_COUNT + DEMO_EXTERNAL_COUNT,
        DEMO_HAPROXY_TOTAL == DEMO_HAPROXY_REPLICAS + 1,
        DEMO_MAGNOLIA_TOTAL == magnolia_replicas(magnolia_table()),
        DEMO_REQUIRED_POD_CAPACITY == DEMO_TOTAL_AGENTS + DEMO_MAGNOLIA_TOTAL + DEMO_HAPROXY_TOTAL
            + 40,
        DEMO_EPOCH_TIMEOUT_SECS == DEMO_SETTLE_TIMEOUT_SECS + DEMO_CONVERGE_TIMEOUT_SECS + 60,
        DEMO_UPTIME_MARGIN == (DEMO_GROUPS_PER_SET - 1) * DEMO_COHORT_SIZE,
        DEMO_UPTIME_MARGIN >= 1,
{
    reveal_with_fuel(magnolia_replicas, 3);
    let table = magnolia_table();
    assert(table.drop_last().drop_last().len() == 0);
}

/// Ordinal of an external agent, right after the fleet's.
pub fn external_ordinal(index: usize) -> (result: usize)
    requires
        DEMO_NODE_COUNT + index <= usize::MAX,
    ensures
        result == DEMO_NODE_COUNT + index,
{
    DEMO_NODE_COUNT + index
}

/// A Magnolia cohort.
pub struct MagnoliaCohort {
    pub role: &'static str,
    pub instance: &'static str,
    pub context: &'static str,
    pub replicas: usize,
}

/// The Magnolia cohorts: role, instance, servlet context and replicas.
pub open spec fn magnolia_table() -> Seq<(Seq<char>, Seq<char>, Seq<char>, int)> {
    seq![
        ("author"@, "author"@, "magnoliaAuthor"@, 2int),
        ("publisher"@, "public"@, "magnoliaPublic"@, 2int),
    ]
}

pub open spec fn magnolia_row(cohort: MagnoliaCohort) -> (Seq<char>, Seq<char>, Seq<char>, int) {
    (cohort.role@, cohort.instance@, cohort.context@, cohort.replicas as int)
}

/// The replicas of a table of cohorts.
pub open spec fn magnolia_replicas(table: Seq<(Seq<char>, Seq<char>, Seq<char>, int)>) -> int
    decreases table.len(),
{
    if table.len() == 0 {
        0
    } else {
        magnolia_replicas(table.drop_last()) + table.last().3
    }
}

/// The Magnolia cohorts.
pub fn magnolia_cohorts() -> (result: Vec<MagnoliaCohort>)
    ensures
        result@.len() == magnolia_table().len(),
        forall|i: int|
            0 <= i < result@.len() ==> magnolia_row(#[trigger] result@[i]) == magnolia_table()[i],
{
    let mut result: Vec<MagnoliaCohort> = Vec::new();
    result.push(
        MagnoliaCohort {
            role: "author",
            instance: "author",
            context: "magnoliaAuthor",
            replicas: 2,
        },
    );
    result.push(
        MagnoliaCohort {
            role: "publisher",
            instance: "public",
            context: "magnoliaPublic",
            replicas: 2,
        },
    );
    result
}

/// The Magnolia pods of every cohort.
pub fn magnolia_total() -> (result: usize)
    ensures
        result == magnolia_replicas(magnolia_table()),
{
    let cohorts = magnolia_cohorts();
    let ghost table = magnolia_table();
    let mut total: usize = 0;
    let mut index: usize = 0;
    while index < cohorts.len()
        invariant
            index <= cohorts.len(),
            cohorts@.len() == 2,
            table == magnolia_table(),
            forall|i: int|
                0 <= i < cohorts@.len() ==> magnolia_row(#[trigger] cohorts@[i]) == table[i],
            total == magnolia_replicas(table.take(index as int)),
            total <= 2 * index,
        decreases cohorts.len() - index,
    {
        assert(table.take(index + 1).drop_last() == table.take(index as int));
        assert(magnolia_row(cohorts@[index as int]) == table[index as int]);
        total = total + cohorts[index].replicas;
        index = index + 1;
    }
    assert(table.take(2) == table);
    total
}

pub open spec fn cohort_label_text(index: nat) -> Seq<char> {
    "cohort-"@ + two_digits(index)
}

pub fn cohort_label(index: usize) -> (result: String)
    ensures
        result@ == cohort_label_text(index as nat),
{
    padded_name("cohort-", index)
}

pub open spec fn cohort_group_text(index: nat) -> Seq<char> {
    "demo-"@ + cohort_label_text(index)
}

pub fn cohort_group(index: usize) -> (result: String)
    ensures
        result@ == cohort_group_text(index as nat),
{
    let mut result = String::from_str("demo-");
    result.append(cohort_label(index).as_str());
    result
}

/// The display set of a cohort: sets are contiguous runs of cohorts.
pub fn cohort_set_index(index: usize) -> (result: usize)
    ensures
        result == index / DEMO_GROUPS_PER_SET,
{
    index / DEMO_GROUPS_PER_SET
}

/// The cohort of a fleet node, if its name is one and its ordinal lies in the fleet.
pub open spec fn node_cohort(node: Seq<char>) -> Option<nat> {
    match ordinal_of(node) {
        None => None,
        Some(ordinal) => {
            let cohort = ordinal / DEMO_COHORT_SIZE as nat;
            if cohort < DEMO_COHORT_COUNT {
                Some(cohort)
            } else {
                None
            }
        },
    }
}

/// The display set of a fleet node, if its name is one and its ordinal lies in the fleet.
pub open spec fn node_set(node: Seq<char>) -> Option<nat> {
    match ordinal_of(node) {
        None => None,
        Some(ordinal) => {
            let set = ordinal / DEMO_COHORT_SIZE as nat / DEMO_GROUPS_PER_SET as nat;
            if set < DEMO_SET_COUNT {
                Some(set)
            } else {
                None
            }
        },
    }
}

/// The display set of a fleet node, if its name is one and its ordinal lies in the fleet.
pub fn node_set_index(node: &str) -> (result: Option<usize>)
    ensures
        match result {
            Some(set) => node_set(node@) == Some(set as nat),
            None => node_set(node@) is None,
        },
{
    match agent_ordinal(node) {
        None => None,
        Some(ordinal) => {
            let set: usize = cohort_set_index(ordinal / DEMO_COHORT_SIZE);
            if set < DEMO_SET_COUNT {
                Some(set)
            } else {
                None
            }
        },
    }
}

/// The cohort of a fleet node, if its name is one and its ordinal lies in the fleet.
pub fn node_cohort_index(node: &str) -> (result: Option<usize>)
    ensures
        match result {
            Some(cohort) => node_cohort(node@) == Some(cohort as nat),
            None => node_cohort(node@) is None,
        },
{
    match agent_ordinal(node) {
        None => None,
        Some(ordinal) => {
            let cohort: usize = ordinal / DEMO_COHORT_SIZE;
            if cohort < DEMO_COHORT_COUNT {
                Some(cohort)
            } else {
                None
            }
        },
    }
}

/// Every fleet node belongs to the set of its cohort, and the agents that follow the fleet
/// belong to no cohort and no set.
pub proof fn nodes_belong_to_their_cohorts_set(ordinal: nat)
    requires
        ordinal <= usize::MAX,
    ensures
        ordinal < DEMO_NODE_COUNT ==> node_cohort(agent_name(ordinal)) == Some(
            ordinal / DEMO_COHORT_SIZE as nat,
        ) && node_set(agent_name(ordinal)) == Some(
            ordinal / DEMO_COHORT_SIZE as nat / DEMO_GROUPS_PER_SET as nat,
        ),
        ordinal >= DEMO_NODE_COUNT ==> node_cohort(agent_name(ordinal)) is None && node_set(
            agent_name(ordinal),
        ) is None,
{
    crate::naming::agent_names_round_trip(ordinal);
}

/// A node has a set exactly where it has a cohort, and the set is the cohort's.
pub proof fn sets_follow_cohorts(node: Seq<char>)
    ensures
        match node_cohort(node) {
            Some(cohort) => node_set(node) == Some(cohort / DEMO_GROUPS_PER_SET as nat),
            None => node_set(node) is None,
        },
{
}

pub open spec fn set_name_text(set: nat) -> Seq<char> {
    "demo-set-"@ + two_digits(set)
}

/// The name of a display set, which its groups carry as a label.
pub fn set_name(set: usize) -> (result: String)
    ensures
        result@ == set_name_text(set as nat),
{
    padded_name("demo-set-", set)
}

pub open spec fn set_service_text(set: nat) -> Seq<char> {
    "demo-lb-set-"@ + two_digits(set)
}

/// The name of the service in front of a set's pods.
pub fn set_service_name(set: usize) -> (result: String)
    ensures
        result@ == set_service_text(set as nat),
{
    padded_name("demo-lb-set-", set)
}

/// Distinct sets and cohorts have distinct names.
pub proof fn names_are_distinct(left: nat, right: nat)
    requires
        left != right,
    ensures
        set_name_text(left) != set_name_text(right),
        set_service_text(left) != set_service_text(right),
        cohort_label_text(left) != cohort_label_text(right),
        cohort_group_text(left) != cohort_group_text(right),
{
    if set_name_text(left) == set_name_text(right) {
        crate::naming::padded_names_are_injective("demo-set-"@, left, right);
    }
    if set_service_text(left) == set_service_text(right) {
        crate::naming::padded_names_are_injective("demo-lb-set-"@, left, right);
    }
    if cohort_label_text(left) == cohort_label_text(right) {
        crate::naming::padded_names_are_injective("cohort-"@, left, right);
    }
    if cohort_group_text(left) == cohort_group_text(right) {
        assert(cohort_group_text(left) =~= ("demo-"@ + "cohort-"@) + two_digits(left));
        assert(cohort_group_text(right) =~= ("demo-"@ + "cohort-"@) + two_digits(right));
        crate::naming::padded_names_are_injective("demo-"@ + "cohort-"@, left, right);
    }
}

/// The flags that address the release repository.
pub open spec fn repository_flags_text() -> Seq<char> {
    "--bucket "@ + DEMO_RELEASE_BUCKET@ + " --prefix "@ + DEMO_RELEASE_PREFIX@ + " --endpoint "@
        + DEMO_RELEASE_ENDPOINT@ + " --region "@ + DEMO_RELEASE_REGION@
}

/// The flags that address the release repository.
pub fn release_repository_flags() -> (result: String)
    ensures
        result@ == repository_flags_text(),
{
    let mut result = String::from_str("--bucket ");
    result.append(DEMO_RELEASE_BUCKET);
    result.append(" --prefix ");
    result.append(DEMO_RELEASE_PREFIX);
    result.append(" --endpoint ");
    result.append(DEMO_RELEASE_ENDPOINT);
    result.append(" --region ");
    result.append(DEMO_RELEASE_REGION);
    result
}

/// The URL that a group's repository resolves `namespace` from.
pub open spec fn repository_url_text(namespace: Seq<char>) -> Seq<char> {
    DEMO_RELEASE_ENDPOINT@ + "/"@ + DEMO_RELEASE_BUCKET@ + "/"@ + DEMO_RELEASE_PREFIX@ + "/"@
        + namespace + "/"@
}

/// The URL that a group's repository resolves `namespace` from.
pub fn release_repository_url(namespace: &str) -> (result: String)
    ensures
        result@ == repository_url_text(namespace@),
{
    let mut result = String::from_str(DEMO_RELEASE_ENDPOINT);
    result.append("/");
    result.append(DEMO_RELEASE_BUCKET);
    result.append("/");
    result.append(DEMO_RELEASE_PREFIX);
    result.append("/");
    result.append(namespace);
    result.append("/");
    result
}

/// Drops the oldest events beyond the retained number.
pub fn trim_events(events: &mut Vec<String>)
    ensures
        old(events)@.len() <= MAX_EVENTS ==> final(events)@ == old(events)@,
        old(events)@.len() > MAX_EVENTS ==> final(events)@ == old(events)@.skip(
            old(events)@.len() - MAX_EVENTS,
        ),
        final(events)@.len() <= MAX_EVENTS,
{
    if events.len() > MAX_EVENTS {
        let excess: usize = events.len() - MAX_EVENTS;
        let kept = events.split_off(excess);
        assert(kept@ == old(events)@.skip(old(events)@.len() - MAX_EVENTS));
        *events = kept;
    }
}

/// How many groups may roll at once in the wave with this seed: from the fleet's concurrency up
/// to one group per set.
pub fn fleet_rollout_width(seed: u64) -> (result: u32)
    ensures
        result == spread_width(
            seed,
            DEMO_FLEET_CONCURRENCY as int,
            DEMO_SET_COUNT - DEMO_FLEET_CONCURRENCY + 1,
        ),
        DEMO_FLEET_CONCURRENCY <= result <= DEMO_SET_COUNT,
{
    wave_width(seed)
}

/// The rollout widths span the whole band from the fleet's concurrency to one group per set.
pub proof fn rollout_widths_span_the_band(width: int)
    requires
        DEMO_FLEET_CONCURRENCY <= width <= DEMO_SET_COUNT,
    ensures
        exists|seed: u64|
            #[trigger] spread_width(
                seed,
                DEMO_FLEET_CONCURRENCY as int,
                DEMO_SET_COUNT - DEMO_FLEET_CONCURRENCY + 1,
            ) == width,
{
    crate::naming::every_width_occurs(width);
    let seed = choose|seed: u64| #[trigger] spread_width(seed, 4, 5) == width;
    assert(spread_width(
        seed,
        DEMO_FLEET_CONCURRENCY as int,
        DEMO_SET_COUNT - DEMO_FLEET_CONCURRENCY + 1,
    ) == width);
}

} // verus!
