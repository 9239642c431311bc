//! The drive of a running demo: what it waits for, and what it is held to.

use crate::commands::delete_cluster_args;
use crate::demo::fleet::{
    cohort_members, fleet_node_converged, holds_text, in_cohort, is_cohort_member, is_text,
    lemma_filter_push, on_version, FleetNode,
};
use crate::demo::forms::{is_unencoded, unencoded_values_stand_for_themselves};
use crate::demo::layout::{CHAOS_SEED_BASE, CHAOS_SEED_SPREAD, DEMO_EPOCH_TIMEOUT_SECS, DEMO_NODE_COUNT};
use crate::demo::server::{field_value, query_epochs, query_part, query_seed};
use crate::json::{member, member_of, natural_in, natural_of, said, text_in, text_of, Json};
use crate::lifecycle::{last_completed, newest_transaction};
use crate::text::{
    decimal, decimal_digits, decimal_round_trip, has_prefix, is_digit, is_without,
    lemma_decimal_shape, lemma_divided, lines_of, listed, view_of, views,
};
use crate::waiting::{lag_text, lagging_text, write_lag, write_lagging};
use vstd::prelude::*;

verus! {

/// Where the demo's lifecycle keeps its state on a node.
pub const DEMO_LIFECYCLE_STATE: &'static str = "/var/lib/updated/providers/state/demo-enterprise-lifecycle";

/// How long a scratch directory must have sat untouched before it counts as abandoned, in seconds.
pub const SCRATCH_SWEEP_MIN_IDLE_SECS: u64 = 21_600;

/// The attempts that name observations, not transactions.
pub open spec fn reserved_attempts() -> Seq<Seq<char>> {
    seq!["boot"@, "periodic"@, "fingerprint"@]
}

/// The newest update transaction that an audit log shows as complete: the attempt of an `apply`
/// that is no observation.
pub fn latest_completed_transaction(audit: &str) -> (result: Option<String>)
    ensures
        view_of(result) == last_completed(lines_of(audit@), "apply"@, reserved_attempts()),
{
    let reserved = listed(vec!["boot", "periodic", "fingerprint"]);
    assert(views(reserved@) =~= reserved_attempts());
    newest_transaction(audit, "apply", &reserved)
}

/// Whether a scratch directory idle for so many seconds has outlived its run; one whose idle time
/// is not known has not.
pub fn scratch_dir_is_abandoned(idle_secs: Option<u64>) -> (result: bool)
    ensures
        result == (idle_secs is Some && idle_secs->Some_0 >= SCRATCH_SWEEP_MIN_IDLE_SECS),
{
    match idle_secs {
        Some(idle) => idle >= SCRATCH_SWEEP_MIN_IDLE_SECS,
        None => false,
    }
}

// ----- the wait for the fleet -----

/// The cohort members that are not healthy on `version`, as a message lists them.
pub open spec fn lagging_nodes(nodes: Seq<FleetNode>, version: Seq<char>) -> Seq<Seq<char>>
    decreases nodes.len(),
{
    if nodes.len() == 0 {
        Seq::empty()
    } else {
        let node = nodes.last();
        let before = lagging_nodes(nodes.drop_last(), version);
        if in_cohort(node) && !on_version(node, version) {
            before.push(
                lag_text(
                    node.node@,
                    node.healthy,
                    view_of(node.version),
                    view_of(node.selected_group),
                ),
            )
        } else {
            before
        }
    }
}

/// The message of a fleet that did not converge on `version`.
pub fn unconverged_message(nodes: &Vec<FleetNode>, version: &str) -> (result: String)
    ensures
        result@ == lagging_text(
            version@,
            nodes@.len(),
            lagging_nodes(nodes@, version@),
            Seq::empty(),
        ),
{
    let mut lagging: Vec<String> = Vec::new();
    let mut index: usize = 0;
    assert(views(lagging@) =~= lagging_nodes(nodes@.take(0), version@));
    while index < nodes.len()
        invariant
            index <= nodes.len(),
            views(lagging@) == lagging_nodes(nodes@.take(index as int), version@),
        decreases nodes.len() - index,
    {
        assert(nodes@.take(index + 1).drop_last() =~= nodes@.take(index as int));
        let ghost before = lagging@;
        let node = &nodes[index];
        if is_cohort_member(node) && !fleet_node_converged(node, version) {
            let text = write_lag(
                node.node.as_str(),
                node.healthy,
                &node.version,
                &node.selected_group,
            );
            lagging.push(text);
            assert(views(lagging@) =~= views(before).push(text@));
        }
        index = index + 1;
    }
    assert(nodes@.take(nodes.len() as int) =~= nodes@);
    let none = String::new();
    assert(none@ =~= Seq::<char>::empty());
    write_lagging(version, nodes.len(), &lagging, none.as_str())
}

/// How many nodes are healthy on `version`.
pub open spec fn converged_count(nodes: Seq<FleetNode>, version: Seq<char>) -> nat {
    nodes.filter(|node: FleetNode| on_version(node, version)).len()
}

/// How many nodes are healthy on `version`.
pub fn count_converged(nodes: &Vec<FleetNode>, version: &str) -> (result: usize)
    ensures
        result == converged_count(nodes@, version@),
{
    let ghost holds = |node: FleetNode| on_version(node, version@);
    let mut count: usize = 0;
    let mut index: usize = 0;
    proof {
        reveal(Seq::filter);
        assert(nodes@.take(0) =~= Seq::<FleetNode>::empty());
    }
    while index < nodes.len()
        invariant
            index <= nodes.len(),
            count <= index,
            holds == (|node: FleetNode| on_version(node, version@)),
            count == nodes@.take(index as int).filter(holds).len(),
        decreases nodes.len() - index,
    {
        proof {
            assert(nodes@.take(index + 1) =~= nodes@.take(index as int).push(nodes@[index as int]));
            lemma_filter_push(nodes@.take(index as int), nodes@[index as int], holds);
        }
        if fleet_node_converged(&nodes[index], version) {
            count = count + 1;
        }
        index = index + 1;
    }
    assert(nodes@.take(nodes.len() as int) =~= nodes@);
    count
}

// ----- the chaos of a pass -----

/// The seed of a pass: the first pass has the canonical one, and each pass its own.
pub open spec fn pass_seed(pass: nat) -> u64 {
    CHAOS_SEED_BASE ^ (((pass - 1) * CHAOS_SEED_SPREAD) % 0x1_0000_0000_0000_0000) as u64
}

/// The seed of a pass, counted from one.
pub fn exercise_seed(pass: u64) -> (result: u64)
    requires
        pass >= 1,
    ensures
        result == pass_seed(pass as nat),
{
    let step: u64 = (pass - 1).wrapping_mul(CHAOS_SEED_SPREAD);
    assert(step == ((pass - 1) * CHAOS_SEED_SPREAD) % 0x1_0000_0000_0000_0000);
    CHAOS_SEED_BASE ^ step
}

/// The first pass runs with the canonical seed.
pub proof fn the_first_pass_is_canonical()
    ensures
        pass_seed(1) == CHAOS_SEED_BASE,
{
    assert(0 * CHAOS_SEED_SPREAD == 0);
    assert(CHAOS_SEED_BASE ^ 0 == CHAOS_SEED_BASE) by (bit_vector);
}

/// The address that starts the chaos.
pub open spec fn chaos_start_text(url: Seq<char>, seed: Option<u64>, epochs: Option<usize>) -> Seq<
    char,
> {
    url + "/chaos/start?loops="@ + (match epochs {
        Some(count) => decimal_digits(count as nat),
        None => "forever"@,
    }) + (match seed {
        Some(value) => "&seed="@ + decimal_digits(value as nat),
        None => Seq::empty(),
    })
}

/// Whether a value stands for itself wherever it stands in a query.
spec fn is_plain(value: Seq<char>) -> bool {
    is_unencoded(value) && is_without(value, '&') && is_without(value, '=')
}

proof fn lemma_digits_are_plain(number: nat)
    ensures
        is_plain(decimal_digits(number)),
        decimal_digits(number) != "forever"@,
{
    let digits = decimal_digits(number);
    lemma_decimal_shape(number);
    assert forall|i: int| 0 <= i < digits.len() implies is_digit(digits[i]) by {}
    reveal_strlit("forever");
    if digits == "forever"@ {
        assert(is_digit(digits[0]));
        assert(digits[0] == 'f');
    }
}

/// The parts of an address that gives a number of epochs only.
proof fn lemma_address_without_seed(count: Seq<char>)
    requires
        is_plain(count),
    ensures
        ({
            let path = "/chaos/start?loops="@ + count;
            &&& query_part(path, "loops"@) == Some(count)
            &&& query_part(path, "seed"@) is None
        }),
{
    let path = "/chaos/start?loops="@ + count;
    let field = "loops"@ + seq!['='] + count;
    lemma_names();
    lemma_divided("loops"@, '=', count);
    assert(is_without(field, '&'));
    lemma_divided(field, '&', Seq::empty());
    assert(path =~= "/chaos/start"@ + seq!['?'] + field);
    lemma_divided("/chaos/start"@, '?', field);
    assert(seq![field].skip(1) =~= Seq::empty());
    reveal_with_fuel(field_value, 2);
}

/// The parts of an address that gives a number of epochs and a seed.
proof fn lemma_address_with_seed(count: Seq<char>, seed: Seq<char>)
    requires
        is_plain(count),
        is_plain(seed),
    ensures
        ({
            let path = "/chaos/start?loops="@ + count + ("&seed="@ + seed);
            &&& query_part(path, "loops"@) == Some(count)
            &&& query_part(path, "seed"@) == Some(seed)
        }),
{
    let path = "/chaos/start?loops="@ + count + ("&seed="@ + seed);
    let first = "loops"@ + seq!['='] + count;
    let second = "seed"@ + seq!['='] + seed;
    let query = first + seq!['&'] + second;
    lemma_names();
    lemma_divided("loops"@, '=', count);
    lemma_divided("seed"@, '=', seed);
    assert(is_without(first, '&'));
    assert(is_without(second, '&'));
    lemma_divided(first, '&', second);
    lemma_divided(second, '&', Seq::empty());
    assert(path =~= "/chaos/start"@ + seq!['?'] + query);
    lemma_divided("/chaos/start"@, '?', query);
    assert(seq![first] + seq![second] =~= seq![first, second]);
    assert(seq![first, second].skip(1) =~= seq![second]);
    reveal_with_fuel(field_value, 3);
}

proof fn lemma_names()
    ensures
        "/chaos/start?loops="@ == "/chaos/start"@ + seq!['?'] + "loops"@ + seq!['='],
        "&seed="@ == seq!['&'] + "seed"@ + seq!['='],
        "loops"@ != "seed"@,
        is_without("/chaos/start"@, '?'),
        is_without("loops"@, '='),
        is_without("loops"@, '&'),
        is_without("seed"@, '='),
        is_without("seed"@, '&'),
{
    reveal_strlit("/chaos/start");
    reveal_strlit("/chaos/start?loops=");
    reveal_strlit("&seed=");
    reveal_strlit("loops");
    reveal_strlit("seed");
    assert("loops"@.len() != "seed"@.len());
}

/// The console starts the chaos as the address says that it is asked with: with the seed, where there
/// is one, for ever or for as many epochs, and for one at least.
pub proof fn the_chaos_starts_as_its_address_says(seed: Option<u64>, epochs: Option<usize>)
    ensures
        ({
            let path = chaos_start_text(Seq::empty(), seed, epochs);
            &&& has_prefix(path, "/chaos/start"@)
            &&& query_seed(path) == (match seed {
                Some(value) => Some(value as nat),
                None => None,
            })
            &&& query_epochs(path) == (match epochs {
                Some(count) => Some(if count == 0 {
                    1
                } else {
                    count as nat
                }),
                None => None,
            })
        }),
{
    let path = chaos_start_text(Seq::empty(), seed, epochs);
    let count = match epochs {
        Some(count) => decimal_digits(count as nat),
        None => "forever"@,
    };
    match epochs {
        Some(count) => {
            lemma_digits_are_plain(count as nat);
            decimal_round_trip(count as nat, usize::MAX as nat);
        },
        None => {
            reveal_strlit("forever");
        },
    }
    unencoded_values_stand_for_themselves(count);
    match seed {
        Some(value) => {
            let digits = decimal_digits(value as nat);
            lemma_digits_are_plain(value as nat);
            decimal_round_trip(value as nat, u64::MAX as nat);
            unencoded_values_stand_for_themselves(digits);
            assert(path =~= "/chaos/start?loops="@ + count + ("&seed="@ + digits));
            lemma_address_with_seed(count, digits);
        },
        None => {
            assert(path =~= "/chaos/start?loops="@ + count);
            lemma_address_without_seed(count);
        },
    }
    lemma_names();
    assert(path.take("/chaos/start"@.len() as int) =~= "/chaos/start"@);
}

/// The address that starts the chaos.
pub fn chaos_start_url(url: &str, seed: Option<u64>, epochs: Option<usize>) -> (result: String)
    ensures
        result@ == chaos_start_text(url@, seed, epochs),
{
    let mut address = String::from_str(url);
    address.append("/chaos/start?loops=");
    match epochs {
        Some(count) => {
            address.append(decimal(count as u64).as_str());
        },
        None => {
            address.append("forever");
        },
    }
    let mut query = String::new();
    assert(query@ =~= Seq::<char>::empty());
    match seed {
        Some(value) => {
            query.append("&seed=");
            query.append(decimal(value).as_str());
            assert(query@ =~= "&seed="@ + decimal_digits(value as nat));
        },
        None => {},
    }
    address.append(query.as_str());
    address
}

/// What the chaos's state says of a run.
pub enum ChaosProgress {
    /// The run failed, with this message.
    Failed(String),
    /// The run has not finished an epoch.
    Running,
    /// The run has finished an epoch.
    EpochDone,
}

/// What the chaos's state says of a run.
pub fn chaos_progress(state: &Json) -> (result: ChaosProgress)
    ensures
        match text_in(member_of(said(*state), "error"@)) {
            Some(error) => result is Failed && result->Failed_0@ == "fleet chaos failed: "@ + error,
            None => if natural_in(member_of(said(*state), "completedEpochs"@)) >= 1 {
                result is EpochDone
            } else {
                result is Running
            },
        },
{
    match text_of(member(Some(state), "error")) {
        Some(error) => {
            let mut message = String::from_str("fleet chaos failed: ");
            message.append(error);
            ChaosProgress::Failed(message)
        },
        None => {
            if natural_of(member(Some(state), "completedEpochs")) >= 1 {
                ChaosProgress::EpochDone
            } else {
                ChaosProgress::Running
            }
        },
    }
}

/// Whether the cohort fleet is complete, and healthy on one version.
pub open spec fn is_unified(nodes: Seq<FleetNode>, version: Seq<char>) -> bool {
    &&& cohort_members(nodes).len() == DEMO_NODE_COUNT
    &&& forall|i: int|
        0 <= i < nodes.len() && in_cohort(#[trigger] nodes[i]) ==> nodes[i].healthy && is_text(
            nodes[i].version,
            version,
        )
}

/// The version that the cohort fleet is complete and healthy on.
pub fn check_unified(nodes: &Vec<FleetNode>) -> (result: Result<String, String>)
    ensures
        match result {
            Ok(version) => is_unified(nodes@, version@),
            Err(message) => {
                &&& forall|version: Seq<char>| !is_unified(nodes@, version)
                &&& message@
                    == "fleet chaos completed without a healthy fleet converged onto one version"@
            },
        },
{
    let ghost holds = |node: FleetNode| in_cohort(node);
    let mut count: usize = 0;
    let mut first: Option<usize> = None;
    let mut mixed = false;
    let mut index: usize = 0;
    proof {
        reveal(Seq::filter);
        assert(nodes@.take(0) =~= Seq::<FleetNode>::empty());
    }
    while index < nodes.len()
        invariant
            index <= nodes.len(),
            count <= index,
            holds == (|node: FleetNode| in_cohort(node)),
            count == nodes@.take(index as int).filter(holds).len(),
            count == 0 <==> first is None,
            match first {
                Some(at) => at < index && in_cohort(nodes@[at as int]),
                None => forall|i: int| 0 <= i < index ==> !in_cohort(#[trigger] nodes@[i]),
            },
            mixed ==> exists|i: int|
                0 <= i < index && in_cohort(#[trigger] nodes@[i]) && (!nodes@[i].healthy
                    || nodes@[i].version is None || view_of(nodes@[i].version) != view_of(
                    nodes@[first->Some_0 as int].version,
                )),
            !mixed ==> forall|i: int|
                0 <= i < index && in_cohort(#[trigger] nodes@[i]) ==> nodes@[i].healthy
                    && nodes@[i].version is Some && view_of(nodes@[i].version) == view_of(
                    nodes@[first->Some_0 as int].version,
                ),
        decreases nodes.len() - index,
    {
        proof {
            assert(nodes@.take(index + 1) =~= nodes@.take(index as int).push(nodes@[index as int]));
            lemma_filter_push(nodes@.take(index as int), nodes@[index as int], holds);
        }
        let ghost earlier = first;
        if is_cohort_member(&nodes[index]) {
            count = count + 1;
            let lead: usize = match first {
                Some(lead) => lead,
                None => {
                    first = Some(index);
                    index
                },
            };
            let agrees = match &nodes[lead].version {
                Some(version) => holds_text(&nodes[index].version, version.as_str()),
                None => false,
            };
            if !nodes[index].healthy || !agrees {
                mixed = true;
                assert(in_cohort(nodes@[index as int]));
            }
        }
        index = index + 1;
    }
    assert(nodes@.take(nodes.len() as int) =~= nodes@);
    let version = match first {
        Some(lead) => crate::text::copied_text(&nodes[lead].version),
        None => None,
    };
    if count == DEMO_NODE_COUNT && !mixed {
        match version {
            Some(version) => {
                return Ok(version);
            },
            None => {
                assert(in_cohort(nodes@[first->Some_0 as int]));
            },
        }
    }
    proof {
        assert forall|version: Seq<char>| !is_unified(nodes@, version) by {
            if is_unified(nodes@, version) && mixed {
                let i = choose|i: int|
                    0 <= i < nodes@.len() && in_cohort(#[trigger] nodes@[i]) && (!nodes@[i].healthy
                        || nodes@[i].version is None || view_of(nodes@[i].version) != view_of(
                        nodes@[first->Some_0 as int].version,
                    ));
                assert(in_cohort(nodes@[first->Some_0 as int]));
            }
        }
    }
    Err("fleet chaos completed without a healthy fleet converged onto one version".to_owned())
}

/// The message of a pass that did not finish an epoch in time.
pub fn pass_timeout_message() -> (result: String)
    ensures
        result@ == "seeded fleet chaos did not converge within "@ + decimal_digits(
            DEMO_EPOCH_TIMEOUT_SECS as nat,
        ) + " seconds"@,
{
    let mut message = String::from_str("seeded fleet chaos did not converge within ");
    message.append(decimal(DEMO_EPOCH_TIMEOUT_SECS as u64).as_str());
    message.append(" seconds");
    message
}

/// The arguments of `kind` that take the demo's cluster down.
pub fn reset_demo(cluster: &str) -> (result: Vec<String>)
    ensures
        views(result@) == seq!["delete"@, "cluster"@, "--name"@, cluster@],
{
    delete_cluster_args(cluster)
}

// ----- what a pass is held to -----

/// Every cohort member that is not healthy, or reports another version, is listed as lagging, and no
/// other node is.
pub proof fn every_laggard_is_listed(nodes: Seq<FleetNode>, version: Seq<char>)
    ensures
        lagging_nodes(nodes, version).len() == nodes.filter(
            |node: FleetNode|
                in_cohort(node) && !(node.healthy && view_of(node.version) == Some(version)),
        ).len(),
        forall|i: int|
            0 <= i < nodes.len() && in_cohort(#[trigger] nodes[i]) && !(nodes[i].healthy && view_of(
                nodes[i].version,
            ) == Some(version)) ==> lagging_nodes(nodes, version).contains(
                lag_text(
                    nodes[i].node@,
                    nodes[i].healthy,
                    view_of(nodes[i].version),
                    view_of(nodes[i].selected_group),
                ),
            ),
    decreases nodes.len(),
{
    let lags = |node: FleetNode|
        in_cohort(node) && !(node.healthy && view_of(node.version) == Some(version));
    reveal(Seq::filter);
    if nodes.len() > 0 {
        let before = nodes.drop_last();
        let last = nodes.last();
        let listed = lagging_nodes(nodes, version);
        let earlier = lagging_nodes(before, version);
        every_laggard_is_listed(before, version);
        lemma_filter_push(before, last, lags);
        assert(before.push(last) =~= nodes);
        if in_cohort(last) {
            lemma_cohorts_are_demo_groups(last);
        }
        assert forall|i: int|
            0 <= i < nodes.len() && in_cohort(#[trigger] nodes[i]) && !(nodes[i].healthy && view_of(
                nodes[i].version,
            ) == Some(version)) implies listed.contains(
            lag_text(
                nodes[i].node@,
                nodes[i].healthy,
                view_of(nodes[i].version),
                view_of(nodes[i].selected_group),
            ),
        ) by {
            let text = lag_text(
                nodes[i].node@,
                nodes[i].healthy,
                view_of(nodes[i].version),
                view_of(nodes[i].selected_group),
            );
            if i < before.len() {
                assert(before[i] == nodes[i]);
                let at = choose|at: int| 0 <= at < earlier.len() && earlier[at] == text;
                assert(listed[at] == text);
            } else {
                assert(listed[listed.len() - 1] == text);
            }
        }
    }
}

/// The group of a cohort is a group of the demo.
proof fn lemma_cohorts_are_demo_groups(node: FleetNode)
    requires
        in_cohort(node),
    ensures
        has_prefix(node.selected_group->Some_0@, "demo-"@),
{
    reveal_strlit("demo-cohort-");
    reveal_strlit("demo-");
    let group = node.selected_group->Some_0@;
    assert(group.take(12) == "demo-cohort-"@);
    assert(group.take(5) =~= group.take(12).take(5));
    assert("demo-cohort-"@.take(5) =~= "demo-"@);
}

/// The cohort fleet is unified on a version exactly where it has all of its 32 members, and each of them
/// is healthy and reports that version. It is unified on one version at most.
pub proof fn a_unified_fleet_runs_one_version(
    nodes: Seq<FleetNode>,
    version: Seq<char>,
    other: Seq<char>,
)
    ensures
        is_unified(nodes, version) <==> nodes.filter(|node: FleetNode| in_cohort(node)).len() == 32
            && (forall|i: int|
            0 <= i < nodes.len() && in_cohort(#[trigger] nodes[i]) ==> nodes[i].healthy && view_of(
                nodes[i].version,
            ) == Some(version)),
        is_unified(nodes, version) && is_unified(nodes, other) ==> version == other,
{
    if is_unified(nodes, version) && is_unified(nodes, other) {
        let members = cohort_members(nodes);
        let holds = |node: FleetNode| in_cohort(node);
        assert(members.len() > 0);
        nodes.lemma_filter_contains_rev(holds, members[0]);
        let at = choose|i: int| 0 <= i < nodes.len() && nodes[i] == members[0];
        nodes.lemma_filter_pred(holds, 0);
        assert(in_cohort(nodes[at]));
    }
}

/// As many nodes count as converged as belong to a group of the demo, are healthy and report the version.
pub proof fn converged_nodes_are_healthy_on_it(nodes: Seq<FleetNode>, version: Seq<char>)
    ensures
        converged_count(nodes, version) == nodes.filter(
            |node: FleetNode|
                node.healthy && view_of(node.version) == Some(version) && node.selected_group is Some
                    && has_prefix(node.selected_group->Some_0@, "demo-"@),
        ).len(),
{
    let named = |node: FleetNode| on_version(node, version);
    let shown = |node: FleetNode|
        node.healthy && view_of(node.version) == Some(version) && node.selected_group is Some
            && has_prefix(node.selected_group->Some_0@, "demo-"@);
    assert forall|node: FleetNode| #[trigger] named(node) == shown(node) by {}
    assert(named =~= shown);
}

proof fn lemma_spread_is_undone(number: int)
    requires
        0 <= number < 0x1_0000_0000_0000_0000,
    ensures
        ((number * CHAOS_SEED_SPREAD) % 0x1_0000_0000_0000_0000 * 0xf1de_83e1_9937_733d)
            % 0x1_0000_0000_0000_0000 == number,
{
    let size: int = 0x1_0000_0000_0000_0000;
    let spread: int = 0x9E37_79B9_7F4A_7C15;
    let inverse: int = 0xf1de_83e1_9937_733d;
    vstd::arithmetic::div_mod::lemma_mul_mod_noop_left(number * spread, inverse, size);
    assert(number * spread * inverse == number * (spread * inverse)) by (nonlinear_arith);
    let turns = (spread * inverse) / size;
    assert(spread * inverse == turns * size + 1);
    assert(number * (turns * size + 1) == (number * turns) * size + number) by (nonlinear_arith);
    vstd::arithmetic::div_mod::lemma_mod_multiples_vanish(number * turns, number, size);
    assert(size * (number * turns) + number == (number * turns) * size + number) by (nonlinear_arith);
    vstd::arithmetic::div_mod::lemma_small_mod(number as nat, size as nat);
}

/// Every pass has a seed of its own.
pub proof fn every_pass_has_its_own_seed(pass: nat, other: nat)
    requires
        1 <= pass <= 0x1_0000_0000_0000_0000,
        1 <= other <= 0x1_0000_0000_0000_0000,
        pass != other,
    ensures
        pass_seed(pass) != pass_seed(other),
{
    let base = CHAOS_SEED_BASE;
    let first = ((pass - 1) * CHAOS_SEED_SPREAD) % 0x1_0000_0000_0000_0000;
    let second = ((other - 1) * CHAOS_SEED_SPREAD) % 0x1_0000_0000_0000_0000;
    lemma_spread_is_undone(pass - 1);
    lemma_spread_is_undone(other - 1);
    assert(first != second);
    let left = first as u64;
    let right = second as u64;
    assert(left != right);
    assert(base ^ left != base ^ right) by (bit_vector)
        requires
            left != right,
    ;
}

} // verus!
