//! The seeded generation of the end-to-end fleet: broken and valid releases roll side by side, and
//! every broken one must be contained while every valid one advances.

use crate::e2e::fleet::{
    in_cohort, is_cohort_member, node_converged, on_version, FleetNode,
};
use crate::e2e::layout::{
    cohort_group, cohort_group_text, cohort_set_index, COHORT_COUNT, COHORT_SIZE,
    FLEET_ROLLOUT_TIMEOUT_SECS, GROUPS_PER_SET, NODE_COUNT,
};
use crate::demo::fleet::{holds_text, is_text};
use crate::naming::{major_of, major_version, version_major, version_of_major};
use crate::text::{decimal, decimal_digits, holds, quote_list, quoted_list, view_of, views};
use vstd::prelude::*;

verus! {

// ----- the plan -----

/// The versions of a run: one that is broken, one that is valid, and one above both that the whole
/// fleet ends on.
#[derive(Clone, Copy, PartialEq, Eq, Structural, Debug)]
pub struct ChaosMajors {
    pub bad: usize,
    pub good: usize,
    pub converge: usize,
}

/// The versions of a run that starts from a baseline.
pub fn chaos_majors(baseline: &str) -> (result: Result<ChaosMajors, String>)
    requires
        major_of(baseline@) is Some ==> major_of(baseline@)->0 + 3 <= usize::MAX,
    ensures
        match (result, major_of(baseline@)) {
            (Ok(majors), Some(major)) => majors.bad == major + 1 && majors.good == major + 2
                && majors.converge == major + 3,
            (Err(message), None) => message@ == "unparseable baseline version"@,
            _ => false,
        },
{
    match version_major(baseline) {
        Some(major) => Ok(ChaosMajors { bad: major + 1, good: major + 2, converge: major + 3 }),
        None => Err(String::from_str("unparseable baseline version")),
    }
}

/// Whether a cohort takes the broken release: the first of an even set, which its set admits first.
pub open spec fn takes_broken(cohort: int) -> bool {
    cohort % (GROUPS_PER_SET as int) == 0 && (cohort / (GROUPS_PER_SET as int)) % 2 == 0
}

/// Whether a cohort is queued, in its set, behind one that takes the broken release.
pub open spec fn is_queued(cohort: int) -> bool {
    cohort % (GROUPS_PER_SET as int) != 0 && (cohort / (GROUPS_PER_SET as int)) % 2 == 0
}

/// Whether a cohort is the first of its set, and so open to disruption.
pub open spec fn leads_set(cohort: int) -> bool {
    cohort % (GROUPS_PER_SET as int) == 0
}

/// The roles of a generation.
#[derive(Clone, Copy, PartialEq, Eq, Structural, Debug)]
pub enum Role {
    Broken,
    Valid,
    /// Valid, and behind a broken one.
    Queued,
    /// Open to disruption.
    Leading,
}

/// Whether a cohort has a role.
pub open spec fn has_role(cohort: int, role: Role) -> bool {
    match role {
        Role::Broken => takes_broken(cohort),
        Role::Valid => !takes_broken(cohort),
        Role::Queued => is_queued(cohort),
        Role::Leading => leads_set(cohort),
    }
}

/// Those of the first `count` cohorts that have a role, in order.
pub open spec fn cohorts_with(role: Role, count: int) -> Seq<int>
    decreases count,
{
    if count <= 0 {
        Seq::empty()
    } else if has_role(count - 1, role) {
        cohorts_with(role, count - 1).push(count - 1)
    } else {
        cohorts_with(role, count - 1)
    }
}

/// The groups of some cohorts.
pub open spec fn groups_of(cohorts: Seq<int>) -> Seq<Seq<char>> {
    Seq::new(cohorts.len(), |i: int| cohort_group_text(cohorts[i] as nat))
}

/// The groups of every cohort with a role.
pub open spec fn groups_with(role: Role) -> Seq<Seq<char>> {
    groups_of(cohorts_with(role, COHORT_COUNT as int))
}

fn check_role(cohort: usize, role: Role) -> (result: bool)
    ensures
        result == has_role(cohort as int, role),
{
    let first = cohort % GROUPS_PER_SET == 0;
    let even = cohort_set_index(cohort) % 2 == 0;
    match role {
        Role::Broken => first && even,
        Role::Valid => !(first && even),
        Role::Queued => !first && even,
        Role::Leading => first,
    }
}

/// The cohorts with a role.
pub fn list_cohorts(role: Role) -> (result: Vec<usize>)
    ensures
        crate::e2e::disruption::as_ints(result@) == cohorts_with(role, COHORT_COUNT as int),
        forall|i: int| 0 <= i < result@.len() ==> #[trigger] result@[i] < COHORT_COUNT,
{
    let mut result: Vec<usize> = Vec::new();
    let mut cohort: usize = 0;
    assert(crate::e2e::disruption::as_ints(result@) =~= Seq::<int>::empty());
    while cohort < COHORT_COUNT
        invariant
            cohort <= COHORT_COUNT,
            crate::e2e::disruption::as_ints(result@) == cohorts_with(role, cohort as int),
            forall|i: int| 0 <= i < result@.len() ==> #[trigger] result@[i] < COHORT_COUNT,
        decreases COHORT_COUNT - cohort,
    {
        let ghost before = result@;
        if check_role(cohort, role) {
            result.push(cohort);
            assert(crate::e2e::disruption::as_ints(result@) =~= crate::e2e::disruption::as_ints(
                before,
            ).push(cohort as int));
        }
        cohort = cohort + 1;
    }
    result
}

/// The groups of the cohorts with a role.
pub fn list_groups(role: Role) -> (result: Vec<String>)
    ensures
        views(result@) == groups_with(role),
{
    let cohorts = list_cohorts(role);
    let ghost all = cohorts_with(role, COHORT_COUNT as int);
    let mut result: Vec<String> = Vec::new();
    let mut index: usize = 0;
    assert(views(result@) =~= groups_of(all).take(0));
    while index < cohorts.len()
        invariant
            index <= cohorts.len(),
            crate::e2e::disruption::as_ints(cohorts@) == all,
            cohorts@.len() == all.len(),
            views(result@) == groups_of(all).take(index as int),
        decreases cohorts.len() - index,
    {
        let ghost before = result@;
        assert(crate::e2e::disruption::as_ints(cohorts@)[index as int] == cohorts@[index as int]);
        let group = cohort_group(cohorts[index]);
        result.push(group);
        assert(views(result@) =~= views(before).push(group@));
        assert(groups_of(all).take(index + 1) =~= groups_of(all).take(index as int).push(group@));
        index = index + 1;
    }
    assert(groups_of(all).take(cohorts.len() as int) =~= groups_of(all));
    result
}

/// Every group of every set.
pub fn all_groups() -> (result: Vec<String>)
    ensures
        result@.len() == COHORT_COUNT,
        forall|i: int|
            0 <= i < COHORT_COUNT ==> (#[trigger] result@[i])@ == cohort_group_text(i as nat),
{
    let mut result: Vec<String> = Vec::new();
    let mut cohort: usize = 0;
    while cohort < COHORT_COUNT
        invariant
            cohort <= COHORT_COUNT,
            result@.len() == cohort,
            forall|i: int|
                0 <= i < cohort ==> (#[trigger] result@[i])@ == cohort_group_text(i as nat),
        decreases COHORT_COUNT - cohort,
    {
        result.push(cohort_group(cohort));
        cohort = cohort + 1;
    }
    result
}

pub proof fn lemma_cohorts_with(role: Role, count: int)
    requires
        0 <= count,
    ensures
        forall|cohort: int|
            #![trigger cohorts_with(role, count).contains(cohort)]
            cohorts_with(role, count).contains(cohort) <==> 0 <= cohort < count && has_role(
                cohort,
                role,
            ),
        cohorts_with(role, count).no_duplicates(),
        cohorts_with(role, count).len() <= count,
    decreases count,
{
    if count > 0 {
        lemma_cohorts_with(role, count - 1);
        let earlier = cohorts_with(role, count - 1);
        let all = cohorts_with(role, count);
        assert forall|cohort: int|
            #![trigger all.contains(cohort)]
            all.contains(cohort) <==> 0 <= cohort < count && has_role(cohort, role) by {
            assert(earlier.contains(cohort) <==> 0 <= cohort < count - 1 && has_role(cohort, role));
            if earlier.contains(cohort) {
                let i = choose|i: int| 0 <= i < earlier.len() && earlier[i] == cohort;
                assert(all[i] == cohort);
            }
            if cohort == count - 1 && has_role(cohort, role) {
                assert(all[all.len() - 1] == cohort);
            }
            if all.contains(cohort) {
                let i = choose|i: int| 0 <= i < all.len() && all[i] == cohort;
                if i < earlier.len() {
                    assert(earlier[i] == cohort);
                }
            }
        }
        assert(!earlier.contains(count - 1));
        assert(all.no_duplicates());
    }
}

/// Every group is exercised in a generation, with the broken release or the valid one and not with
/// both; a set never has two groups with the broken release.
pub proof fn every_group_is_exercised_once(cohort: int, other: int)
    requires
        0 <= cohort < COHORT_COUNT,
        0 <= other < COHORT_COUNT,
    ensures
        cohorts_with(Role::Broken, COHORT_COUNT as int).contains(cohort) != cohorts_with(
            Role::Valid,
            COHORT_COUNT as int,
        ).contains(cohort),
        takes_broken(cohort) && takes_broken(other) && cohort / (GROUPS_PER_SET as int) == other / (
        GROUPS_PER_SET as int) ==> cohort == other,
{
    lemma_cohorts_with(Role::Broken, COHORT_COUNT as int);
    lemma_cohorts_with(Role::Valid, COHORT_COUNT as int);
}

/// A group that is queued takes the valid release, and its set has a group ahead of it with the
/// broken one: it advances only where that group has given its place up.
pub proof fn queued_groups_wait_for_a_broken_one(cohort: int)
    requires
        0 <= cohort < COHORT_COUNT,
        is_queued(cohort),
    ensures
        has_role(cohort, Role::Valid),
        exists|ahead: int|
            0 <= ahead < cohort && #[trigger] takes_broken(ahead) && ahead / (GROUPS_PER_SET as int)
                == cohort / (GROUPS_PER_SET as int),
{
    let ahead = (cohort / (GROUPS_PER_SET as int)) * (GROUPS_PER_SET as int);
    assert(takes_broken(ahead));
}

// ----- how groups stand -----

/// Whether a node is of a group.
pub open spec fn is_of_group(node: FleetNode, group: Seq<char>) -> bool {
    in_cohort(node) && is_text(node.selected_group, group)
}

/// The number of nodes of a group.
pub open spec fn group_size(nodes: Seq<FleetNode>, group: Seq<char>) -> nat
    decreases nodes.len(),
{
    if nodes.len() == 0 {
        0
    } else if is_of_group(nodes.last(), group) {
        group_size(nodes.drop_last(), group) + 1
    } else {
        group_size(nodes.drop_last(), group)
    }
}

/// Whether a group is complete and healthy on a version.
pub open spec fn has_advanced(nodes: Seq<FleetNode>, group: Seq<char>, version: Seq<char>) -> bool {
    group_size(nodes, group) == COHORT_SIZE && forall|i: int|
        0 <= i < nodes.len() && is_of_group(#[trigger] nodes[i], group) ==> on_version(
            nodes[i],
            version,
        )
}

/// Whether a node is healthy below a major version.
pub open spec fn is_below(node: FleetNode, major: usize) -> bool {
    node.healthy && match node.version {
        Some(version) => major_of(version@) is Some && major_of(version@)->0 < major,
        None => false,
    }
}

/// Whether a group is complete and healthy below a major version.
pub open spec fn is_held(nodes: Seq<FleetNode>, group: Seq<char>, major: usize) -> bool {
    group_size(nodes, group) == COHORT_SIZE && forall|i: int|
        0 <= i < nodes.len() && is_of_group(#[trigger] nodes[i], group) ==> is_below(
            nodes[i],
            major,
        )
}

fn check_below(node: &FleetNode, major: usize) -> (result: bool)
    ensures
        result == is_below(*node, major),
{
    if !node.healthy {
        return false;
    }
    match &node.version {
        Some(version) => match version_major(version.as_str()) {
            Some(found) => found < major,
            None => false,
        },
        None => false,
    }
}

fn belongs(node: &FleetNode, group: &str) -> (result: bool)
    ensures
        result == is_of_group(*node, group@),
{
    is_cohort_member(node) && holds_text(&node.selected_group, group)
}

fn check_advanced(nodes: &Vec<FleetNode>, group: &str, version: &str) -> (result: bool)
    ensures
        result == has_advanced(nodes@, group@, version@),
{
    let mut size: usize = 0;
    let mut all = true;
    let mut index: usize = 0;
    assert(nodes@.take(0).len() == 0);
    while index < nodes.len()
        invariant
            index <= nodes.len(),
            size <= index,
            size == group_size(nodes@.take(index as int), group@),
            all <==> forall|i: int|
                0 <= i < index && is_of_group(#[trigger] nodes@[i], group@) ==> on_version(
                    nodes@[i],
                    version@,
                ),
        decreases nodes.len() - index,
    {
        assert(nodes@.take(index + 1).drop_last() =~= nodes@.take(index as int));
        assert(nodes@.take(index + 1).last() == nodes@[index as int]);
        if belongs(&nodes[index], group) {
            size = size + 1;
            if !node_converged(&nodes[index], version) {
                all = false;
            }
        }
        index = index + 1;
    }
    assert(nodes@.take(nodes.len() as int) =~= nodes@);
    size == COHORT_SIZE && all
}

fn check_held(nodes: &Vec<FleetNode>, group: &str, major: usize) -> (result: bool)
    ensures
        result == is_held(nodes@, group@, major),
{
    let mut size: usize = 0;
    let mut all = true;
    let mut index: usize = 0;
    assert(nodes@.take(0).len() == 0);
    while index < nodes.len()
        invariant
            index <= nodes.len(),
            size <= index,
            size == group_size(nodes@.take(index as int), group@),
            all <==> forall|i: int|
                0 <= i < index && is_of_group(#[trigger] nodes@[i], group@) ==> is_below(
                    nodes@[i],
                    major,
                ),
        decreases nodes.len() - index,
    {
        assert(nodes@.take(index + 1).drop_last() =~= nodes@.take(index as int));
        assert(nodes@.take(index + 1).last() == nodes@[index as int]);
        if belongs(&nodes[index], group) {
            size = size + 1;
            if !check_below(&nodes[index], major) {
                all = false;
            }
        }
        index = index + 1;
    }
    assert(nodes@.take(nodes.len() as int) =~= nodes@);
    size == COHORT_SIZE && all
}

/// The names of the nodes of a group.
pub open spec fn group_nodes(nodes: Seq<FleetNode>, group: Seq<char>) -> Seq<Seq<char>>
    decreases nodes.len(),
{
    if nodes.len() == 0 {
        Seq::empty()
    } else if is_of_group(nodes.last(), group) {
        group_nodes(nodes.drop_last(), group).push(nodes.last().node@)
    } else {
        group_nodes(nodes.drop_last(), group)
    }
}

/// The names of the nodes of a group.
pub fn list_group_nodes(nodes: &Vec<FleetNode>, group: &str) -> (result: Vec<String>)
    ensures
        views(result@) == group_nodes(nodes@, group@),
{
    let mut result: Vec<String> = Vec::new();
    let mut index: usize = 0;
    assert(views(result@) =~= group_nodes(nodes@.take(0), group@));
    while index < nodes.len()
        invariant
            index <= nodes.len(),
            views(result@) == group_nodes(nodes@.take(index as int), group@),
        decreases nodes.len() - index,
    {
        assert(nodes@.take(index + 1).drop_last() =~= nodes@.take(index as int));
        assert(nodes@.take(index + 1).last() == nodes@[index as int]);
        if belongs(&nodes[index], group) {
            let ghost before = result@;
            let name = nodes[index].node.clone();
            result.push(name);
            assert(views(result@) =~= views(before).push(name@));
        }
        index = index + 1;
    }
    assert(nodes@.take(nodes.len() as int) =~= nodes@);
    result
}

// ----- settling -----

/// Which of some groups are settled, after those of the first `count` that are found `done` have
/// joined, in order.
pub open spec fn joined_by(
    settled: Seq<Seq<char>>,
    groups: Seq<Seq<char>>,
    done: spec_fn(Seq<char>) -> bool,
    count: int,
) -> Seq<Seq<char>>
    decreases count,
{
    if count <= 0 {
        settled
    } else {
        let earlier = joined_by(settled, groups, done, count - 1);
        if !earlier.contains(groups[count - 1]) && done(groups[count - 1]) {
            earlier.push(groups[count - 1])
        } else {
            earlier
        }
    }
}

/// Whether groups are a list of some others, none twice.
pub open spec fn are_among(settled: Seq<Seq<char>>, groups: Seq<Seq<char>>) -> bool {
    settled.no_duplicates() && forall|i: int|
        0 <= i < settled.len() ==> groups.contains(#[trigger] settled[i])
}

proof fn lemma_joining(
    settled: Seq<Seq<char>>,
    groups: Seq<Seq<char>>,
    done: spec_fn(Seq<char>) -> bool,
    count: int,
)
    requires
        are_among(settled, groups),
        0 <= count <= groups.len(),
    ensures
        are_among(joined_by(settled, groups, done, count), groups),
        settled.len() <= joined_by(settled, groups, done, count).len(),
        joined_by(settled, groups, done, count).take(settled.len() as int) == settled,
        forall|i: int|
            settled.len() <= i < joined_by(settled, groups, done, count).len() ==> done(
                #[trigger] joined_by(settled, groups, done, count)[i],
            ),
    decreases count,
{
    if count > 0 {
        lemma_joining(settled, groups, done, count - 1);
        let earlier = joined_by(settled, groups, done, count - 1);
        let all = joined_by(settled, groups, done, count);
        if all.len() > earlier.len() {
            assert(all == earlier.push(groups[count - 1]));
            assert(all.take(settled.len() as int) =~= earlier.take(settled.len() as int));
            assert forall|i: int| 0 <= i < all.len() implies groups.contains(#[trigger] all[i]) by {
                if i < earlier.len() {
                    assert(all[i] == earlier[i]);
                } else {
                    assert(groups[count - 1] == all[i]);
                }
            }
            assert forall|i: int| settled.len() <= i < all.len() implies done(#[trigger] all[i]) by {
                if i < earlier.len() {
                    assert(all[i] == earlier[i]);
                }
            }
        }
    } else {
        assert(settled.take(settled.len() as int) =~= settled);
    }
}

/// A generation that is under way.
pub struct Generation {
    pub bad_major: usize,
    pub good_major: usize,
    pub broken_groups: Vec<String>,
    pub valid_groups: Vec<String>,
    pub queued_groups: Vec<String>,
    pub settled_broken: Vec<String>,
    pub settled_valid: Vec<String>,
    /// The second of the last notice.
    pub last_logged: u64,
}

/// A generation that is under way.
#[verifier::ext_equal]
pub struct GenerationView {
    pub bad_major: usize,
    pub good_major: usize,
    pub settled_broken: Seq<Seq<char>>,
    pub settled_valid: Seq<Seq<char>>,
    pub last_logged: u64,
}

impl View for Generation {
    type V = GenerationView;

    open spec fn view(&self) -> GenerationView {
        GenerationView {
            bad_major: self.bad_major,
            good_major: self.good_major,
            settled_broken: views(self.settled_broken@),
            settled_valid: views(self.settled_valid@),
            last_logged: self.last_logged,
        }
    }
}

/// Whether a generation is well formed: its groups are those of the layout, and what is settled is
/// among them.
pub open spec fn generation_wf(generation: Generation) -> bool {
    &&& views(generation.broken_groups@) == groups_with(Role::Broken)
    &&& views(generation.valid_groups@) == groups_with(Role::Valid)
    &&& views(generation.queued_groups@) == groups_with(Role::Queued)
    &&& are_among(generation@.settled_broken, groups_with(Role::Broken))
    &&& are_among(generation@.settled_valid, groups_with(Role::Valid))
}

/// Whether everything is settled.
pub open spec fn is_settled(generation: GenerationView) -> bool {
    generation.settled_broken.len() == groups_with(Role::Broken).len()
        && generation.settled_valid.len() == groups_with(Role::Valid).len()
}

/// Whether a group has advanced, as a predicate.
pub open spec fn advancing(nodes: Seq<FleetNode>, version: Seq<char>) -> spec_fn(Seq<char>) -> bool {
    |group: Seq<char>| has_advanced(nodes, group, version)
}

/// Whether a group is contained, as a predicate: it is held below the broken version, and one of
/// its nodes at least has rejected that version's bytes.
pub open spec fn containing(
    nodes: Seq<FleetNode>,
    bad_major: usize,
    rejecting: Seq<Seq<char>>,
) -> spec_fn(Seq<char>) -> bool {
    |group: Seq<char>| is_held(nodes, group, bad_major) && rejecting.contains(group)
}

/// A generation after a look at the fleet. `rejecting` names the groups of which a node has
/// rejected the broken release.
pub open spec fn after_look(
    generation: GenerationView,
    nodes: Seq<FleetNode>,
    rejecting: Seq<Seq<char>>,
    elapsed: u64,
) -> GenerationView {
    let valid = groups_with(Role::Valid);
    let broken = groups_with(Role::Broken);
    let settled = GenerationView {
        settled_valid: joined_by(
            generation.settled_valid,
            valid,
            advancing(nodes, major_version(generation.good_major as nat)),
            valid.len() as int,
        ),
        settled_broken: joined_by(
            generation.settled_broken,
            broken,
            containing(nodes, generation.bad_major, rejecting),
            broken.len() as int,
        ),
        ..generation
    };
    if !is_settled(settled) && elapsed >= generation.last_logged + 15 {
        GenerationView { last_logged: elapsed, ..settled }
    } else {
        settled
    }
}

/// What a look comes to.
pub struct GenerationLook {
    /// The groups that have advanced since the last look.
    pub advanced: Vec<String>,
    /// The groups that were contained since the last look.
    pub contained: Vec<String>,
    /// Whether a notice is due.
    pub notice: Option<String>,
    pub settled: bool,
}

/// The notice about a generation under way.
pub open spec fn progress_text(generation: GenerationView, elapsed: u64) -> Seq<char> {
    decimal_digits(generation.settled_broken.len() + generation.settled_valid.len()) + "/"@
        + decimal_digits(COHORT_COUNT as nat) + " cohorts settled ("@ + decimal_digits(
        generation.settled_broken.len(),
    ) + " rolled back, "@ + decimal_digits(generation.settled_valid.len()) + " advanced), "@
        + decimal_digits(elapsed as nat) + "s elapsed"@
}

fn join_groups(settled: &mut Vec<String>, groups: &Vec<String>, flags: &Vec<bool>, Ghost(done): Ghost<
    spec_fn(Seq<char>) -> bool,
>) -> (result: Vec<String>)
    requires
        flags@.len() == groups@.len(),
        forall|i: int| 0 <= i < flags@.len() ==> #[trigger] flags@[i] == done(groups@[i]@),
        old(settled)@.len() + groups@.len() <= usize::MAX,
    ensures
        views(final(settled)@) == joined_by(
            views(old(settled)@),
            views(groups@),
            done,
            groups@.len() as int,
        ),
        views(final(settled)@) == views(old(settled)@) + views(result@),
{
    let ghost start = views(settled@);
    let ghost all = views(groups@);
    let mut added: Vec<String> = Vec::new();
    let mut index: usize = 0;
    assert(views(settled@) =~= start + views(added@));
    while index < groups.len()
        invariant
            index <= groups.len(),
            all == views(groups@),
            flags@.len() == groups@.len(),
            forall|i: int| 0 <= i < flags@.len() ==> #[trigger] flags@[i] == done(groups@[i]@),
            views(settled@) == joined_by(start, all, done, index as int),
            views(settled@) == start + views(added@),
        decreases groups.len() - index,
    {
        let ghost before = settled@;
        let ghost earlier = added@;
        let group = &groups[index];
        assert(all[index as int] == group@);
        assert(flags@[index as int] == done(groups@[index as int]@));
        if !holds(settled, group.as_str()) && flags[index] {
            settled.push(group.clone());
            added.push(group.clone());
            assert(views(settled@) =~= views(before).push(group@));
            assert(views(added@) =~= views(earlier).push(group@));
            assert(views(settled@) =~= start + views(added@));
        }
        index = index + 1;
    }
    added
}

impl Generation {
    /// A generation of which nothing is settled.
    pub fn new(bad_major: usize, good_major: usize) -> (result: Generation)
        ensures
            generation_wf(result),
            result@ == (GenerationView {
                bad_major,
                good_major,
                settled_broken: Seq::empty(),
                settled_valid: Seq::empty(),
                last_logged: 0,
            }),
    {
        let generation = Generation {
            bad_major,
            good_major,
            broken_groups: list_groups(Role::Broken),
            valid_groups: list_groups(Role::Valid),
            queued_groups: list_groups(Role::Queued),
            settled_broken: Vec::new(),
            settled_valid: Vec::new(),
            last_logged: 0,
        };
        assert(views(generation.settled_broken@) =~= Seq::<Seq<char>>::empty());
        assert(views(generation.settled_valid@) =~= Seq::<Seq<char>>::empty());
        generation
    }

    /// The groups whose nodes are to be asked whether they have rejected the broken release: those
    /// that look contained and are not settled yet.
    pub fn groups_to_ask(&self, nodes: &Vec<FleetNode>) -> (result: Vec<String>)
        requires
            generation_wf(*self),
        ensures
            forall|group: Seq<char>|
                #![trigger views(result@).contains(group)]
                views(result@).contains(group) <==> groups_with(Role::Broken).contains(group)
                    && !self@.settled_broken.contains(group) && is_held(
                    nodes@,
                    group,
                    self.bad_major,
                ),
    {
        let ghost all = views(self.broken_groups@);
        let mut result: Vec<String> = Vec::new();
        let mut index: usize = 0;
        while index < self.broken_groups.len()
            invariant
                index <= self.broken_groups.len(),
                all == views(self.broken_groups@),
                all == groups_with(Role::Broken),
                forall|group: Seq<char>|
                    #![trigger views(result@).contains(group)]
                    views(result@).contains(group) <==> all.take(index as int).contains(group)
                        && !self@.settled_broken.contains(group) && is_held(
                        nodes@,
                        group,
                        self.bad_major,
                    ),
            decreases self.broken_groups.len() - index,
        {
            let ghost before = result@;
            let group = &self.broken_groups[index];
            let ghost first = all.take(index as int);
            let ghost next = all.take(index + 1);
            assert(next =~= first.push(group@));
            let asked = !holds(&self.settled_broken, group.as_str()) && check_held(
                nodes,
                group.as_str(),
                self.bad_major,
            );
            if asked {
                result.push(group.clone());
                assert(views(result@) =~= views(before).push(group@));
            }
            assert forall|name: Seq<char>|
                #![trigger views(result@).contains(name)]
                views(result@).contains(name) <==> next.contains(name)
                    && !self@.settled_broken.contains(name) && is_held(
                    nodes@,
                    name,
                    self.bad_major,
                ) by {
                lemma_push_contains(first, group@, name);
                lemma_push_contains(views(before), group@, name);
                assert(views(before).contains(name) <==> first.contains(name)
                    && !self@.settled_broken.contains(name) && is_held(
                    nodes@,
                    name,
                    self.bad_major,
                ));
            }
            index = index + 1;
        }
        assert(all.take(self.broken_groups.len() as int) =~= all);
        result
    }

    /// Takes a look at the fleet. `rejecting` names the groups of which a node has rejected the
    /// broken release.
    pub fn look(&mut self, nodes: &Vec<FleetNode>, rejecting: &Vec<String>, elapsed: u64) -> (result:
        GenerationLook)
        requires
            generation_wf(*old(self)),
            old(self).last_logged + 15 <= u64::MAX,
        ensures
            generation_wf(*final(self)),
            final(self)@ == after_look(old(self)@, nodes@, views(rejecting@), elapsed),
            final(self)@.settled_valid == old(self)@.settled_valid + views(result.advanced@),
            final(self)@.settled_broken == old(self)@.settled_broken + views(result.contained@),
            result.settled == is_settled(final(self)@),
            view_of(result.notice) == (if !is_settled(final(self)@) && elapsed
                >= old(self).last_logged + 15 {
                Some(progress_text(final(self)@, elapsed))
            } else {
                None
            }),
    {
        let good_version = version_of_major(self.good_major);
        let ghost valid = groups_with(Role::Valid);
        let ghost broken = groups_with(Role::Broken);
        let ghost advances = advancing(nodes@, good_version@);
        let ghost contains = containing(nodes@, self.bad_major, views(rejecting@));
        let mut valid_flags: Vec<bool> = Vec::new();
        let mut index: usize = 0;
        while index < self.valid_groups.len()
            invariant
                index <= self.valid_groups.len(),
                advances == advancing(nodes@, good_version@),
                valid_flags@.len() == index,
                forall|i: int|
                    0 <= i < index ==> #[trigger] valid_flags@[i] == advances(
                        self.valid_groups@[i]@,
                    ),
            decreases self.valid_groups.len() - index,
        {
            valid_flags.push(
                check_advanced(nodes, self.valid_groups[index].as_str(), good_version.as_str()),
            );
            index = index + 1;
        }
        let mut broken_flags: Vec<bool> = Vec::new();
        let mut other: usize = 0;
        while other < self.broken_groups.len()
            invariant
                other <= self.broken_groups.len(),
                contains == containing(nodes@, self.bad_major, views(rejecting@)),
                broken_flags@.len() == other,
                forall|i: int|
                    0 <= i < other ==> #[trigger] broken_flags@[i] == contains(
                        self.broken_groups@[i]@,
                    ),
            decreases self.broken_groups.len() - other,
        {
            let group = self.broken_groups[other].as_str();
            broken_flags.push(check_held(nodes, group, self.bad_major) && holds(rejecting, group));
            other = other + 1;
        }
        proof {
            lemma_joining(self@.settled_valid, valid, advances, valid.len() as int);
            lemma_joining(self@.settled_broken, broken, contains, broken.len() as int);
            assert(valid.len() == self.valid_groups@.len());
            assert(broken.len() == self.broken_groups@.len());
            assert(self@.settled_valid.len() == self.settled_valid@.len());
            assert(self@.settled_broken.len() == self.settled_broken@.len());
            lemma_among_len(self@.settled_valid, valid);
            lemma_among_len(self@.settled_broken, broken);
            lemma_cohorts_with(Role::Valid, COHORT_COUNT as int);
            lemma_cohorts_with(Role::Broken, COHORT_COUNT as int);
        }
        let advanced = join_groups(
            &mut self.settled_valid,
            &self.valid_groups,
            &valid_flags,
            Ghost(advances),
        );
        let contained = join_groups(
            &mut self.settled_broken,
            &self.broken_groups,
            &broken_flags,
            Ghost(contains),
        );
        proof {
            assert(self@.settled_valid.len() == self.settled_valid@.len());
            assert(self@.settled_broken.len() == self.settled_broken@.len());
            lemma_among_len(self@.settled_valid, valid);
            lemma_among_len(self@.settled_broken, broken);
        }
        let settled = self.settled_broken.len() == self.broken_groups.len()
            && self.settled_valid.len() == self.valid_groups.len();
        let notice = if !settled && elapsed >= self.last_logged + 15 {
            self.last_logged = elapsed;
            let mut text = decimal(
                (self.settled_broken.len() + self.settled_valid.len()) as u64,
            );
            text.append("/");
            text.append(decimal(COHORT_COUNT as u64).as_str());
            text.append(" cohorts settled (");
            text.append(decimal(self.settled_broken.len() as u64).as_str());
            text.append(" rolled back, ");
            text.append(decimal(self.settled_valid.len() as u64).as_str());
            text.append(" advanced), ");
            text.append(decimal(elapsed).as_str());
            text.append("s elapsed");
            Some(text)
        } else {
            None
        };
        GenerationLook { advanced, contained, notice, settled }
    }

    fn list_wedged(&self) -> (result: Vec<String>)
        requires
            generation_wf(*self),
        ensures
            views(result@) == wedged(groups_with(Role::Queued), self@.settled_valid),
    {
        let ghost all = views(self.queued_groups@);
        let mut result: Vec<String> = Vec::new();
        let mut index: usize = 0;
        assert(views(result@) =~= wedged(all.take(0), self@.settled_valid));
        while index < self.queued_groups.len()
            invariant
                index <= self.queued_groups.len(),
                all == views(self.queued_groups@),
                views(result@) == wedged(all.take(index as int), self@.settled_valid),
            decreases self.queued_groups.len() - index,
        {
            let ghost before = result@;
            let group = &self.queued_groups[index];
            assert(all.take(index + 1).drop_last() =~= all.take(index as int));
            assert(all.take(index + 1).last() == group@);
            if !holds(&self.settled_valid, group.as_str()) {
                result.push(group.clone());
                assert(views(result@) =~= views(before).push(group@));
            }
            index = index + 1;
        }
        assert(all.take(self.queued_groups.len() as int) =~= all);
        result
    }

    /// The message about a generation that did not settle in time. It names the groups that are
    /// queued behind a rejecting one and have not advanced.
    pub fn timeout_message(&self) -> (result: String)
        requires
            generation_wf(*self),
        ensures
            result@ == "generation did not settle within "@ + decimal_digits(
                FLEET_ROLLOUT_TIMEOUT_SECS as nat,
            ) + " seconds: "@ + decimal_digits(
                self@.settled_broken.len() + self@.settled_valid.len(),
            ) + " of "@ + decimal_digits(COHORT_COUNT as nat) + " cohorts settled; "@
                + decimal_digits(wedged(groups_with(Role::Queued), self@.settled_valid).len())
                + " of the cohorts queued behind a rejecting sibling never advanced "@
                + quoted_list(wedged(groups_with(Role::Queued), self@.settled_valid))
                + " — a rejecting group is holding its set's slot"@,
    {
        let waiting = self.list_wedged();
        assert(views(waiting@).len() == waiting@.len());
        assert(self@.settled_valid.len() == self.settled_valid@.len());
        assert(self@.settled_broken.len() == self.settled_broken@.len());
        proof {
            lemma_among_len(self@.settled_valid, groups_with(Role::Valid));
            lemma_among_len(self@.settled_broken, groups_with(Role::Broken));
            lemma_cohorts_with(Role::Valid, COHORT_COUNT as int);
            lemma_cohorts_with(Role::Broken, COHORT_COUNT as int);
        }
        let mut message = String::from_str("generation did not settle within ");
        message.append(decimal(FLEET_ROLLOUT_TIMEOUT_SECS as u64).as_str());
        message.append(" seconds: ");
        message.append(
            decimal((self.settled_broken.len() + self.settled_valid.len()) as u64).as_str(),
        );
        message.append(" of ");
        message.append(decimal(COHORT_COUNT as u64).as_str());
        message.append(" cohorts settled; ");
        message.append(decimal(waiting.len() as u64).as_str());
        message.append(" of the cohorts queued behind a rejecting sibling never advanced ");
        message.append(quote_list(&waiting).as_str());
        message.append(" — a rejecting group is holding its set's slot");
        message
    }
}

pub proof fn lemma_push_contains(items: Seq<Seq<char>>, item: Seq<char>, other: Seq<char>)
    ensures
        items.push(item).contains(other) <==> items.contains(other) || other == item,
{
    let longer = items.push(item);
    if items.contains(other) {
        let i = choose|i: int| 0 <= i < items.len() && items[i] == other;
        assert(longer[i] == other);
    }
    if other == item {
        assert(longer[items.len() as int] == other);
    }
    if longer.contains(other) {
        let i = choose|i: int| 0 <= i < longer.len() && longer[i] == other;
        if i < items.len() {
            assert(items[i] == other);
        }
    }
}

proof fn lemma_among_len(settled: Seq<Seq<char>>, groups: Seq<Seq<char>>)
    requires
        are_among(settled, groups),
    ensures
        settled.len() <= groups.len(),
{
    settled.unique_seq_to_set();
    groups.lemma_cardinality_of_set();
    assert(settled.to_set().subset_of(groups.to_set())) by {
        assert forall|group: Seq<char>| settled.to_set().contains(group) implies groups.to_set().contains(
            group,
        ) by {
            let i = choose|i: int| 0 <= i < settled.len() && settled[i] == group;
            assert(groups.contains(settled[i]));
        }
    }
    vstd::set_lib::lemma_len_subset(settled.to_set(), groups.to_set());
}

/// Those of some queued groups that are not settled.
pub open spec fn wedged(queued: Seq<Seq<char>>, settled: Seq<Seq<char>>) -> Seq<Seq<char>>
    decreases queued.len(),
{
    if queued.len() == 0 {
        Seq::empty()
    } else if !settled.contains(queued.last()) {
        wedged(queued.drop_last(), settled).push(queued.last())
    } else {
        wedged(queued.drop_last(), settled)
    }
}

proof fn lemma_none_wedged(queued: Seq<Seq<char>>, settled: Seq<Seq<char>>)
    requires
        forall|i: int| 0 <= i < queued.len() ==> settled.contains(#[trigger] queued[i]),
    ensures
        wedged(queued, settled).len() == 0,
    decreases queued.len(),
{
    if queued.len() > 0 {
        assert(settled.contains(queued[queued.len() - 1]));
        assert forall|i: int| 0 <= i < queued.drop_last().len() implies settled.contains(
            #[trigger] queued.drop_last()[i],
        ) by {
            assert(queued.drop_last()[i] == queued[i]);
        }
        lemma_none_wedged(queued.drop_last(), settled);
    }
}

/// A generation that has settled has let every group advance that was queued behind a rejecting
/// one: none of those holds its set's place for good.
pub proof fn a_settled_generation_leaves_none_queued(settled: Seq<Seq<char>>)
    requires
        are_among(settled, groups_with(Role::Valid)),
        settled.len() == groups_with(Role::Valid).len(),
    ensures
        wedged(groups_with(Role::Queued), settled).len() == 0,
{
    let valid = groups_with(Role::Valid);
    let queued = groups_with(Role::Queued);
    settled.unique_seq_to_set();
    valid.lemma_cardinality_of_set();
    assert forall|group: Seq<char>| settled.to_set().contains(group) implies valid.to_set().contains(
        group,
    ) by {
        let i = choose|i: int| 0 <= i < settled.len() && settled[i] == group;
        assert(valid.contains(settled[i]));
    }
    vstd::set_lib::lemma_len_subset(settled.to_set(), valid.to_set());
    vstd::set_lib::lemma_subset_equality(settled.to_set(), valid.to_set());
    lemma_cohorts_with(Role::Queued, COHORT_COUNT as int);
    lemma_cohorts_with(Role::Valid, COHORT_COUNT as int);
    let behind = cohorts_with(Role::Queued, COHORT_COUNT as int);
    let forward = cohorts_with(Role::Valid, COHORT_COUNT as int);
    assert forall|i: int| 0 <= i < queued.len() implies settled.contains(#[trigger] queued[i]) by {
        assert(behind.contains(behind[i]));
        assert(forward.contains(behind[i]));
        let j = choose|j: int| 0 <= j < forward.len() && forward[j] == behind[i];
        assert(valid[j] == queued[i]);
        assert(valid.to_set().contains(queued[i]));
        assert(settled.to_set().contains(queued[i]));
    }
    lemma_none_wedged(queued, settled);
}

/// What a look adds was seen at that look: a group joins the contained ones only where all its
/// nodes are held below the broken version and one has rejected its bytes, and the advanced ones
/// only where all its nodes are healthy on the valid version. Nothing that was settled is lost.
pub proof fn settling_takes_evidence(
    generation: GenerationView,
    nodes: Seq<FleetNode>,
    rejecting: Seq<Seq<char>>,
    elapsed: u64,
    at: int,
)
    requires
        are_among(generation.settled_broken, groups_with(Role::Broken)),
        are_among(generation.settled_valid, groups_with(Role::Valid)),
    ensures
        ({
            let after = after_look(generation, nodes, rejecting, elapsed);
            &&& after.settled_broken.take(generation.settled_broken.len() as int)
                == generation.settled_broken
            &&& after.settled_valid.take(generation.settled_valid.len() as int)
                == generation.settled_valid
            &&& generation.settled_broken.len() <= at < after.settled_broken.len() ==> is_held(
                nodes,
                after.settled_broken[at],
                generation.bad_major,
            ) && rejecting.contains(after.settled_broken[at])
            &&& generation.settled_valid.len() <= at < after.settled_valid.len() ==> has_advanced(
                nodes,
                after.settled_valid[at],
                major_version(generation.good_major as nat),
            )
        }),
{
    let valid = groups_with(Role::Valid);
    let broken = groups_with(Role::Broken);
    lemma_joining(
        generation.settled_valid,
        valid,
        advancing(nodes, major_version(generation.good_major as nat)),
        valid.len() as int,
    );
    lemma_joining(
        generation.settled_broken,
        broken,
        containing(nodes, generation.bad_major, rejecting),
        broken.len() as int,
    );
}

// ----- convergence -----

/// The notice at a look at the convergence: one every fifteen looks.
pub open spec fn convergence_notice(attempt: usize, on_target: nat, version: Seq<char>, frozen: bool) -> Option<
    Seq<char>,
> {
    if attempt % 15 == 0 {
        Some(
            "convergence: "@ + decimal_digits(on_target) + "/"@ + decimal_digits(NODE_COUNT as nat)
                + " agents on "@ + version + (if frozen {
                " (frozen — clock paused)"@
            } else {
                ""@
            }),
        )
    } else {
        None
    }
}

/// The notice at a look at the convergence.
pub fn write_convergence_notice(attempt: usize, on_target: usize, version: &str, frozen: bool) -> (result:
    Option<String>)
    ensures
        view_of(result) == convergence_notice(attempt, on_target as nat, version@, frozen),
{
    if attempt % 15 != 0 {
        return None;
    }
    let mut text = String::from_str("convergence: ");
    text.append(decimal(on_target as u64).as_str());
    text.append("/");
    text.append(decimal(NODE_COUNT as u64).as_str());
    text.append(" agents on ");
    text.append(version);
    text.append(
        if frozen {
            " (frozen — clock paused)"
        } else {
            ""
        },
    );
    Some(text)
}

/// The message about a fleet that did not converge in time.
pub fn convergence_timeout_message(version: &str) -> (result: String)
    ensures
        result@ == "fleet did not converge onto "@ + version@ + " within "@ + decimal_digits(
            FLEET_ROLLOUT_TIMEOUT_SECS as nat,
        ) + " seconds"@,
{
    let mut message = String::from_str("fleet did not converge onto ");
    message.append(version);
    message.append(" within ");
    message.append(decimal(FLEET_ROLLOUT_TIMEOUT_SECS as u64).as_str());
    message.append(" seconds");
    message
}

} // verus!
