//! What a settled generation guarantees of the groups that it exercised.

use crate::demo::fleet::{count_where, FleetNode};
use crate::demo::generation::{
    advanced_event, announced, announcement, broken_group_seen, broken_groups_seen, event_head,
    exercised_agents, group_advanced, group_rolled_back, groups_seen, groups_with_role, in_group,
    is_draining, is_driven, is_held, is_on_target, is_settled, listing, looked, new_generation,
    patched_event, reaction_noted, rolled_back_event, takes_broken, undriven, valid_group_seen,
    valid_groups_seen, GenerationView, Progress, Sighting,
};
use crate::demo::layout::{cohort_group_text, names_are_distinct, DEMO_COHORT_COUNT, DEMO_SET_COUNT};
use crate::demo::state::ChaosView;
use crate::naming::{
    fleet_versions_round_trip, major_of, major_version, versions_count_by_their_first_number,
};
use crate::text::{
    appending_adds_one_text, decimal_digits, joined, leaving_out_removes_one_text, view_of, with_text,
};
use vstd::prelude::*;

verus! {

/// Whether the settled groups are distinct groups of the generation and are shown as driven.
pub open spec fn is_sound(at: Progress) -> bool {
    &&& at.generation.settled_valid.no_duplicates()
    &&& at.generation.settled_broken.no_duplicates()
    &&& forall|i: int|
        0 <= i < at.generation.settled_valid.len() ==> at.generation.valid_groups.contains(
            #[trigger] at.generation.settled_valid[i],
        ) && at.state.updated_groups.contains(at.generation.settled_valid[i])
    &&& forall|i: int|
        0 <= i < at.generation.settled_broken.len() ==> at.generation.broken_groups.contains(
            #[trigger] at.generation.settled_broken[i],
        ) && at.state.rolled_back_groups.contains(at.generation.settled_broken[i])
}

/// Whether `later` exercises the same groups and shows at least the groups driven that `earlier`
/// does.
pub open spec fn follows(earlier: Progress, later: Progress) -> bool {
    &&& later.generation.valid_groups == earlier.generation.valid_groups
    &&& later.generation.broken_groups == earlier.generation.broken_groups
    &&& forall|group: Seq<char>|
        #[trigger] earlier.state.updated_groups.contains(group)
            ==> later.state.updated_groups.contains(group)
    &&& forall|group: Seq<char>|
        #[trigger] earlier.state.rolled_back_groups.contains(group)
            ==> later.state.rolled_back_groups.contains(group)
}

proof fn lemma_with_text_keeps(items: Seq<Seq<char>>, text: Seq<char>)
    ensures
        with_text(items, text).contains(text),
        forall|other: Seq<char>| #[trigger] items.contains(other) ==> with_text(items, text).contains(other),
{
    let longer = items.push(text);
    assert(longer[items.len() as int] == text);
    assert forall|other: Seq<char>| #[trigger] items.contains(other) implies with_text(
        items,
        text,
    ).contains(other) by {
        let at = choose|k: int| 0 <= k < items.len() && items[k] == other;
        assert(longer[at] == other);
    }
}

proof fn lemma_valid_group(at: Progress, group: Seq<char>, seen: Sighting)
    requires
        is_sound(at),
        at.generation.valid_groups.contains(group),
    ensures
        is_sound(valid_group_seen(at, group, seen)),
        follows(at, valid_group_seen(at, group, seen)),
{
    lemma_with_text_keeps(at.state.updated_groups, group);
    let after = valid_group_seen(at, group, seen);
    assert forall|i: int| 0 <= i < after.generation.settled_valid.len() implies after.generation.valid_groups.contains(
        #[trigger] after.generation.settled_valid[i],
    ) && after.state.updated_groups.contains(after.generation.settled_valid[i]) by {
        if i < at.generation.settled_valid.len() {
            assert(after.generation.settled_valid[i] == at.generation.settled_valid[i]);
        }
    }
}

proof fn lemma_broken_group(at: Progress, group: Seq<char>, seen: Sighting)
    requires
        is_sound(at),
        at.generation.broken_groups.contains(group),
    ensures
        is_sound(broken_group_seen(at, group, seen)),
        follows(at, broken_group_seen(at, group, seen)),
{
    lemma_with_text_keeps(at.state.rolled_back_groups, group);
    let after = broken_group_seen(at, group, seen);
    assert forall|i: int| 0 <= i < after.generation.settled_broken.len() implies after.generation.broken_groups.contains(
        #[trigger] after.generation.settled_broken[i],
    ) && after.state.rolled_back_groups.contains(after.generation.settled_broken[i]) by {
        if i < at.generation.settled_broken.len() {
            assert(after.generation.settled_broken[i] == at.generation.settled_broken[i]);
        }
    }
}

proof fn lemma_valid_groups(at: Progress, seen: Sighting, count: int)
    requires
        is_sound(at),
        0 <= count <= at.generation.valid_groups.len(),
    ensures
        is_sound(valid_groups_seen(at, seen, count)),
        follows(at, valid_groups_seen(at, seen, count)),
    decreases count,
{
    if count > 0 {
        lemma_valid_groups(at, seen, count - 1);
        lemma_valid_group(
            valid_groups_seen(at, seen, count - 1),
            at.generation.valid_groups[count - 1],
            seen,
        );
    }
}

proof fn lemma_broken_groups(at: Progress, seen: Sighting, count: int)
    requires
        is_sound(at),
        0 <= count <= at.generation.broken_groups.len(),
    ensures
        is_sound(broken_groups_seen(at, seen, count)),
        follows(at, broken_groups_seen(at, seen, count)),
    decreases count,
{
    if count > 0 {
        lemma_broken_groups(at, seen, count - 1);
        lemma_broken_group(
            broken_groups_seen(at, seen, count - 1),
            at.generation.broken_groups[count - 1],
            seen,
        );
    }
}

/// Every look at the fleet keeps the settled groups sound, and un-drives no group.
pub proof fn looking_keeps_progress_sound(at: Progress, seen: Sighting)
    requires
        is_sound(at),
    ensures
        is_sound(looked(at, seen).0),
        follows(at, looked(at, seen).0),
{
    let valid = valid_groups_seen(at, seen, at.generation.valid_groups.len() as int);
    lemma_valid_groups(at, seen, at.generation.valid_groups.len() as int);
    lemma_broken_groups(valid, seen, valid.generation.broken_groups.len() as int);
    let grouped = groups_seen(at, seen);
    let noted = reaction_noted(grouped, seen);
    assert(is_sound(noted));
    let end = looked(at, seen).0;
    assert(end.generation.settled_valid == noted.generation.settled_valid);
    assert(end.generation.settled_broken == noted.generation.settled_broken);
    assert(end.state.updated_groups == noted.state.updated_groups);
    assert(end.state.rolled_back_groups == noted.state.rolled_back_groups);
}

proof fn lemma_same_size(settled: Seq<Seq<char>>, groups: Seq<Seq<char>>, group: Seq<char>)
    requires
        settled.no_duplicates(),
        groups.no_duplicates(),
        settled.len() == groups.len(),
        forall|i: int| 0 <= i < settled.len() ==> groups.contains(#[trigger] settled[i]),
        groups.contains(group),
    ensures
        settled.contains(group),
{
    settled.unique_seq_to_set();
    groups.unique_seq_to_set();
    let all = groups.to_set();
    assert(settled.to_set().subset_of(all)) by {
        assert forall|text: Seq<char>| settled.to_set().contains(text) implies all.contains(text) by {
            let at = choose|k: int| 0 <= k < settled.len() && settled[k] == text;
            assert(groups.contains(settled[at]));
        }
    }
    vstd::set_lib::lemma_subset_equality(settled.to_set(), all);
    assert(all.contains(group));
}

/// A settled generation has driven every group that it exercised.
pub proof fn a_settled_generation_drives_every_group(at: Progress, seen: Sighting, group: Seq<char>)
    requires
        is_sound(at),
        at.generation.broken_groups.no_duplicates(),
        at.generation.valid_groups.no_duplicates(),
        looked(at, seen).1,
        at.generation.broken_groups.contains(group) || at.generation.valid_groups.contains(group),
    ensures
        is_driven(looked(at, seen).0.state, group),
{
    looking_keeps_progress_sound(at, seen);
    let end = looked(at, seen).0;
    assert(is_settled(end.generation));
    if at.generation.broken_groups.contains(group) {
        lemma_same_size(end.generation.settled_broken, end.generation.broken_groups, group);
    } else {
        lemma_same_size(end.generation.settled_valid, end.generation.valid_groups, group);
    }
}

// ----- what a generation selects -----

/// The undriven cohorts are distinct cohorts of the fleet, in order, with the role of their set,
/// and include every cohort that has not been driven.
pub proof fn a_generation_takes_every_undriven_cohort(state: ChaosView, count: int)
    requires
        0 <= count <= DEMO_COHORT_COUNT,
    ensures
        forall|i: int, j: int|
            0 <= i < j < undriven(state, count).len() ==> undriven(state, count)[i].0 < undriven(
                state,
                count,
            )[j].0,
        forall|i: int|
            0 <= i < undriven(state, count).len() ==> 0 <= (#[trigger] undriven(state, count)[i]).0
                < count && undriven(state, count)[i].1 == takes_broken(
                undriven(state, count)[i].0,
            ) && !is_driven(state, cohort_group_text(undriven(state, count)[i].0 as nat)),
        forall|cohort: int|
            0 <= cohort < count && !is_driven(state, #[trigger] cohort_group_text(cohort as nat))
                ==> undriven(state, count).contains((cohort, takes_broken(cohort))),
    decreases count,
{
    if count > 0 {
        a_generation_takes_every_undriven_cohort(state, count - 1);
        let before = undriven(state, count - 1);
        let after = undriven(state, count);
        assert forall|cohort: int|
            0 <= cohort < count && !is_driven(
                state,
                #[trigger] cohort_group_text(cohort as nat),
            ) implies after.contains((cohort, takes_broken(cohort))) by {
            if cohort < count - 1 {
                let at = choose|k: int|
                    0 <= k < before.len() && before[k] == (cohort, takes_broken(cohort));
                assert(after[at] == (cohort, takes_broken(cohort)));
            } else {
                assert(after[before.len() as int] == (cohort, takes_broken(cohort)));
            }
        }
    }
}

proof fn lemma_role_groups(assignments: Seq<(int, bool)>, broken: bool, count: int)
    requires
        0 <= count <= assignments.len(),
        forall|i: int, j: int|
            0 <= i < j < assignments.len() ==> assignments[i].0 < assignments[j].0,
        forall|i: int| 0 <= i < assignments.len() ==> 0 <= (#[trigger] assignments[i]).0,
    ensures
        groups_with_role(assignments, broken, count).no_duplicates(),
        forall|k: int|
            0 <= k < count && assignments[k].1 == broken ==> groups_with_role(
                assignments,
                broken,
                count,
            ).contains(cohort_group_text((#[trigger] assignments[k]).0 as nat)),
        forall|g: int|
            0 <= g < groups_with_role(assignments, broken, count).len() ==> exists|k: int|
                0 <= k < count && #[trigger] groups_with_role(assignments, broken, count)[g]
                    == cohort_group_text((#[trigger] assignments[k]).0 as nat),
    decreases count,
{
    if count > 0 {
        lemma_role_groups(assignments, broken, count - 1);
        let before = groups_with_role(assignments, broken, count - 1);
        let after = groups_with_role(assignments, broken, count);
        let last = cohort_group_text(assignments[count - 1].0 as nat);
        if assignments[count - 1].1 == broken {
            assert forall|g: int| 0 <= g < before.len() implies #[trigger] before[g] != last by {
                let k = choose|k: int|
                    0 <= k < count - 1 && before[g] == cohort_group_text(
                        (#[trigger] assignments[k]).0 as nat,
                    );
                names_are_distinct(assignments[k].0 as nat, assignments[count - 1].0 as nat);
            }
            assert(after.no_duplicates());
            assert(after[before.len() as int] == last);
        }
        assert forall|k: int|
            0 <= k < count && assignments[k].1 == broken implies after.contains(
            cohort_group_text((#[trigger] assignments[k]).0 as nat),
        ) by {
            if k < count - 1 {
                let name = cohort_group_text(assignments[k].0 as nat);
                assert(before.contains(name));
                let g = choose|g: int| 0 <= g < before.len() && before[g] == name;
                assert(after[g] == name);
            }
        }
        assert forall|g: int| 0 <= g < after.len() implies exists|k: int|
            0 <= k < count && #[trigger] after[g] == cohort_group_text(
                (#[trigger] assignments[k]).0 as nat,
            ) by {
            if g < before.len() {
                assert(after[g] == before[g]);
                let k = choose|k: int|
                    0 <= k < count - 1 && before[g] == cohort_group_text(
                        (#[trigger] assignments[k]).0 as nat,
                    );
                assert(after[g] == cohort_group_text(assignments[k].0 as nat));
            } else {
                assert(after[g] == cohort_group_text(assignments[count - 1].0 as nat));
            }
        }
    }
}

/// A generation over the undriven cohorts starts sound, exercises distinct groups, and exercises
/// every group that has not been driven.
pub proof fn a_generation_starts_sound(
    state: ChaosView,
    shown: ChaosView,
    seed: u64,
    bad_major: usize,
    good_major: usize,
    cohort: int,
)
    requires
        0 <= cohort < DEMO_COHORT_COUNT,
    ensures
        ({
            let generation = new_generation(
                seed,
                undriven(state, DEMO_COHORT_COUNT as int),
                bad_major,
                good_major,
            );
            let group = cohort_group_text(cohort as nat);
            &&& is_sound(Progress { generation, state: shown })
            &&& generation.broken_groups.no_duplicates()
            &&& generation.valid_groups.no_duplicates()
            &&& is_driven(state, group) || generation.broken_groups.contains(group)
                || generation.valid_groups.contains(group)
        }),
{
    let all = undriven(state, DEMO_COHORT_COUNT as int);
    a_generation_takes_every_undriven_cohort(state, DEMO_COHORT_COUNT as int);
    lemma_role_groups(all, true, all.len() as int);
    lemma_role_groups(all, false, all.len() as int);
    if !is_driven(state, cohort_group_text(cohort as nat)) {
        let k = choose|k: int| 0 <= k < all.len() && all[k] == (cohort, takes_broken(cohort));
        assert(all[k].0 == cohort);
    }
}

proof fn lemma_nothing_left(state: ChaosView, count: int)
    requires
        0 <= count,
        forall|cohort: int|
            0 <= cohort < count ==> is_driven(state, #[trigger] cohort_group_text(cohort as nat)),
    ensures
        undriven(state, count).len() == 0,
    decreases count,
{
    if count > 0 {
        lemma_nothing_left(state, count - 1);
        assert(is_driven(state, cohort_group_text((count - 1) as nat)));
    }
}

/// Once a generation over the undriven cohorts has settled, no cohort is left to drive: the epoch
/// has exercised every cohort and converges next.
pub proof fn one_generation_exhausts_the_epoch(
    start: ChaosView,
    at: Progress,
    seen: Sighting,
    seed: u64,
    bad_major: usize,
    good_major: usize,
)
    requires
        is_sound(at),
        at.generation.broken_groups == new_generation(
            seed,
            undriven(start, DEMO_COHORT_COUNT as int),
            bad_major,
            good_major,
        ).broken_groups,
        at.generation.valid_groups == new_generation(
            seed,
            undriven(start, DEMO_COHORT_COUNT as int),
            bad_major,
            good_major,
        ).valid_groups,
        forall|group: Seq<char>|
            #[trigger] start.updated_groups.contains(group) ==> at.state.updated_groups.contains(
                group,
            ),
        forall|group: Seq<char>|
            #[trigger] start.rolled_back_groups.contains(group)
                ==> at.state.rolled_back_groups.contains(group),
        looked(at, seen).1,
    ensures
        undriven(looked(at, seen).0.state, DEMO_COHORT_COUNT as int).len() == 0,
{
    let end = looked(at, seen).0;
    looking_keeps_progress_sound(at, seen);
    assert forall|cohort: int| 0 <= cohort < DEMO_COHORT_COUNT implies is_driven(
        end.state,
        #[trigger] cohort_group_text(cohort as nat),
    ) by {
        let group = cohort_group_text(cohort as nat);
        a_generation_starts_sound(start, start, seed, bad_major, good_major, cohort);
        if !is_driven(start, group) {
            a_settled_generation_drives_every_group(at, seen, group);
        }
    }
    lemma_nothing_left(end.state, DEMO_COHORT_COUNT as int);
}

// ----- what a group shows when it settles -----

/// Whether a node was selected into a group, as a predicate.
pub open spec fn selected(group: Seq<char>) -> spec_fn(FleetNode) -> bool {
    |node: FleetNode| view_of(node.selected_group) == Some(group)
}

/// Whether a group has its two nodes, each of them healthy, in the load balancer and on a version to
/// the letter.
pub open spec fn serves_throughout(
    fleet: Seq<FleetNode>,
    group: Seq<char>,
    version: Seq<char>,
) -> bool {
    &&& fleet.filter(selected(group)).len() == 2
    &&& forall|i: int|
        0 <= i < fleet.len() && view_of((#[trigger] fleet[i]).selected_group) == Some(group)
            ==> fleet[i].healthy && fleet[i].in_load_balancer && view_of(fleet[i].version) == Some(
            version,
        )
}

/// Whether a group has its two nodes, each of them healthy, in the load balancer, known to have been
/// out of it, and on a version whose first number is strictly below `bad_major`.
pub open spec fn returned_throughout(
    fleet: Seq<FleetNode>,
    left: Seq<Seq<char>>,
    group: Seq<char>,
    bad_major: nat,
) -> bool {
    &&& fleet.filter(selected(group)).len() == 2
    &&& forall|i: int|
        0 <= i < fleet.len() && view_of((#[trigger] fleet[i]).selected_group) == Some(group)
            ==> fleet[i].healthy && fleet[i].in_load_balancer && left.contains(fleet[i].node@)
            && fleet[i].version is Some && major_of(fleet[i].version->Some_0@) is Some && major_of(
            fleet[i].version->Some_0@,
        )->Some_0 < bad_major
}

proof fn lemma_group_evidence(
    fleet: Seq<FleetNode>,
    left: Seq<Seq<char>>,
    group: Seq<char>,
    version: Seq<char>,
    bad_major: usize,
)
    ensures
        group_advanced(fleet, group, version) == serves_throughout(fleet, group, version),
        group_rolled_back(fleet, left, group, bad_major) == returned_throughout(
            fleet,
            left,
            group,
            bad_major as nat,
        ),
{
    assert(in_group(group) =~= selected(group));
    if group_advanced(fleet, group, version) {
        assert forall|i: int|
            0 <= i < fleet.len() && view_of((#[trigger] fleet[i]).selected_group) == Some(
                group,
            ) implies fleet[i].healthy && fleet[i].in_load_balancer && view_of(fleet[i].version)
            == Some(version) by {}
    }
    if group_rolled_back(fleet, left, group, bad_major) {
        assert forall|i: int|
            0 <= i < fleet.len() && view_of((#[trigger] fleet[i]).selected_group) == Some(
                group,
            ) implies fleet[i].healthy && fleet[i].in_load_balancer && left.contains(fleet[i].node@)
            && fleet[i].version is Some && major_of(fleet[i].version->Some_0@) is Some && major_of(
            fleet[i].version->Some_0@,
        )->Some_0 < bad_major by {
            assert(is_held(fleet[i], bad_major));
        }
    }
}

proof fn lemma_valid_seen(at: Progress, seen: Sighting, count: int, group: Seq<char>)
    requires
        0 <= count <= at.generation.valid_groups.len(),
    ensures
        ({
            let after = valid_groups_seen(at, seen, count);
            let found = at.generation.valid_groups.take(count).contains(group)
                && !at.generation.settled_valid.contains(group) && group_advanced(
                seen.fleet,
                group,
                at.generation.good_version,
            );
            &&& after.generation == (GenerationView {
                settled_valid: after.generation.settled_valid,
                ..at.generation
            })
            &&& after.generation.settled_valid.contains(group)
                <==> at.generation.settled_valid.contains(group) || found
            &&& after.state.updated_groups.contains(group) <==> at.state.updated_groups.contains(group)
                || found
            &&& after.state.active_valid.contains(group) <==> at.state.active_valid.contains(group)
                && !found
            &&& after.state == (ChaosView {
                active_valid: after.state.active_valid,
                updated_groups: after.state.updated_groups,
                completed_nodes: after.state.completed_nodes,
                events: after.state.events,
                ..at.state
            })
            &&& at.state.completed_nodes == (at.state.rolled_back_groups.len()
                + at.state.updated_groups.len()) as usize ==> after.state.completed_nodes == (
            after.state.rolled_back_groups.len() + after.state.updated_groups.len()) as usize
        }),
    decreases count,
{
    if count > 0 {
        lemma_valid_seen(at, seen, count - 1, group);
        let before = valid_groups_seen(at, seen, count - 1);
        let next = at.generation.valid_groups[count - 1];
        lemma_valid_seen(at, seen, count - 1, next);
        assert(at.generation.valid_groups.take(count) =~= at.generation.valid_groups.take(
            count - 1,
        ).push(next));
        appending_adds_one_text(at.generation.valid_groups.take(count - 1), next, group);
        appending_adds_one_text(before.generation.settled_valid, next, group);
        appending_adds_one_text(before.state.updated_groups, next, group);
        leaving_out_removes_one_text(before.state.active_valid, next, group);
    }
}

proof fn lemma_broken_seen(at: Progress, seen: Sighting, count: int, group: Seq<char>)
    requires
        0 <= count <= at.generation.broken_groups.len(),
    ensures
        ({
            let after = broken_groups_seen(at, seen, count);
            let found = at.generation.broken_groups.take(count).contains(group)
                && !at.generation.settled_broken.contains(group) && group_rolled_back(
                seen.fleet,
                seen.left,
                group,
                at.generation.bad_major,
            );
            &&& after.generation == (GenerationView {
                settled_broken: after.generation.settled_broken,
                ..at.generation
            })
            &&& after.generation.settled_broken.contains(group)
                <==> at.generation.settled_broken.contains(group) || found
            &&& after.state.rolled_back_groups.contains(group)
                <==> at.state.rolled_back_groups.contains(group) || found
            &&& after.state.active_broken.contains(group) <==> at.state.active_broken.contains(group)
                && !found
            &&& after.state == (ChaosView {
                active_broken: after.state.active_broken,
                rolled_back_groups: after.state.rolled_back_groups,
                completed_nodes: after.state.completed_nodes,
                events: after.state.events,
                ..at.state
            })
            &&& at.state.completed_nodes == (at.state.rolled_back_groups.len()
                + at.state.updated_groups.len()) as usize ==> after.state.completed_nodes == (
            after.state.rolled_back_groups.len() + after.state.updated_groups.len()) as usize
        }),
    decreases count,
{
    if count > 0 {
        lemma_broken_seen(at, seen, count - 1, group);
        let before = broken_groups_seen(at, seen, count - 1);
        let next = at.generation.broken_groups[count - 1];
        lemma_broken_seen(at, seen, count - 1, next);
        assert(at.generation.broken_groups.take(count) =~= at.generation.broken_groups.take(
            count - 1,
        ).push(next));
        appending_adds_one_text(at.generation.broken_groups.take(count - 1), next, group);
        appending_adds_one_text(before.generation.settled_broken, next, group);
        appending_adds_one_text(before.state.rolled_back_groups, next, group);
        leaving_out_removes_one_text(before.state.active_broken, next, group);
    }
}

/// A look adds a group to the updated ones exactly when it takes the valid release, had not settled,
/// and has its two nodes, each of them healthy, in the load balancer and on the valid version to the
/// letter. Such a group is no longer shown as under way; every other group stays as it was.
pub proof fn updating_is_every_node_serving_the_valid_version(
    at: Progress,
    seen: Sighting,
    group: Seq<char>,
)
    ensures
        ({
            let after = looked(at, seen).0;
            let found = at.generation.valid_groups.contains(group)
                && !at.generation.settled_valid.contains(group) && serves_throughout(
                seen.fleet,
                group,
                at.generation.good_version,
            );
            &&& after.state.updated_groups.contains(group) <==> at.state.updated_groups.contains(group)
                || found
            &&& after.generation.settled_valid.contains(group)
                <==> at.generation.settled_valid.contains(group) || found
            &&& after.state.active_valid.contains(group) <==> at.state.active_valid.contains(group)
                && !found
        }),
{
    let valid = at.generation.valid_groups;
    let between = valid_groups_seen(at, seen, valid.len() as int);
    lemma_valid_seen(at, seen, valid.len() as int, group);
    lemma_broken_seen(between, seen, between.generation.broken_groups.len() as int, group);
    lemma_group_evidence(
        seen.fleet,
        seen.left,
        group,
        at.generation.good_version,
        at.generation.bad_major,
    );
    assert(valid.take(valid.len() as int) =~= valid);
}

/// A look adds a group to those rolled back exactly when it takes the broken release, had not
/// settled, and has its two nodes, each of them healthy, in the load balancer, known to have been out
/// of it, and on a version strictly below the broken one. Such a group is no longer shown as under
/// way; every other group stays as it was.
pub proof fn rolling_back_is_every_node_returned_below_the_broken_version(
    at: Progress,
    seen: Sighting,
    group: Seq<char>,
)
    ensures
        ({
            let after = looked(at, seen).0;
            let found = at.generation.broken_groups.contains(group)
                && !at.generation.settled_broken.contains(group) && returned_throughout(
                seen.fleet,
                seen.left,
                group,
                at.generation.bad_major as nat,
            );
            &&& after.state.rolled_back_groups.contains(group)
                <==> at.state.rolled_back_groups.contains(group) || found
            &&& after.generation.settled_broken.contains(group)
                <==> at.generation.settled_broken.contains(group) || found
            &&& after.state.active_broken.contains(group) <==> at.state.active_broken.contains(group)
                && !found
        }),
{
    let valid = at.generation.valid_groups;
    let broken = at.generation.broken_groups;
    let between = valid_groups_seen(at, seen, valid.len() as int);
    lemma_valid_seen(at, seen, valid.len() as int, group);
    lemma_broken_seen(between, seen, broken.len() as int, group);
    lemma_group_evidence(
        seen.fleet,
        seen.left,
        group,
        at.generation.good_version,
        at.generation.bad_major,
    );
    assert(broken.take(broken.len() as int) =~= broken);
}

/// No node of a group that a look adds to those rolled back reports the broken version, nor any
/// version whose first number is as high or higher.
pub proof fn rolled_back_nodes_do_not_run_the_broken_version(
    at: Progress,
    seen: Sighting,
    group: Seq<char>,
    index: int,
    major: nat,
    rest: Seq<char>,
)
    requires
        !at.state.rolled_back_groups.contains(group),
        looked(at, seen).0.state.rolled_back_groups.contains(group),
        0 <= index < seen.fleet.len(),
        view_of(seen.fleet[index].selected_group) == Some(group),
        major >= at.generation.bad_major,
    ensures
        seen.fleet[index].healthy,
        seen.fleet[index].in_load_balancer,
        seen.left.contains(seen.fleet[index].node@),
        view_of(seen.fleet[index].version) != Some(
            major_version(at.generation.bad_major as nat),
        ),
        view_of(seen.fleet[index].version) != Some(decimal_digits(major)),
        view_of(seen.fleet[index].version) != Some(decimal_digits(major) + "."@ + rest),
        view_of(seen.fleet[index].version) is Some,
{
    rolling_back_is_every_node_returned_below_the_broken_version(at, seen, group);
    fleet_versions_round_trip(at.generation.bad_major as nat);
    versions_count_by_their_first_number(major, rest);
    assert(view_of(seen.fleet[index].selected_group) == Some(group));
}

/// A look changes nothing of a run but which groups are under way, updated and rolled back, how many
/// have completed, and the log; the count of completed groups stays that of the groups shown.
pub proof fn a_look_changes_only_what_it_shows(at: Progress, seen: Sighting)
    ensures
        ({
            let after = looked(at, seen).0;
            &&& after.state == (ChaosView {
                active_broken: after.state.active_broken,
                active_valid: after.state.active_valid,
                updated_groups: after.state.updated_groups,
                rolled_back_groups: after.state.rolled_back_groups,
                completed_nodes: after.state.completed_nodes,
                events: after.state.events,
                ..at.state
            })
            &&& after.generation == (GenerationView {
                settled_broken: after.generation.settled_broken,
                settled_valid: after.generation.settled_valid,
                reacted: after.generation.reacted,
                last_logged_secs: after.generation.last_logged_secs,
                ..at.generation
            })
            &&& at.state.completed_nodes == (at.state.rolled_back_groups.len()
                + at.state.updated_groups.len()) as usize ==> after.state.completed_nodes == (
            after.state.rolled_back_groups.len() + after.state.updated_groups.len()) as usize
        }),
{
    let valid = at.generation.valid_groups;
    let between = valid_groups_seen(at, seen, valid.len() as int);
    let none = Seq::<char>::empty();
    lemma_valid_seen(at, seen, valid.len() as int, none);
    lemma_broken_seen(between, seen, between.generation.broken_groups.len() as int, none);
}

/// A look tells that a generation has settled exactly when as many groups have rolled back as take
/// the broken release, and as many have advanced as take the valid one.
pub proof fn a_look_tells_of_the_last_group(at: Progress, seen: Sighting)
    ensures
        looked(at, seen).1 <==> looked(at, seen).0.generation.settled_broken.len()
            == at.generation.broken_groups.len() && looked(at, seen).0.generation.settled_valid.len()
            == at.generation.valid_groups.len(),
{
    a_look_changes_only_what_it_shows(at, seen);
}

/// A generation has reacted from the first look on at which a node of one of its groups is out of the
/// load balancer, and stays so.
pub proof fn a_reaction_is_a_node_out_of_the_load_balancer(at: Progress, seen: Sighting)
    ensures
        looked(at, seen).0.generation.reacted <==> at.generation.reacted || exists|i: int|
            0 <= i < seen.fleet.len() && !(#[trigger] seen.fleet[i]).in_load_balancer && (exists|
                group: Seq<char>,
            |
                view_of(seen.fleet[i].selected_group) == Some(group) && (
                #[trigger] at.generation.broken_groups.contains(group)
                    || at.generation.valid_groups.contains(group))),
{
    a_look_changes_only_what_it_shows(at, seen);
    let grouped = groups_seen(at, seen);
    let none = Seq::<char>::empty();
    let valid = at.generation.valid_groups;
    let between = valid_groups_seen(at, seen, valid.len() as int);
    lemma_valid_seen(at, seen, valid.len() as int, none);
    lemma_broken_seen(between, seen, between.generation.broken_groups.len() as int, none);
    let draining = is_draining(grouped.generation);
    lemma_counted(seen.fleet, draining);
    if count_where(seen.fleet, draining) > 0 {
        let i = choose|i: int| 0 <= i < seen.fleet.len() && draining(#[trigger] seen.fleet[i]);
        let group = seen.fleet[i].selected_group->Some_0@;
        assert(view_of(seen.fleet[i].selected_group) == Some(group));
        assert(at.generation.broken_groups.contains(group) || at.generation.valid_groups.contains(
            group,
        ));
    }
    if exists|i: int|
        0 <= i < seen.fleet.len() && !(#[trigger] seen.fleet[i]).in_load_balancer && (exists|
            group: Seq<char>,
        |
            view_of(seen.fleet[i].selected_group) == Some(group) && (
            #[trigger] at.generation.broken_groups.contains(group)
                || at.generation.valid_groups.contains(group))) {
        let i = choose|i: int|
            0 <= i < seen.fleet.len() && !(#[trigger] seen.fleet[i]).in_load_balancer && (exists|
                group: Seq<char>,
            |
                view_of(seen.fleet[i].selected_group) == Some(group) && (
                #[trigger] at.generation.broken_groups.contains(group)
                    || at.generation.valid_groups.contains(group)));
        assert(draining(seen.fleet[i]));
    }
}

proof fn lemma_counted<T>(items: Seq<T>, holds: spec_fn(T) -> bool)
    ensures
        count_where(items, holds) > 0 <==> exists|i: int|
            0 <= i < items.len() && holds(#[trigger] items[i]),
    decreases items.len(),
{
    if count_where(items, holds) > 0 {
        if forall|i: int| 0 <= i < items.len() ==> !holds(#[trigger] items[i]) {
            crate::demo::fleet::lemma_count_of_none(items, holds);
        }
    }
    if exists|i: int| 0 <= i < items.len() && holds(#[trigger] items[i]) {
        let i = choose|i: int| 0 <= i < items.len() && holds(#[trigger] items[i]);
        crate::demo::fleet::lemma_count_of_both(items.take(i), items.skip(i), holds);
        assert(items =~= items.take(i) + items.skip(i));
        let rest = items.skip(i);
        crate::demo::fleet::lemma_count_of_both(rest.take(1), rest.skip(1), holds);
        assert(rest =~= rest.take(1) + rest.skip(1));
        crate::demo::fleet::lemma_filter_push(Seq::<T>::empty(), rest[0], holds);
        assert(rest.take(1) =~= Seq::<T>::empty().push(rest[0]));
        reveal(Seq::filter);
    }
}

/// A node of an exercised group counts as on target exactly when it is healthy, in the load balancer
/// and on a version below the broken one, where its group takes that, or else on the valid version;
/// it counts as draining exactly when it is out of the load balancer.
pub proof fn targets_are_told_by_the_nodes(generation: GenerationView, node: FleetNode, group: Seq<char>)
    requires
        view_of(node.selected_group) == Some(group),
    ensures
        generation.broken_groups.contains(group) ==> (is_on_target(generation)(node)
            <==> node.healthy && node.in_load_balancer && node.version is Some && major_of(
            node.version->Some_0@,
        ) is Some && major_of(node.version->Some_0@)->Some_0 < generation.bad_major),
        !generation.broken_groups.contains(group) && generation.valid_groups.contains(group) ==> (
        is_on_target(generation)(node) <==> node.healthy && node.in_load_balancer && view_of(
            node.version,
        ) == Some(generation.good_version)),
        !generation.broken_groups.contains(group) && !generation.valid_groups.contains(group)
            ==> !is_on_target(generation)(node) && !is_draining(generation)(node),
        generation.broken_groups.contains(group) || generation.valid_groups.contains(group) ==> (
        is_draining(generation)(node) <==> !node.in_load_balancer),
{
}

/// A generation shows its groups as under way when it is announced, changes nothing else of the run,
/// and has two agents in each of its groups.
pub proof fn announcing_shows_the_groups(state: ChaosView, generation: GenerationView, width: u32)
    ensures
        announced(state, generation, width).active_broken == generation.broken_groups,
        announced(state, generation, width).active_valid == generation.valid_groups,
        announced(state, generation, width) == (ChaosView {
            active_broken: generation.broken_groups,
            active_valid: generation.valid_groups,
            events: announced(state, generation, width).events,
            ..state
        }),
        exercised_agents(generation) == 2 * generation.broken_groups.len() + 2
            * generation.valid_groups.len(),
{
}

/// The cohorts of every other set, from the first on, take the broken release: the first two of every
/// four.
pub proof fn roles_repeat_every_fourth_cohort(cohort: int)
    requires
        0 <= cohort < DEMO_COHORT_COUNT,
    ensures
        takes_broken(cohort) <==> cohort % 4 == 0 || cohort % 4 == 1,
{
}

/// A look that does not settle a generation notes its second exactly when three have passed since the
/// last note; a look that settles it notes none.
pub proof fn notes_are_three_seconds_apart(at: Progress, seen: Sighting)
    ensures
        ({
            let (after, settled) = looked(at, seen);
            let last = at.generation.last_logged_secs;
            &&& settled ==> after.generation.last_logged_secs == last
            &&& !settled && seen.elapsed - last >= 3 ==> after.generation.last_logged_secs
                == seen.elapsed
            &&& seen.elapsed - last < 3 ==> after.generation.last_logged_secs == last
        }),
{
    let valid = at.generation.valid_groups;
    let between = valid_groups_seen(at, seen, valid.len() as int);
    let none = Seq::<char>::empty();
    lemma_valid_seen(at, seen, valid.len() as int, none);
    lemma_broken_seen(between, seen, between.generation.broken_groups.len() as int, none);
}

/// A patch is told with how long it took, and how many agents are to react: two of every group.
pub proof fn a_patch_is_told_with_its_agents(generation: GenerationView, millis: u64)
    ensures
        exercised_agents(generation) == 2 * (generation.broken_groups.len()
            + generation.valid_groups.len()),
        patched_event(generation, millis) == "gen (seed "@ + decimal_digits(generation.seed as nat)
            + "): "@ + "control-plane patch applied in "@ + decimal_digits(millis as nat)
            + "ms; waiting for "@ + decimal_digits(exercised_agents(generation))
            + " agents to react"@,
{
}

/// What happens to a generation is the newest event of the run: its versions with the groups that
/// take them, where it is announced; the version that a group advanced to or was held below, and how
/// long that took, where one settles; the seconds to the first reaction.
pub proof fn a_generation_is_told_as_it_goes(
    at: Progress,
    group: Seq<char>,
    seen: Sighting,
    width: u32,
)
    ensures
        ({
            let run = at.generation;
            let head = "gen (seed "@ + decimal_digits(run.seed as nat);
            let took = decimal_digits(seen.elapsed as nat) + "s"@;
            let advanced = valid_group_seen(at, group, seen);
            let held = broken_group_seen(at, group, seen);
            let reacted = reaction_noted(at, seen);
            &&& announced(at.state, run, width).events.last() == head + (", width "@
                + decimal_digits(width as nat) + "/"@ + decimal_digits(DEMO_SET_COUNT as nat)
                + "): BROKEN "@ + run.bad_version + " -> ["@ + listing(run.broken_groups)
                + "]; VALID "@ + run.good_version + " -> ["@ + listing(run.valid_groups) + "]"@)
            &&& advanced != at ==> advanced.state.events.last() == head + ("): "@
                + "UPGRADE complete — "@ + group + " advanced to "@ + run.good_version + " ("@)
                + took + ")"@
            &&& held != at ==> held.state.events.last() == head + ("): "@
                + "ROLLBACK complete — "@ + group + " held below broken "@ + run.bad_version + " ("@)
                + took + ")"@
            &&& reacted != at ==> reacted.state.events.last() == head + ("): "@
                + "first agent left the load balancer after "@) + took
        }),
{
    let run = at.generation;
    let head = "gen (seed "@ + decimal_digits(run.seed as nat);
    let took = decimal_digits(seen.elapsed as nat) + "s"@;
    reveal_strlit("s)");
    reveal_strlit("s");
    reveal_strlit(")");
    assert("s"@ + ")"@ =~= "s)"@);
    assert(advanced_event(run, group, seen.elapsed) =~= head + ("): "@ + "UPGRADE complete — "@
        + group + " advanced to "@ + run.good_version + " ("@) + took + ")"@) by {
        assert(took + ")"@ =~= decimal_digits(seen.elapsed as nat) + ("s"@ + ")"@));
    }
    assert(rolled_back_event(run, group, seen.elapsed) =~= head + ("): "@ + "ROLLBACK complete — "@
        + group + " held below broken "@ + run.bad_version + " ("@) + took + ")"@) by {
        assert(took + ")"@ =~= decimal_digits(seen.elapsed as nat) + ("s"@ + ")"@));
    }
    assert(announcement(run, width) =~= head + (", width "@ + decimal_digits(width as nat) + "/"@
        + decimal_digits(DEMO_SET_COUNT as nat) + "): BROKEN "@ + run.bad_version + " -> ["@
        + listing(run.broken_groups) + "]; VALID "@ + run.good_version + " -> ["@ + listing(
        run.valid_groups,
    ) + "]"@));
    assert(event_head(run.seed) + "first agent left the load balancer after "@ + decimal_digits(
        seen.elapsed as nat,
    ) + "s"@ =~= head + ("): "@ + "first agent left the load balancer after "@) + took);
}

/// Groups are listed with commas between them, and none of them as `none`.
pub proof fn groups_are_listed_with_commas(first: Seq<char>, second: Seq<char>)
    ensures
        listing(Seq::empty()) == "none"@,
        listing(seq![first]) == first,
        listing(seq![first, second]) == first + ", "@ + second,
{
    reveal_with_fuel(joined, 3);
    assert(seq![first, second].drop_last() =~= seq![first]);
    assert(joined(seq![first], ", "@) =~= first);
}

/// A look that settles a generation tells how long it took; one that is due for a note tells how many
/// agents are on target, how many there are, and how many are draining.
pub proof fn a_look_tells_how_far_it_has_come(at: Progress, seen: Sighting)
    ensures
        ({
            let noted = reaction_noted(groups_seen(at, seen), seen);
            let head = "gen (seed "@ + decimal_digits(noted.generation.seed as nat) + "): "@;
            let took = decimal_digits(seen.elapsed as nat) + "s"@;
            let after = looked(at, seen);
            &&& after.1 ==> after.0.state.events.last() == head + "generation settled in "@ + took
            &&& !after.1 && after.0 != noted ==> after.0.state.events.last() == head
                + decimal_digits(count_where(seen.fleet, is_on_target(noted.generation))) + "/"@
                + decimal_digits(exercised_agents(noted.generation)) + " agents on target, "@
                + decimal_digits(count_where(seen.fleet, is_draining(noted.generation)))
                + " draining, "@ + took + " elapsed"@
        }),
{
    let noted = reaction_noted(groups_seen(at, seen), seen);
    let head = "gen (seed "@ + decimal_digits(noted.generation.seed as nat) + "): "@;
    let took = decimal_digits(seen.elapsed as nat) + "s"@;
    reveal_strlit("s");
    reveal_strlit(" elapsed");
    reveal_strlit("s elapsed");
    assert("s"@ + " elapsed"@ =~= "s elapsed"@);
    assert(head + "generation settled in "@ + decimal_digits(seen.elapsed as nat) + "s"@ =~= head
        + "generation settled in "@ + took);
    let told = head + decimal_digits(count_where(seen.fleet, is_on_target(noted.generation))) + "/"@
        + decimal_digits(exercised_agents(noted.generation)) + " agents on target, "@
        + decimal_digits(count_where(seen.fleet, is_draining(noted.generation))) + " draining, "@;
    assert(told + took + " elapsed"@ =~= told + decimal_digits(seen.elapsed as nat) + ("s"@
        + " elapsed"@));
}

} // verus!
