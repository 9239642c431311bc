//! What the nodes of a group show when a generation counts the group as settled.

use crate::demo::fleet::{count_where, lemma_filter_push};
use crate::e2e::chaos::{
    advancing, after_look, are_among, cohorts_with, containing, convergence_notice, group_nodes,
    group_size, groups_with, is_of_group, is_settled, joined_by, lemma_cohorts_with, progress_text,
    wedged, GenerationView, Role,
};
use crate::e2e::fleet::{cohorts_are_told_by_their_groups, FleetNode};
use crate::e2e::layout::{cohort_group_text, names_are_distinct, COHORT_COUNT, NODE_COUNT};
use crate::naming::{
    fleet_versions_round_trip, major_of, major_version, versions_count_by_their_first_number,
};
use crate::text::{decimal_digits, view_of};
use vstd::prelude::*;

verus! {

/// Whether a node was selected into a group, as a predicate.
pub open spec fn selected(group: Seq<char>) -> spec_fn(FleetNode) -> bool {
    |node: FleetNode| view_of(node.selected_group) == Some(group)
}

// ----- the roles of the cohorts -----

proof fn lemma_groups_with(role: Role, cohort: int)
    requires
        0 <= cohort < COHORT_COUNT,
    ensures
        groups_with(role).contains(cohort_group_text(cohort as nat)) <==> cohorts_with(
            role,
            COHORT_COUNT as int,
        ).contains(cohort),
{
    let all = cohorts_with(role, COHORT_COUNT as int);
    let group = cohort_group_text(cohort as nat);
    lemma_cohorts_with(role, COHORT_COUNT as int);
    if all.contains(cohort) {
        let i = choose|i: int| 0 <= i < all.len() && all[i] == cohort;
        assert(groups_with(role)[i] == group);
    }
    if groups_with(role).contains(group) {
        let i = choose|i: int| 0 <= i < groups_with(role).len() && groups_with(role)[i] == group;
        assert(all.contains(all[i]));
        if all[i] != cohort {
            names_are_distinct(all[i] as nat, cohort as nat);
        }
    }
}

proof fn lemma_group_of(role: Role, group: Seq<char>) -> (cohort: int)
    requires
        groups_with(role).contains(group),
    ensures
        0 <= cohort < COHORT_COUNT,
        group == cohort_group_text(cohort as nat),
{
    let all = cohorts_with(role, COHORT_COUNT as int);
    lemma_cohorts_with(role, COHORT_COUNT as int);
    let i = choose|i: int| 0 <= i < groups_with(role).len() && groups_with(role)[i] == group;
    assert(all.contains(all[i]));
    all[i]
}

/// Every fourth cohort, from the first on, takes the broken release and every other one the valid
/// release; the one right after a broken one is queued behind it; every second one is open to
/// disruption.
pub proof fn roles_repeat_every_fourth_cohort(cohort: int)
    requires
        0 <= cohort < COHORT_COUNT,
    ensures
        groups_with(Role::Broken).contains(cohort_group_text(cohort as nat)) <==> cohort % 4 == 0,
        groups_with(Role::Valid).contains(cohort_group_text(cohort as nat)) <==> cohort % 4 != 0,
        groups_with(Role::Queued).contains(cohort_group_text(cohort as nat)) <==> cohort % 4 == 1,
        groups_with(Role::Leading).contains(cohort_group_text(cohort as nat)) <==> cohort % 2 == 0,
{
    lemma_groups_with(Role::Broken, cohort);
    lemma_groups_with(Role::Valid, cohort);
    lemma_groups_with(Role::Queued, cohort);
    lemma_groups_with(Role::Leading, cohort);
    lemma_cohorts_with(Role::Broken, COHORT_COUNT as int);
    lemma_cohorts_with(Role::Valid, COHORT_COUNT as int);
    lemma_cohorts_with(Role::Queued, COHORT_COUNT as int);
    lemma_cohorts_with(Role::Leading, COHORT_COUNT as int);
}

// ----- one look -----

proof fn lemma_group_size(nodes: Seq<FleetNode>, cohort: nat)
    ensures
        group_size(nodes, cohort_group_text(cohort)) == count_where(
            nodes,
            selected(cohort_group_text(cohort)),
        ),
        forall|i: int|
            0 <= i < nodes.len() ==> is_of_group(#[trigger] nodes[i], cohort_group_text(cohort)) == (
            view_of(nodes[i].selected_group) == Some(cohort_group_text(cohort))),
    decreases nodes.len(),
{
    let group = cohort_group_text(cohort);
    assert forall|i: int| 0 <= i < nodes.len() implies is_of_group(#[trigger] nodes[i], group) == (
    view_of(nodes[i].selected_group) == Some(group)) by {
        cohorts_are_told_by_their_groups(nodes[i], nodes[i], cohort, group);
    }
    reveal(Seq::filter);
    if nodes.len() > 0 {
        lemma_group_size(nodes.drop_last(), cohort);
        lemma_filter_push(nodes.drop_last(), nodes.last(), selected(group));
        assert(nodes.drop_last().push(nodes.last()) =~= nodes);
        assert(nodes.last() == nodes[nodes.len() - 1]);
    }
}

proof fn lemma_joined(
    settled: Seq<Seq<char>>,
    groups: Seq<Seq<char>>,
    done: spec_fn(Seq<char>) -> bool,
    count: int,
    group: Seq<char>,
)
    requires
        0 <= count <= groups.len(),
    ensures
        joined_by(settled, groups, done, count).contains(group) <==> settled.contains(group) || (
        groups.take(count).contains(group) && done(group)),
    decreases count,
{
    if count > 0 {
        lemma_joined(settled, groups, done, count - 1, group);
        let earlier = joined_by(settled, groups, done, count - 1);
        let next = groups[count - 1];
        assert(groups.take(count) =~= groups.take(count - 1).push(next));
        crate::e2e::chaos::lemma_push_contains(groups.take(count - 1), next, group);
        crate::e2e::chaos::lemma_push_contains(earlier, next, group);
    }
}

/// A look counts a broken group as contained, where it had not been, exactly when the group has its
/// two nodes, each of them healthy and on a version whose first number is strictly below the broken
/// one, and one of them has rejected the broken release. Nothing that was contained is lost.
pub proof fn containment_is_every_node_below_the_broken_version(
    generation: GenerationView,
    nodes: Seq<FleetNode>,
    rejecting: Seq<Seq<char>>,
    elapsed: u64,
    cohort: int,
)
    requires
        0 <= cohort < COHORT_COUNT,
        cohort % 4 == 0,
    ensures
        ({
            let group = cohort_group_text(cohort as nat);
            let after = after_look(generation, nodes, rejecting, elapsed);
            after.settled_broken.contains(group) <==> generation.settled_broken.contains(group) || {
                &&& nodes.filter(selected(group)).len() == 2
                &&& forall|i: int|
                    0 <= i < nodes.len() && view_of((#[trigger] nodes[i]).selected_group) == Some(
                        group,
                    ) ==> nodes[i].healthy && nodes[i].version is Some && major_of(
                        nodes[i].version->Some_0@,
                    ) is Some && major_of(nodes[i].version->Some_0@)->Some_0 < generation.bad_major
                &&& exists|k: int| 0 <= k < rejecting.len() && #[trigger] rejecting[k] == group
            }
        }),
{
    let group = cohort_group_text(cohort as nat);
    let broken = groups_with(Role::Broken);
    roles_repeat_every_fourth_cohort(cohort);
    lemma_group_size(nodes, cohort as nat);
    lemma_joined(
        generation.settled_broken,
        broken,
        containing(nodes, generation.bad_major, rejecting),
        broken.len() as int,
        group,
    );
    assert(broken.take(broken.len() as int) =~= broken);
    if !generation.settled_broken.contains(group) && after_look(
        generation,
        nodes,
        rejecting,
        elapsed,
    ).settled_broken.contains(group) {
        let k = choose|k: int| 0 <= k < rejecting.len() && rejecting[k] == group;
        assert(rejecting[k] == group);
        assert forall|i: int|
            0 <= i < nodes.len() && view_of((#[trigger] nodes[i]).selected_group) == Some(
                group,
            ) implies nodes[i].healthy && nodes[i].version is Some && major_of(
            nodes[i].version->Some_0@,
        ) is Some && major_of(nodes[i].version->Some_0@)->Some_0 < generation.bad_major by {
            assert(is_of_group(nodes[i], group));
        }
    }
}

/// No node of a group that a look counts as contained, where it had not been, reports the broken
/// version, nor any version whose first number is as high or higher.
pub proof fn contained_nodes_do_not_run_the_broken_version(
    generation: GenerationView,
    nodes: Seq<FleetNode>,
    rejecting: Seq<Seq<char>>,
    elapsed: u64,
    cohort: int,
    index: int,
    major: nat,
    rest: Seq<char>,
)
    requires
        0 <= cohort < COHORT_COUNT,
        cohort % 4 == 0,
        !generation.settled_broken.contains(cohort_group_text(cohort as nat)),
        after_look(generation, nodes, rejecting, elapsed).settled_broken.contains(
            cohort_group_text(cohort as nat),
        ),
        0 <= index < nodes.len(),
        view_of(nodes[index].selected_group) == Some(cohort_group_text(cohort as nat)),
        major >= generation.bad_major,
    ensures
        nodes[index].healthy,
        nodes[index].version is Some,
        nodes[index].version->Some_0@ != major_version(generation.bad_major as nat),
        nodes[index].version->Some_0@ != decimal_digits(major),
        nodes[index].version->Some_0@ != decimal_digits(major) + "."@ + rest,
{
    containment_is_every_node_below_the_broken_version(
        generation,
        nodes,
        rejecting,
        elapsed,
        cohort,
    );
    fleet_versions_round_trip(generation.bad_major as nat);
    versions_count_by_their_first_number(major, rest);
    assert(view_of(nodes[index].selected_group) == Some(cohort_group_text(cohort as nat)));
}

/// A look counts a valid group as advanced, where it had not been, exactly when the group has its two
/// nodes, each of them healthy and on the valid version to the letter. Nothing that had advanced is
/// lost.
pub proof fn advancing_is_every_node_on_the_valid_version(
    generation: GenerationView,
    nodes: Seq<FleetNode>,
    rejecting: Seq<Seq<char>>,
    elapsed: u64,
    cohort: int,
)
    requires
        0 <= cohort < COHORT_COUNT,
        cohort % 4 != 0,
    ensures
        ({
            let group = cohort_group_text(cohort as nat);
            let after = after_look(generation, nodes, rejecting, elapsed);
            after.settled_valid.contains(group) <==> generation.settled_valid.contains(group) || {
                &&& nodes.filter(selected(group)).len() == 2
                &&& forall|i: int|
                    0 <= i < nodes.len() && view_of((#[trigger] nodes[i]).selected_group) == Some(
                        group,
                    ) ==> nodes[i].healthy && nodes[i].version is Some
                        && nodes[i].version->Some_0@ == decimal_digits(generation.good_major as nat)
                        + ".0.0"@
            }
        }),
{
    let group = cohort_group_text(cohort as nat);
    let valid = groups_with(Role::Valid);
    roles_repeat_every_fourth_cohort(cohort);
    lemma_group_size(nodes, cohort as nat);
    lemma_joined(
        generation.settled_valid,
        valid,
        advancing(nodes, major_version(generation.good_major as nat)),
        valid.len() as int,
        group,
    );
    assert(valid.take(valid.len() as int) =~= valid);
    if !generation.settled_valid.contains(group) && after_look(
        generation,
        nodes,
        rejecting,
        elapsed,
    ).settled_valid.contains(group) {
        assert forall|i: int|
            0 <= i < nodes.len() && view_of((#[trigger] nodes[i]).selected_group) == Some(
                group,
            ) implies nodes[i].healthy && nodes[i].version is Some && nodes[i].version->Some_0@
            == decimal_digits(generation.good_major as nat) + ".0.0"@ by {
            assert(is_of_group(nodes[i], group));
        }
    }
}

proof fn lemma_groups_are_distinct(role: Role)
    ensures
        groups_with(role).no_duplicates(),
{
    let all = cohorts_with(role, COHORT_COUNT as int);
    lemma_cohorts_with(role, COHORT_COUNT as int);
    assert forall|i: int, j: int|
        0 <= i < groups_with(role).len() && 0 <= j < groups_with(role).len() && i
            != j implies groups_with(role)[i] != groups_with(role)[j] by {
        assert(all.contains(all[i]) && all.contains(all[j]));
        names_are_distinct(all[i] as nat, all[j] as nat);
    }
}

proof fn lemma_full(settled: Seq<Seq<char>>, groups: Seq<Seq<char>>)
    requires
        are_among(settled, groups),
        groups.no_duplicates(),
    ensures
        settled.len() == groups.len() <==> (forall|i: int|
            0 <= i < groups.len() ==> settled.contains(#[trigger] groups[i])),
{
    settled.unique_seq_to_set();
    groups.unique_seq_to_set();
    assert forall|group: Seq<char>| settled.to_set().contains(group) implies groups.to_set().contains(
        group,
    ) by {
        let i = choose|i: int| 0 <= i < settled.len() && settled[i] == group;
        assert(groups.contains(settled[i]));
    }
    if settled.len() == groups.len() {
        vstd::set_lib::lemma_subset_equality(settled.to_set(), groups.to_set());
        assert forall|i: int| 0 <= i < groups.len() implies settled.contains(#[trigger] groups[i]) by {
            assert(groups.to_set().contains(groups[i]));
        }
    }
    if forall|i: int| 0 <= i < groups.len() ==> settled.contains(#[trigger] groups[i]) {
        assert(groups.to_set().subset_of(settled.to_set())) by {
            assert forall|group: Seq<char>| groups.to_set().contains(
                group,
            ) implies settled.to_set().contains(group) by {
                let i = choose|i: int| 0 <= i < groups.len() && groups[i] == group;
                assert(settled.contains(groups[i]));
            }
        }
        vstd::set_lib::lemma_len_subset(groups.to_set(), settled.to_set());
        vstd::set_lib::lemma_len_subset(settled.to_set(), groups.to_set());
    }
}

/// A generation has settled exactly when every fourth cohort, from the first on, is contained and
/// every other one has advanced.
pub proof fn a_generation_settles_with_its_last_cohort(generation: GenerationView)
    requires
        are_among(generation.settled_broken, groups_with(Role::Broken)),
        are_among(generation.settled_valid, groups_with(Role::Valid)),
    ensures
        is_settled(generation) <==> (forall|cohort: int|
            0 <= cohort < 16 ==> if cohort % 4 == 0 {
                generation.settled_broken.contains(#[trigger] cohort_group_text(cohort as nat))
            } else {
                generation.settled_valid.contains(cohort_group_text(cohort as nat))
            }),
{
    lemma_groups_are_distinct(Role::Broken);
    lemma_groups_are_distinct(Role::Valid);
    lemma_full(generation.settled_broken, groups_with(Role::Broken));
    lemma_full(generation.settled_valid, groups_with(Role::Valid));
    if is_settled(generation) {
        assert forall|cohort: int| 0 <= cohort < 16 implies if cohort % 4 == 0 {
            generation.settled_broken.contains(#[trigger] cohort_group_text(cohort as nat))
        } else {
            generation.settled_valid.contains(cohort_group_text(cohort as nat))
        } by {
            roles_repeat_every_fourth_cohort(cohort);
            let role = if cohort % 4 == 0 {
                Role::Broken
            } else {
                Role::Valid
            };
            let groups = groups_with(role);
            let group = cohort_group_text(cohort as nat);
            let i = choose|i: int| 0 <= i < groups.len() && groups[i] == group;
            assert(groups[i] == group);
        }
    }
    if forall|cohort: int|
        0 <= cohort < 16 ==> if cohort % 4 == 0 {
            generation.settled_broken.contains(#[trigger] cohort_group_text(cohort as nat))
        } else {
            generation.settled_valid.contains(cohort_group_text(cohort as nat))
        } {
        assert forall|i: int| 0 <= i < groups_with(
            Role::Broken,
        ).len() implies generation.settled_broken.contains(#[trigger] groups_with(Role::Broken)[i]) by {
            assert(groups_with(Role::Broken).contains(groups_with(Role::Broken)[i]));
            let cohort = lemma_group_of(Role::Broken, groups_with(Role::Broken)[i]);
            roles_repeat_every_fourth_cohort(cohort);
        }
        assert forall|i: int| 0 <= i < groups_with(
            Role::Valid,
        ).len() implies generation.settled_valid.contains(#[trigger] groups_with(Role::Valid)[i]) by {
            assert(groups_with(Role::Valid).contains(groups_with(Role::Valid)[i]));
            let cohort = lemma_group_of(Role::Valid, groups_with(Role::Valid)[i]);
            roles_repeat_every_fourth_cohort(cohort);
        }
    }
}

/// A look that leaves a generation unsettled notes its second exactly when fifteen have passed since
/// the last note; a look that settles it notes nothing. The versions never change.
pub proof fn notes_are_fifteen_seconds_apart(
    generation: GenerationView,
    nodes: Seq<FleetNode>,
    rejecting: Seq<Seq<char>>,
    elapsed: u64,
)
    ensures
        ({
            let after = after_look(generation, nodes, rejecting, elapsed);
            &&& after.bad_major == generation.bad_major
            &&& after.good_major == generation.good_major
            &&& is_settled(after) ==> after.last_logged == generation.last_logged
            &&& !is_settled(after) && elapsed - generation.last_logged >= 15 ==> after.last_logged
                == elapsed
            &&& elapsed - generation.last_logged < 15 ==> after.last_logged
                == generation.last_logged
        }),
{
}

/// The groups that a timeout names are those that are queued and have not advanced.
pub proof fn wedged_groups_have_not_advanced(
    queued: Seq<Seq<char>>,
    settled: Seq<Seq<char>>,
    group: Seq<char>,
)
    ensures
        wedged(queued, settled).contains(group) <==> queued.contains(group) && !settled.contains(
            group,
        ),
    decreases queued.len(),
{
    if queued.len() > 0 {
        let before = queued.drop_last();
        wedged_groups_have_not_advanced(before, settled, group);
        assert(queued =~= before.push(queued.last()));
        crate::e2e::chaos::lemma_push_contains(before, queued.last(), group);
        crate::e2e::chaos::lemma_push_contains(wedged(before, settled), queued.last(), group);
    }
}

/// The nodes of a group are those that were selected into it, no more and no fewer.
pub proof fn group_nodes_are_those_selected(nodes: Seq<FleetNode>, cohort: nat, name: Seq<char>)
    ensures
        ({
            let group = cohort_group_text(cohort);
            &&& group_nodes(nodes, group).len() == nodes.filter(selected(group)).len()
            &&& group_nodes(nodes, group).contains(name) <==> exists|i: int|
                0 <= i < nodes.len() && view_of((#[trigger] nodes[i]).selected_group) == Some(group)
                    && nodes[i].node@ == name
        }),
    decreases nodes.len(),
{
    let group = cohort_group_text(cohort);
    lemma_group_size(nodes, cohort);
    reveal(Seq::filter);
    if nodes.len() > 0 {
        let before = nodes.drop_last();
        let last = nodes.last();
        group_nodes_are_those_selected(before, cohort, name);
        lemma_filter_push(before, last, selected(group));
        assert(before.push(last) =~= nodes);
        assert(last == nodes[nodes.len() - 1]);
        crate::e2e::chaos::lemma_push_contains(group_nodes(before, group), last.node@, name);
        if group_nodes(before, group).contains(name) {
            let i = choose|i: int|
                0 <= i < before.len() && view_of((#[trigger] before[i]).selected_group) == Some(
                    group,
                ) && before[i].node@ == name;
            assert(nodes[i] == before[i]);
        }
        if exists|i: int|
            0 <= i < nodes.len() && view_of((#[trigger] nodes[i]).selected_group) == Some(group)
                && nodes[i].node@ == name {
            let i = choose|i: int|
                0 <= i < nodes.len() && view_of((#[trigger] nodes[i]).selected_group) == Some(group)
                    && nodes[i].node@ == name;
            if i < before.len() {
                assert(before[i] == nodes[i]);
            }
        }
    }
}

/// A notice counts the cohorts that have settled, by how they did; a convergence tells of itself at every
/// fifteenth look, and that the clock stands still where it does.
pub proof fn notices_count_what_has_settled(
    generation: GenerationView,
    elapsed: u64,
    attempt: usize,
    on_target: nat,
    version: Seq<char>,
    frozen: bool,
)
    ensures
        progress_text(generation, elapsed) == decimal_digits(
            generation.settled_broken.len() + generation.settled_valid.len(),
        ) + "/"@ + decimal_digits(COHORT_COUNT as nat) + " cohorts settled ("@ + decimal_digits(
            generation.settled_broken.len(),
        ) + " rolled back, "@ + decimal_digits(generation.settled_valid.len()) + " advanced), "@
            + decimal_digits(elapsed as nat) + "s elapsed"@,
        convergence_notice(attempt, on_target, version, frozen) is Some <==> attempt as int % 15
            == 0,
        attempt as int % 15 == 0 ==> ({
            let head = "convergence: "@ + decimal_digits(on_target) + "/"@ + decimal_digits(
                NODE_COUNT as nat,
            ) + " agents on "@ + version;
            let told = convergence_notice(attempt, on_target, version, frozen)->Some_0;
            &&& !frozen ==> told == head
            &&& frozen ==> told == head + " (frozen — clock paused)"@
        }),
{
    reveal_strlit("");
    let head = "convergence: "@ + decimal_digits(on_target) + "/"@ + decimal_digits(
        NODE_COUNT as nat,
    ) + " agents on "@ + version;
    assert(head + ""@ =~= head);
}

} // verus!
