//! The epochs of a chaos run: the fleet diverges, generation by generation, then converges on one
//! new version.

use crate::demo::fleet::{
    count_where, in_cohort, is_cohort_member, lemma_counts_agree, lemma_filter_push, FleetNode,
};
use crate::demo::generation::{assignment_view, is_advanced, select_generation, undriven};
use crate::demo::layout::{
    cohort_group, cohort_group_text, DEMO_COHORT_COUNT, DEMO_CONVERGE_TIMEOUT_SECS, DEMO_NODE_COUNT,
};
use crate::demo::state::{begun, with_event, ChaosState, ChaosView};
use crate::naming::{major_of, major_version, version_major, version_of_major};
use crate::text::{decimal, decimal_digits, view_of, views};
use vstd::prelude::*;

verus! {

// ----- the baseline -----

/// The major number that a node reports, if it reports one.
pub open spec fn reported_major(node: FleetNode) -> Option<nat> {
    match node.version {
        Some(version) => major_of(version@),
        None => None,
    }
}

/// The highest major number that a node of the fleet reports, if one does.
pub fn baseline_major(fleet: &Vec<FleetNode>) -> (result: Option<usize>)
    ensures
        match result {
            Some(major) => {
                &&& exists|i: int|
                    0 <= i < fleet@.len() && #[trigger] reported_major(fleet@[i]) == Some(
                        major as nat,
                    )
                &&& forall|i: int|
                    0 <= i < fleet@.len() && (#[trigger] reported_major(fleet@[i])) is Some
                        ==> reported_major(fleet@[i])->Some_0 <= major
            },
            None => forall|i: int|
                0 <= i < fleet@.len() ==> (#[trigger] reported_major(fleet@[i])) is None,
        },
{
    let mut highest: Option<usize> = None;
    let mut index: usize = 0;
    while index < fleet.len()
        invariant
            index <= fleet.len(),
            match highest {
                Some(major) => {
                    &&& exists|i: int|
                        0 <= i < index && #[trigger] reported_major(fleet@[i]) == Some(major as nat)
                    &&& forall|i: int|
                        0 <= i < index && (#[trigger] reported_major(fleet@[i])) is Some
                            ==> reported_major(fleet@[i])->Some_0 <= major
                },
                None => forall|i: int|
                    0 <= i < index ==> (#[trigger] reported_major(fleet@[i])) is None,
            },
        decreases fleet.len() - index,
    {
        let reported = match &fleet[index].version {
            Some(version) => version_major(version.as_str()),
            None => None,
        };
        assert(match reported {
            Some(major) => reported_major(fleet@[index as int]) == Some(major as nat),
            None => reported_major(fleet@[index as int]) is None,
        });
        highest = match (reported, highest) {
            (Some(major), Some(best)) => if major > best {
                Some(major)
            } else {
                Some(best)
            },
            (Some(major), None) => Some(major),
            (None, best) => best,
        };
        index = index + 1;
    }
    highest
}

// ----- the start of a run -----

/// The event that opens a run.
pub open spec fn opening_event(state: ChaosView, seed: u64, baseline: usize) -> Seq<char> {
    "seed "@ + decimal_digits(seed as nat) + ": "@ + (if state.loop_number == 0 {
        "starting"@
    } else {
        "resuming"@
    }) + " convergence chaos from "@ + decimal_digits(baseline as nat) + ".0.0"@
}

/// The state in which a run starts from `baseline`.
pub open spec fn run_started(
    state: ChaosView,
    seed: u64,
    baseline: usize,
    chaos_disabled: bool,
) -> ChaosView {
    let opened = with_event(begun(state, seed), opening_event(state, seed, baseline));
    if chaos_disabled {
        with_event(
            opened,
            "pod-kill chaos disabled (DEMO_DISABLE_CHAOS): rolling without injected disruption"@,
        )
    } else {
        opened
    }
}

/// Starts a run, or resumes the epoch that an earlier run left, and returns the loop number it
/// goes on from.
pub fn start_run(state: &mut ChaosState, seed: u64, baseline: usize, chaos_disabled: bool) -> (result:
    usize)
    ensures
        final(state)@ == run_started(old(state)@, seed, baseline, chaos_disabled),
        result == old(state).loop_number,
{
    let verb: &str = if state.loop_number == 0 {
        "starting"
    } else {
        "resuming"
    };
    let first_loop: usize = state.begin_run(seed);
    let mut event = String::from_str("seed ");
    event.append(decimal(seed).as_str());
    event.append(": ");
    event.append(verb);
    event.append(" convergence chaos from ");
    event.append(decimal(baseline as u64).as_str());
    event.append(".0.0");
    state.event(event);
    if chaos_disabled {
        state.event(
            String::from_str(
                "pod-kill chaos disabled (DEMO_DISABLE_CHAOS): rolling without injected disruption",
            ),
        );
    }
    first_loop
}

// ----- the epochs -----

/// The epoch that a number falls in, counted from 1: each covers a hundred, of loop numbers as of
/// versions.
pub open spec fn epoch_of(number: int) -> int {
    (if number > 0 {
        number - 1
    } else {
        0
    }) / 100 + 1
}

/// The version that an epoch converges on.
pub open spec fn epoch_version(epoch: int) -> int {
    epoch * 100 + 1
}

/// An epoch and the version that it converges on.
#[derive(Clone, Copy, PartialEq, Eq, Structural, Debug)]
pub struct Epoch {
    pub number: usize,
    pub converge_major: usize,
}

/// The epoch of this number.
pub open spec fn epoch_numbered(number: int) -> Epoch {
    Epoch { number: number as usize, converge_major: epoch_version(number) as usize }
}

/// The cohorts that are left to drive in the epoch, each with its role.
pub open spec fn left_to_drive(state: ChaosView) -> Seq<(int, bool)> {
    undriven(state, DEMO_COHORT_COUNT as int)
}

/// Whether a run that goes on from a loop number is in the middle of the epoch that the state shows.
pub open spec fn resumes(state: ChaosView, loop_number: int) -> bool {
    state.epoch == epoch_of(loop_number)
}

/// How many cohorts are due once a run goes on from a loop number: those that are left, in the
/// middle of an epoch, and all of them in a new one.
pub open spec fn cohorts_due(state: ChaosView, loop_number: int) -> nat {
    if resumes(state, loop_number) {
        left_to_drive(state).len()
    } else {
        DEMO_COHORT_COUNT as nat
    }
}

/// How many generations it takes to drive so many cohorts: a generation takes all that are left.
pub open spec fn generations_due(due: nat) -> nat {
    if due > 0 {
        1
    } else {
        0
    }
}

/// How far the loop number and the versions come, from a loop number and a version, while so many
/// cohorts are driven: a generation counts as one and takes two versions.
pub open spec fn reach(loop_number: int, major: int, due: nat) -> int {
    let loops = loop_number + generations_due(due);
    let majors = major + 2 * generations_due(due);
    if loops > majors {
        loops
    } else {
        majors
    }
}

/// The epoch that converges on something newer than all that so many cohorts take.
pub open spec fn due_epoch(loop_number: int, major: int, due: nat) -> int {
    epoch_of(reach(loop_number, major, due))
}

/// The loop number with which an epoch goes on: it jumps to the first of a later epoch.
pub open spec fn epoch_loop(loop_number: int, epoch: int) -> int {
    if epoch_of(loop_number) == epoch {
        loop_number
    } else {
        epoch_version(epoch - 1)
    }
}

/// The event that tells of an epoch.
pub open spec fn epoch_event(epoch: int, baseline: nat) -> Seq<char> {
    "epoch "@ + decimal_digits(epoch as nat) + ": diverging the fleet from "@ + decimal_digits(
        baseline,
    ) + ".0.0 toward convergence on "@ + decimal_digits(epoch_version(epoch) as nat) + ".0.0"@
}

/// The state that forgets which groups were driven.
pub open spec fn undriven_again(state: ChaosView) -> ChaosView {
    ChaosView {
        rolled_back_groups: Seq::empty(),
        updated_groups: Seq::empty(),
        active_broken: Seq::empty(),
        active_valid: Seq::empty(),
        converging: false,
        completed_nodes: 0,
        ..state
    }
}

/// The state once it shows the epoch `epoch`, in which the loop number is at `loop_number`.
pub open spec fn epoch_shown(state: ChaosView, epoch: int, loop_number: int, baseline: nat) -> ChaosView {
    with_event(
        ChaosView { epoch: epoch as usize, loop_number: loop_number as usize, ..state },
        epoch_event(epoch, baseline),
    )
}

/// The state once a run goes on from a loop number and a baseline. Only an epoch that is new forgets
/// which groups were driven; one that is resumed does not, even where the fleet has moved so far that
/// it converges on a later version.
pub open spec fn epoch_entered(state: ChaosView, loop_number: int, baseline: int) -> ChaosView {
    let epoch = due_epoch(loop_number, baseline, cohorts_due(state, loop_number));
    let moved = if epoch_of(loop_number) == epoch {
        state.loop_number as int
    } else {
        epoch_loop(loop_number, epoch)
    };
    if !resumes(state, loop_number) {
        epoch_shown(undriven_again(state), epoch, moved, baseline as nat)
    } else if state.epoch == epoch {
        state
    } else {
        epoch_shown(state, epoch, moved, baseline as nat)
    }
}

proof fn lemma_undriven_bound(state: ChaosView, count: int)
    requires
        0 <= count,
    ensures
        undriven(state, count).len() <= count,
    decreases count,
{
    if count > 0 {
        lemma_undriven_bound(state, count - 1);
    }
}

proof fn lemma_undriven_alike(state: ChaosView, other: ChaosView, count: int)
    requires
        state.rolled_back_groups == other.rolled_back_groups,
        state.updated_groups == other.updated_groups,
    ensures
        undriven(state, count) == undriven(other, count),
    decreases count,
{
    if count > 0 {
        lemma_undriven_alike(state, other, count - 1);
    }
}

proof fn lemma_all_undriven(state: ChaosView, count: int)
    requires
        state.rolled_back_groups.len() == 0,
        state.updated_groups.len() == 0,
        0 <= count,
    ensures
        undriven(state, count).len() == count,
    decreases count,
{
    if count > 0 {
        lemma_all_undriven(state, count - 1);
    }
}

/// No more cohorts are due than there are.
pub proof fn cohorts_due_are_bounded(state: ChaosView, loop_number: int)
    ensures
        cohorts_due(state, loop_number) <= DEMO_COHORT_COUNT,
        left_to_drive(state).len() <= DEMO_COHORT_COUNT,
{
    lemma_undriven_bound(state, DEMO_COHORT_COUNT as int);
}

/// Entering an epoch leaves as many cohorts to drive as are due.
pub proof fn entering_leaves_what_is_due(state: ChaosView, loop_number: int, baseline: int)
    ensures
        left_to_drive(epoch_entered(state, loop_number, baseline)).len() == cohorts_due(
            state,
            loop_number,
        ),
{
    resuming_drives_nothing_again(state, loop_number, baseline);
}

/// A run that resumes an epoch goes on with the cohorts that are left: none that was driven is driven
/// again. One that enters a new epoch starts over with all of them.
pub proof fn resuming_drives_nothing_again(state: ChaosView, loop_number: int, baseline: int)
    ensures
        resumes(state, loop_number) ==> left_to_drive(epoch_entered(state, loop_number, baseline))
            == left_to_drive(state),
        !resumes(state, loop_number) ==> left_to_drive(
            epoch_entered(state, loop_number, baseline),
        ).len() == DEMO_COHORT_COUNT,
{
    let entered = epoch_entered(state, loop_number, baseline);
    if resumes(state, loop_number) {
        lemma_undriven_alike(state, entered, DEMO_COHORT_COUNT as int);
    } else {
        lemma_all_undriven(entered, DEMO_COHORT_COUNT as int);
    }
}

/// How many cohorts are left to drive.
pub fn count_left(state: &ChaosState) -> (result: usize)
    ensures
        result == left_to_drive(state@).len(),
        result <= DEMO_COHORT_COUNT,
{
    proof {
        lemma_undriven_bound(state@, DEMO_COHORT_COUNT as int);
    }
    match select_generation(state) {
        Some(assignments) => {
            assert(assignment_view(assignments@).len() == assignments@.len());
            assignments.len()
        },
        None => 0,
    }
}

/// The epoch that a number falls in.
pub fn find_epoch(number: usize) -> (result: usize)
    ensures
        result == epoch_of(number as int),
{
    if number > 0 {
        (number - 1) / 100 + 1
    } else {
        1
    }
}

/// The loop number with which an epoch goes on.
pub fn find_epoch_loop(loop_number: usize, epoch: usize) -> (result: usize)
    requires
        epoch >= 1,
        epoch_version(epoch as int) <= usize::MAX,
    ensures
        result == epoch_loop(loop_number as int, epoch as int),
{
    if find_epoch(loop_number) == epoch {
        loop_number
    } else {
        (epoch - 1) * 100 + 1
    }
}

/// How far the loop number and the versions come.
fn find_reach(loop_number: usize, major: usize, due: usize) -> (result: usize)
    requires
        reach(loop_number as int, major as int, due as nat) <= usize::MAX,
    ensures
        result == reach(loop_number as int, major as int, due as nat),
{
    let generations: usize = if due > 0 {
        1
    } else {
        0
    };
    let loops: usize = loop_number + generations;
    let majors: usize = major + generations + generations;
    if loops > majors {
        loops
    } else {
        majors
    }
}

/// Shows an epoch.
fn show_epoch(state: &mut ChaosState, epoch: &Epoch, loop_number: usize, baseline: usize)
    requires
        *epoch == epoch_numbered(epoch.number as int),
        epoch_version(epoch.number as int) <= usize::MAX,
    ensures
        final(state)@ == epoch_shown(
            old(state)@,
            epoch.number as int,
            loop_number as int,
            baseline as nat,
        ),
{
    state.epoch = epoch.number;
    state.loop_number = loop_number;
    let mut event = String::from_str("epoch ");
    event.append(decimal(epoch.number as u64).as_str());
    event.append(": diverging the fleet from ");
    event.append(decimal(baseline as u64).as_str());
    event.append(".0.0 toward convergence on ");
    event.append(decimal(epoch.converge_major as u64).as_str());
    event.append(".0.0");
    state.event(event);
}

/// Enters the epoch in which a run goes on from a loop number and a baseline: the one that converges
/// on something newer than all that the cohorts which are due take.
pub fn enter_epoch(state: &mut ChaosState, loop_number: usize, baseline: usize) -> (result: Epoch)
    requires
        epoch_version(
            due_epoch(
                loop_number as int,
                baseline as int,
                cohorts_due(old(state)@, loop_number as int),
            ),
        ) <= usize::MAX,
    ensures
        result == epoch_numbered(
            due_epoch(
                loop_number as int,
                baseline as int,
                cohorts_due(old(state)@, loop_number as int),
            ),
        ),
        result.converge_major > baseline,
        result.converge_major > loop_number,
        final(state)@ == epoch_entered(old(state)@, loop_number as int, baseline as int),
        left_to_drive(final(state)@).len() == cohorts_due(old(state)@, loop_number as int),
{
    proof {
        cohorts_due_are_bounded(state@, loop_number as int);
        entering_leaves_what_is_due(state@, loop_number as int, baseline as int);
    }
    let shown: usize = find_epoch(loop_number);
    let resumed = state.epoch == shown;
    let due: usize = if resumed {
        count_left(state)
    } else {
        DEMO_COHORT_COUNT
    };
    let number: usize = find_epoch(find_reach(loop_number, baseline, due));
    let epoch = Epoch { number, converge_major: number * 100 + 1 };
    let moved: usize = if shown == number {
        state.loop_number
    } else {
        find_epoch_loop(loop_number, number)
    };
    if !resumed {
        state.rolled_back_groups = Vec::new();
        state.updated_groups = Vec::new();
        state.active_broken = Vec::new();
        state.active_valid = Vec::new();
        state.converging = false;
        state.completed_nodes = 0;
        assert(views(state.rolled_back_groups@) =~= Seq::<Seq<char>>::empty());
        assert(state@ =~= undriven_again(old(state)@));
        show_epoch(state, &epoch, moved, baseline);
    } else if state.epoch != number {
        show_epoch(state, &epoch, moved, baseline);
    }
    epoch
}

/// Moves on to a later epoch, in the middle of one, where the cohorts that are left could otherwise
/// take a version that is not older than the one converged on. What was driven stays driven.
pub fn move_epoch(state: &mut ChaosState, loop_number: usize, major: usize, left: usize) -> (result:
    Epoch)
    requires
        epoch_version(due_epoch(loop_number as int, major as int, left as nat)) <= usize::MAX,
        epoch_of(loop_number as int) < due_epoch(loop_number as int, major as int, left as nat),
    ensures
        result == epoch_numbered(due_epoch(loop_number as int, major as int, left as nat)),
        final(state)@ == epoch_shown(
            old(state)@,
            result.number as int,
            epoch_loop(loop_number as int, result.number as int),
            major as nat,
        ),
{
    let number: usize = find_epoch(find_reach(loop_number, major, left));
    let epoch = Epoch { number, converge_major: number * 100 + 1 };
    show_epoch(state, &epoch, find_epoch_loop(loop_number, number), major);
    epoch
}

/// The state while the generation with this loop number rolls out its two versions.
pub open spec fn loop_entered(
    state: ChaosView,
    seed: u64,
    loop_number: usize,
    bad_major: usize,
    good_major: usize,
) -> ChaosView {
    ChaosView {
        seed,
        loop_number,
        bad_version: major_version(bad_major as nat),
        good_version: major_version(good_major as nat),
        ..state
    }
}

/// Shows the generation with this loop number.
pub fn enter_loop(state: &mut ChaosState, seed: u64, loop_number: usize, bad_major: usize, good_major: usize)
    ensures
        final(state)@ == loop_entered(old(state)@, seed, loop_number, bad_major, good_major),
{
    state.seed = seed;
    state.loop_number = loop_number;
    state.bad_version = version_of_major(bad_major);
    state.good_version = version_of_major(good_major);
}

// ----- the convergence that closes an epoch -----

/// The state while the fleet converges.
pub open spec fn convergence_begun(state: ChaosView, converge_major: usize) -> ChaosView {
    let version = major_version(converge_major as nat);
    with_event(
        ChaosView {
            active_broken: Seq::empty(),
            active_valid: Seq::empty(),
            converging: true,
            good_version: version,
            ..state
        },
        "CONVERGENCE: upgrading all "@ + decimal_digits(DEMO_COHORT_COUNT as nat) + " cohorts to "@
            + version + " (the next epoch's baseline)"@,
    )
}

/// Shows that the fleet converges on `converge_major`. No group counts as broken meanwhile.
pub fn begin_convergence(state: &mut ChaosState, converge_major: usize)
    ensures
        final(state)@ == convergence_begun(old(state)@, converge_major),
{
    let version = version_of_major(converge_major);
    let mut event = String::from_str("CONVERGENCE: upgrading all ");
    event.append(decimal(DEMO_COHORT_COUNT as u64).as_str());
    event.append(" cohorts to ");
    event.append(version.as_str());
    event.append(" (the next epoch's baseline)");
    state.active_broken = Vec::new();
    state.active_valid = Vec::new();
    state.converging = true;
    state.good_version = version;
    assert(views(state.active_broken@) =~= Seq::<Seq<char>>::empty());
    state.event(event);
}

/// Whether a cohort member serves `version`.
pub open spec fn member_on(version: Seq<char>) -> spec_fn(FleetNode) -> bool {
    |node: FleetNode| in_cohort(node) && is_advanced(node, version)
}

/// Whether a node is a cohort member.
pub open spec fn member() -> spec_fn(FleetNode) -> bool {
    |node: FleetNode| in_cohort(node)
}

/// As many cohort members count as serving a version as are healthy, in the load balancer and on that
/// version to the letter; the whole cohort fleet has converged exactly when there are 32 cohort
/// members and each of them does.
pub proof fn converging_is_every_member_serving(fleet: Seq<FleetNode>, version: Seq<char>)
    ensures
        count_where(fleet, member_on(version)) == fleet.filter(
            |node: FleetNode|
                in_cohort(node) && node.healthy && node.in_load_balancer && view_of(node.version)
                    == Some(version),
        ).len(),
        count_where(fleet, member()) == fleet.filter(|node: FleetNode| in_cohort(node)).len(),
        count_where(fleet, member()) == 32 && count_where(fleet, member_on(version)) == 32
            <==> fleet.filter(|node: FleetNode| in_cohort(node)).len() == 32 && (forall|i: int|
            0 <= i < fleet.len() && in_cohort(#[trigger] fleet[i]) ==> fleet[i].healthy
                && fleet[i].in_load_balancer && view_of(fleet[i].version) == Some(version)),
{
    let all = |node: FleetNode| in_cohort(node);
    let serving = |node: FleetNode|
        in_cohort(node) && node.healthy && node.in_load_balancer && view_of(node.version) == Some(
            version,
        );
    assert(member() =~= all);
    assert(member_on(version) =~= serving);
    lemma_counts_agree(fleet, serving, all);
    if forall|i: int|
        0 <= i < fleet.len() && in_cohort(#[trigger] fleet[i]) ==> fleet[i].healthy
            && fleet[i].in_load_balancer && view_of(fleet[i].version) == Some(version) {
        assert forall|i: int| 0 <= i < fleet.len() && all(#[trigger] fleet[i]) implies serving(
            fleet[i],
        ) by {}
    }
    if count_where(fleet, serving) == count_where(fleet, all) {
        assert forall|i: int| 0 <= i < fleet.len() && in_cohort(
            #[trigger] fleet[i],
        ) implies fleet[i].healthy && fleet[i].in_load_balancer && view_of(fleet[i].version) == Some(
            version,
        ) by {
            assert(all(fleet[i]));
            assert(serving(fleet[i]));
        }
    }
}

/// How far a convergence has come.
pub struct ConvergenceSight {
    pub on_target: usize,
    pub converged: bool,
}

/// Looks how many cohort members serve `version`, and whether the whole cohort fleet does.
pub fn look_at_convergence(fleet: &Vec<FleetNode>, version: &str) -> (result: ConvergenceSight)
    ensures
        result.on_target == count_where(fleet@, member_on(version@)),
        result.converged == (count_where(fleet@, member()) == DEMO_NODE_COUNT && count_where(
            fleet@,
            member_on(version@),
        ) == DEMO_NODE_COUNT),
        result.on_target == fleet@.filter(
            |node: FleetNode|
                in_cohort(node) && node.healthy && node.in_load_balancer && view_of(node.version)
                    == Some(version@),
        ).len(),
        result.converged <==> fleet@.filter(|node: FleetNode| in_cohort(node)).len() == 32 && (
        forall|i: int|
            0 <= i < fleet@.len() && in_cohort(#[trigger] fleet@[i]) ==> fleet@[i].healthy
                && fleet@[i].in_load_balancer && view_of(fleet@[i].version) == Some(version@)),
{
    proof {
        converging_is_every_member_serving(fleet@, version@);
    }
    let mut members: usize = 0;
    let mut on_target: usize = 0;
    let mut index: usize = 0;
    proof {
        reveal(Seq::filter);
    }
    while index < fleet.len()
        invariant
            index <= fleet.len(),
            members == fleet@.take(index as int).filter(member()).len(),
            on_target == fleet@.take(index as int).filter(member_on(version@)).len(),
            members <= index,
            on_target <= index,
        decreases fleet.len() - index,
    {
        proof {
            assert(fleet@.take(index + 1) == fleet@.take(index as int).push(fleet@[index as int]));
            lemma_filter_push(fleet@.take(index as int), fleet@[index as int], member());
            lemma_filter_push(
                fleet@.take(index as int),
                fleet@[index as int],
                member_on(version@),
            );
        }
        let node = &fleet[index];
        if is_cohort_member(node) {
            members = members + 1;
            if node.healthy && node.in_load_balancer && crate::demo::fleet::holds_text(
                &node.version,
                version,
            ) {
                on_target = on_target + 1;
            }
        }
        index = index + 1;
    }
    assert(fleet@.take(fleet.len() as int) == fleet@);
    ConvergenceSight {
        on_target,
        converged: members == DEMO_NODE_COUNT && on_target == DEMO_NODE_COUNT,
    }
}

/// The event at a look at a convergence that has not ended: every second look tells how far it has
/// come.
pub open spec fn convergence_told(attempt: usize, on_target: nat, version: Seq<char>, frozen: bool) -> Option<
    Seq<char>,
> {
    if attempt % 2 == 0 {
        Some(
            "convergence: "@ + decimal_digits(on_target) + "/"@ + decimal_digits(
                DEMO_NODE_COUNT as nat,
            ) + " agents on "@ + version + (if frozen {
                " (frozen — clock paused)"@
            } else {
                ""@
            }),
        )
    } else {
        None
    }
}

/// The event at a look at a convergence that has not ended.
pub fn convergence_event(attempt: usize, on_target: usize, version: &str, frozen: bool) -> (result:
    Option<String>)
    ensures
        view_of(result) == convergence_told(attempt, on_target as nat, version@, frozen),
{
    if attempt % 2 != 0 {
        return None;
    }
    let mut event = String::from_str("convergence: ");
    event.append(decimal(on_target as u64).as_str());
    event.append("/");
    event.append(decimal(DEMO_NODE_COUNT as u64).as_str());
    event.append(" agents on ");
    event.append(version);
    event.append(
        if frozen {
            " (frozen — clock paused)"
        } else {
            ""
        },
    );
    Some(event)
}

/// The message for a convergence that spent its budget.
pub fn convergence_timeout_message(version: &str) -> (result: String)
    ensures
        result@ == "fleet did not converge onto "@ + version@ + " within "@ + decimal_digits(
            DEMO_CONVERGE_TIMEOUT_SECS as nat,
        ) + " seconds"@,
{
    let mut result = String::from_str("fleet did not converge onto ");
    result.append(version);
    result.append(" within ");
    result.append(decimal(DEMO_CONVERGE_TIMEOUT_SECS as u64).as_str());
    result.append(" seconds");
    result
}

/// The groups of every cohort, in order.
pub open spec fn every_cohort_group() -> Seq<Seq<char>> {
    Seq::new(DEMO_COHORT_COUNT as nat, |i: int| cohort_group_text(i as nat))
}

/// The groups of every cohort, in order.
pub fn all_cohort_groups() -> (result: Vec<String>)
    ensures
        views(result@) == every_cohort_group(),
{
    let mut result: Vec<String> = Vec::new();
    let mut index: usize = 0;
    while index < DEMO_COHORT_COUNT
        invariant
            index <= DEMO_COHORT_COUNT,
            views(result@) == every_cohort_group().take(index as int),
        decreases DEMO_COHORT_COUNT - index,
    {
        let ghost before = result@;
        let group = cohort_group(index);
        result.push(group);
        assert(views(result@) =~= views(before).push(group@));
        assert(every_cohort_group().take(index + 1) =~= every_cohort_group().take(
            index as int,
        ).push(group@));
        index = index + 1;
    }
    assert(every_cohort_group().take(DEMO_COHORT_COUNT as int) =~= every_cohort_group());
    result
}

/// The state once the fleet converged.
pub open spec fn convergence_ended(state: ChaosView) -> ChaosView {
    ChaosView {
        updated_groups: every_cohort_group(),
        rolled_back_groups: Seq::empty(),
        active_broken: Seq::empty(),
        active_valid: Seq::empty(),
        converging: false,
        completed_nodes: DEMO_COHORT_COUNT,
        ..state
    }
}

/// Shows that the fleet converged.
pub fn end_convergence(state: &mut ChaosState)
    ensures
        final(state)@ == convergence_ended(old(state)@),
{
    state.updated_groups = all_cohort_groups();
    state.rolled_back_groups = Vec::new();
    state.active_broken = Vec::new();
    state.active_valid = Vec::new();
    state.converging = false;
    state.completed_nodes = DEMO_COHORT_COUNT;
    assert(state@ =~= convergence_ended(old(state)@));
}

/// The state once an epoch is over: the loop number jumps to the version converged on, and a run
/// that has finished as many epochs as it was to run is complete.
pub open spec fn epoch_closed(
    state: ChaosView,
    epoch: usize,
    converge_major: usize,
    completed: usize,
    limit: Option<usize>,
) -> ChaosView {
    let noted = with_event(
        ChaosView {
            loop_number: converge_major,
            completed_epochs: completed,
            good_version: major_version(converge_major as nat),
            ..state
        },
        "epoch "@ + decimal_digits(epoch as nat) + ": converged all "@ + decimal_digits(
            DEMO_COHORT_COUNT as nat,
        ) + " cohorts onto "@ + decimal_digits(converge_major as nat) + ".0.0"@,
    );
    if is_last(completed, limit) {
        ChaosView { running: false, complete: true, ..noted }
    } else {
        noted
    }
}

/// Whether a run that has finished `completed` epochs is to end.
pub open spec fn is_last(completed: usize, limit: Option<usize>) -> bool {
    match limit {
        Some(limit) => completed >= limit,
        None => false,
    }
}

/// Closes an epoch and tells whether the run is to end.
pub fn close_epoch(state: &mut ChaosState, epoch: &Epoch, completed: usize, limit: Option<usize>) -> (result:
    bool)
    ensures
        final(state)@ == epoch_closed(
            old(state)@,
            epoch.number,
            epoch.converge_major,
            completed,
            limit,
        ),
        result == is_last(completed, limit),
{
    state.loop_number = epoch.converge_major;
    state.completed_epochs = completed;
    state.good_version = version_of_major(epoch.converge_major);
    let mut event = String::from_str("epoch ");
    event.append(decimal(epoch.number as u64).as_str());
    event.append(": converged all ");
    event.append(decimal(DEMO_COHORT_COUNT as u64).as_str());
    event.append(" cohorts onto ");
    event.append(decimal(epoch.converge_major as u64).as_str());
    event.append(".0.0");
    state.event(event);
    let last = match limit {
        Some(limit) => completed >= limit,
        None => false,
    };
    if last {
        state.running = false;
        state.complete = true;
    }
    last
}

// ----- why epochs only move forward -----

/// Closing an epoch leads into the next one.
pub proof fn closing_an_epoch_enters_the_next(loop_number: int)
    requires
        0 <= loop_number,
    ensures
        epoch_of(epoch_version(epoch_of(loop_number))) == epoch_of(loop_number) + 1,
        epoch_version(epoch_of(loop_number)) > loop_number,
{
}

/// Converging leaves every cohort driven, so nothing is left to diverge within the epoch.
pub proof fn convergence_drives_every_cohort(state: ChaosView, cohort: int)
    requires
        0 <= cohort < DEMO_COHORT_COUNT,
    ensures
        crate::demo::generation::is_driven(
            convergence_ended(state),
            cohort_group_text(cohort as nat),
        ),
{
    assert(every_cohort_group()[cohort] == cohort_group_text(cohort as nat));
}

// ----- what the epochs count -----

/// An epoch covers a hundred numbers, and converges on the first number of the next one. What comes
/// before the first number belongs to the first epoch.
pub proof fn epochs_cover_a_hundred_numbers(number: int, epoch: int)
    requires
        epoch >= 1,
    ensures
        number >= 1 ==> (epoch_of(number) == epoch <==> 100 * (epoch - 1) < number <= 100 * epoch),
        number <= 0 ==> epoch_of(number) == 1,
        epoch_of(epoch_version(epoch)) == epoch + 1,
        epoch_of(epoch_version(epoch) - 1) == epoch,
{
}

/// A run ends when it has finished as many epochs as it was to run, and a run without a limit never
/// does. Closing an epoch moves the loop number to the version converged on, counts the epoch, and
/// tells of it; it ends the run where that was the last epoch, and changes nothing else.
pub proof fn a_run_ends_with_its_last_epoch(
    state: ChaosView,
    epoch: usize,
    converge_major: usize,
    completed: usize,
    limit: usize,
)
    ensures
        is_last(completed, Some(limit)) <==> completed >= limit,
        !is_last(completed, None),
        ({
            let closed = epoch_closed(state, epoch, converge_major, completed, Some(limit));
            let open = epoch_closed(state, epoch, converge_major, completed, None);
            &&& closed.loop_number == converge_major
            &&& closed.completed_epochs == completed
            &&& closed.good_version == major_version(converge_major as nat)
            &&& closed.events.last() == "epoch "@ + decimal_digits(epoch as nat)
                + ": converged all "@ + decimal_digits(DEMO_COHORT_COUNT as nat) + " cohorts onto "@
                + decimal_digits(converge_major as nat) + ".0.0"@
            &&& closed.updated_groups == state.updated_groups
            &&& closed.rolled_back_groups == state.rolled_back_groups
            &&& closed.epoch == state.epoch
            &&& closed.error == state.error
            &&& completed >= limit ==> closed.complete && !closed.running
            &&& completed < limit ==> closed.complete == state.complete && closed.running
                == state.running
            &&& open.complete == state.complete
            &&& open.running == state.running
        }),
{
    crate::demo::state::the_log_keeps_the_newest_events(
        (ChaosView {
            loop_number: converge_major,
            completed_epochs: completed,
            good_version: major_version(converge_major as nat),
            ..state
        }),
        "epoch "@ + decimal_digits(epoch as nat) + ": converged all "@ + decimal_digits(
            DEMO_COHORT_COUNT as nat,
        ) + " cohorts onto "@ + decimal_digits(converge_major as nat) + ".0.0"@,
    );
}

/// An epoch is resumed where the state shows the epoch of the loop number. A new one forgets what was
/// driven in the one before it; a resumed one keeps it, and is told of only where it moves.
pub proof fn only_a_new_epoch_forgets_what_was_driven(
    state: ChaosView,
    loop_number: int,
    baseline: int,
)
    ensures
        ({
            let entered = epoch_entered(state, loop_number, baseline);
            let due = due_epoch(loop_number, baseline, cohorts_due(state, loop_number));
            &&& state.epoch == epoch_of(loop_number) ==> entered.updated_groups
                == state.updated_groups && entered.rolled_back_groups == state.rolled_back_groups
                && entered.completed_nodes == state.completed_nodes
            &&& state.epoch == epoch_of(loop_number) && due == state.epoch ==> entered == state
            &&& state.epoch != epoch_of(loop_number) ==> entered.updated_groups.len() == 0
                && entered.rolled_back_groups.len() == 0 && entered.completed_nodes == 0
                && entered.active_broken.len() == 0 && entered.active_valid.len() == 0
                && !entered.converging
            &&& 0 <= due <= usize::MAX ==> entered.epoch == due
            &&& entered.running == state.running
            &&& entered.complete == state.complete
            &&& entered.seed == state.seed
            &&& entered.completed_epochs == state.completed_epochs
            &&& entered.error == state.error
        }),
{
}

/// A generation takes two versions and one loop number, whatever the number of cohorts that it drives;
/// where none is due there is no generation.
pub proof fn a_generation_takes_two_versions(loop_number: int, major: int, due: nat)
    ensures
        generations_due(0) == 0,
        due > 0 ==> generations_due(due) == 1,
        due == 0 ==> (reach(loop_number, major, due) == loop_number || reach(
            loop_number,
            major,
            due,
        ) == major),
        reach(loop_number, major, due) >= loop_number + (if due > 0 {
            1int
        } else {
            0
        }),
        reach(loop_number, major, due) >= major + (if due > 0 {
            2int
        } else {
            0
        }),
        due > 0 ==> (reach(loop_number, major, due) == loop_number + 1 || reach(
            loop_number,
            major,
            due,
        ) == major + 2),
{
}

/// A run tells whether it starts or resumes, and that nothing is disrupted where that was switched off.
pub proof fn a_run_tells_how_it_begins(
    state: ChaosView,
    seed: u64,
    baseline: usize,
    chaos_disabled: bool,
)
    requires
        state.events.len() + 2 < 100,
    ensures
        ({
            let started = run_started(state, seed, baseline, chaos_disabled);
            let first = started.events[state.events.len() as int];
            &&& started.events.len() == state.events.len() + (if chaos_disabled {
                2int
            } else {
                1
            })
            &&& state.loop_number == 0 ==> first == "seed "@ + decimal_digits(seed as nat) + ": "@
                + "starting"@ + " convergence chaos from "@ + decimal_digits(baseline as nat)
                + ".0.0"@
            &&& state.loop_number != 0 ==> first == "seed "@ + decimal_digits(seed as nat) + ": "@
                + "resuming"@ + " convergence chaos from "@ + decimal_digits(baseline as nat)
                + ".0.0"@
            &&& started.running
            &&& started.seed == seed
            &&& started.loop_number == state.loop_number
            &&& started.completed_epochs == 0
        }),
{
}

/// A generation shows its seed, its loop number and its two versions, and changes nothing else.
pub proof fn a_generation_shows_its_versions(
    state: ChaosView,
    seed: u64,
    loop_number: usize,
    bad_major: usize,
    good_major: usize,
)
    ensures
        ({
            let shown = loop_entered(state, seed, loop_number, bad_major, good_major);
            &&& shown.seed == seed
            &&& shown.loop_number == loop_number
            &&& shown.bad_version == major_version(bad_major as nat)
            &&& shown.good_version == major_version(good_major as nat)
            &&& shown.events == state.events
            &&& shown.updated_groups == state.updated_groups
            &&& shown.rolled_back_groups == state.rolled_back_groups
            &&& shown.epoch == state.epoch
            &&& shown.running == state.running
        }),
{
}

/// While the fleet converges no group counts as broken or valid; once it has, every group is updated and
/// none is rolled back.
pub proof fn converging_clears_the_generation(state: ChaosView, converge_major: usize, cohort: int)
    requires
        0 <= cohort < DEMO_COHORT_COUNT,
    ensures
        convergence_begun(state, converge_major).converging,
        convergence_begun(state, converge_major).active_broken.len() == 0,
        convergence_begun(state, converge_major).active_valid.len() == 0,
        convergence_begun(state, converge_major).good_version == major_version(
            converge_major as nat,
        ),
        convergence_begun(state, converge_major).updated_groups == state.updated_groups,
        convergence_begun(state, converge_major).rolled_back_groups == state.rolled_back_groups,
        !convergence_ended(state).converging,
        convergence_ended(state).rolled_back_groups.len() == 0,
        convergence_ended(state).active_broken.len() == 0,
        convergence_ended(state).active_valid.len() == 0,
        convergence_ended(state).updated_groups.len() == DEMO_COHORT_COUNT,
        convergence_ended(state).updated_groups[cohort] == cohort_group_text(cohort as nat),
        convergence_ended(state).completed_nodes == DEMO_COHORT_COUNT,
        convergence_ended(state).events == state.events,
{
}

/// Every second look at a convergence tells how many agents are there, and that the clock stands still
/// where it does.
pub proof fn every_second_look_is_told(
    attempt: usize,
    on_target: nat,
    version: Seq<char>,
    frozen: bool,
)
    ensures
        convergence_told(attempt, on_target, version, frozen) is Some <==> attempt as int % 2 == 0,
        attempt as int % 2 == 0 ==> ({
            let head = "convergence: "@ + decimal_digits(on_target) + "/"@ + decimal_digits(
                DEMO_NODE_COUNT as nat,
            ) + " agents on "@ + version;
            let told = convergence_told(attempt, on_target, version, frozen)->Some_0;
            &&& !frozen ==> told == head
            &&& frozen ==> told == head + " (frozen — clock paused)"@
        }),
{
    reveal_strlit("");
    let head = "convergence: "@ + decimal_digits(on_target) + "/"@ + decimal_digits(
        DEMO_NODE_COUNT as nat,
    ) + " agents on "@ + version;
    assert(head + ""@ =~= head);
}

/// A loop number stays where it is within its own epoch, and goes on to the first number of a later
/// one: it never goes back, and passes no number of the epoch that it goes on to.
pub proof fn loop_numbers_go_on_to_a_later_epoch(loop_number: int, epoch: int)
    requires
        epoch_of(loop_number) <= epoch,
    ensures
        epoch_of(epoch_loop(loop_number, epoch)) == epoch,
        epoch_loop(loop_number, epoch) >= loop_number,
        epoch_of(loop_number) == epoch ==> epoch_loop(loop_number, epoch) == loop_number,
        epoch_of(loop_number) < epoch ==> epoch_of(epoch_loop(loop_number, epoch) - 1) == epoch - 1,
{
}

/// A run that goes on keeps its loop number within an epoch, and moves it to the first of a later one
/// where it enters that.
pub proof fn entering_a_later_epoch_moves_the_loop_number(
    state: ChaosView,
    loop_number: int,
    baseline: int,
)
    ensures
        ({
            let entered = epoch_entered(state, loop_number, baseline);
            let due = due_epoch(loop_number, baseline, cohorts_due(state, loop_number));
            &&& epoch_of(loop_number) == due ==> entered.loop_number == state.loop_number
            &&& epoch_of(loop_number) != due && 1 <= due && 100 * due <= usize::MAX
                ==> entered.loop_number == 100 * (due - 1) + 1
        }),
{
}

} // verus!
