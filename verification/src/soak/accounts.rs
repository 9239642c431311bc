//! What each step of a campaign counts, and what a state that adds up counts to.

use crate::random::{splitmix_mix, splitmix_next, SPLITMIX_INCREMENT};
use crate::soak::faults::{every_fault, exchanged, fault_metric_name, shuffled, FaultKind};
use crate::soak::plan::{round_plan, soak_groups};
use crate::soak::rounds::{
    adopted, assigned, closed, recovered, reserved, settled, targeted, version_for, with_count,
    with_fault, with_rejection, with_version,
};
use crate::soak::state::{
    count_total, counted_kinds, fresh_state, group_names, is_valid, only_what_was_published_is_stable,
    stable_version, CampaignView,
};
use crate::version::version_text;
use vstd::prelude::*;

verus! {

// ----- desired versions -----

/// The version of a group is the one that is listed first for it, and there is none where none is
/// listed.
pub proof fn the_first_version_listed_counts(desired: Seq<(Seq<char>, Seq<char>)>, group: Seq<char>)
    ensures
        version_for(desired, group) is None <==> (forall|i: int|
            0 <= i < desired.len() ==> (#[trigger] desired[i]).0 != group),
        forall|i: int|
            0 <= i < desired.len() && (#[trigger] desired[i]).0 == group && (forall|j: int|
                0 <= j < i ==> (#[trigger] desired[j]).0 != group) ==> version_for(desired, group)
                == Some(desired[i].1),
    decreases desired.len(),
{
    if desired.len() > 0 {
        let rest = desired.skip(1);
        the_first_version_listed_counts(rest, group);
        assert forall|i: int| 0 <= i < rest.len() implies rest[i] == desired[i + 1] by {}
        if version_for(desired, group) is None {
            assert forall|i: int| 0 <= i < desired.len() implies (#[trigger] desired[i]).0
                != group by {
                if i > 0 {
                    assert(rest[i - 1].0 != group);
                }
            }
        }
        if forall|i: int| 0 <= i < desired.len() ==> (#[trigger] desired[i]).0 != group {
            assert forall|i: int| 0 <= i < rest.len() implies (#[trigger] rest[i]).0 != group by {
                assert(desired[i + 1].0 != group);
            }
        }
        assert forall|i: int|
            0 <= i < desired.len() && (#[trigger] desired[i]).0 == group && (forall|j: int|
                0 <= j < i ==> (#[trigger] desired[j]).0 != group) implies version_for(desired, group)
            == Some(desired[i].1) by {
            if i > 0 {
                assert(desired[0].0 != group);
                assert(rest[i - 1].0 == group);
                assert forall|j: int| 0 <= j < i - 1 implies (#[trigger] rest[j]).0 != group by {
                    assert(desired[j + 1].0 != group);
                }
            }
        }
    }
}

/// Adopting a version gives it to the groups that converged on it and leaves every other group the one
/// it had; no group is added or lost.
pub proof fn adopting_moves_only_the_groups_that_converged(
    desired: Seq<(Seq<char>, Seq<char>)>,
    groups: Seq<Seq<char>>,
    version: Seq<char>,
    group: Seq<char>,
)
    ensures
        version_for(desired, group) is None ==> version_for(
            with_version(desired, groups, version),
            group,
        ) is None,
        version_for(desired, group) is Some && groups.contains(group) ==> version_for(
            with_version(desired, groups, version),
            group,
        ) == Some(version),
        !groups.contains(group) ==> version_for(with_version(desired, groups, version), group)
            == version_for(desired, group),
        group_names(with_version(desired, groups, version)) == group_names(desired),
    decreases desired.len(),
{
    let after = with_version(desired, groups, version);
    assert(group_names(after) =~= group_names(desired));
    if desired.len() > 0 {
        adopting_moves_only_the_groups_that_converged(desired.skip(1), groups, version, group);
        assert(after.skip(1) =~= with_version(desired.skip(1), groups, version));
    }
}

// ----- the steps -----

/// Raising the count of a kind raises it by one wherever it is listed, and no other.
pub proof fn one_kind_is_counted(counts: Seq<(FaultKind, u64)>, kind: FaultKind, index: int)
    requires
        0 <= index < counts.len(),
        counts[index].1 < u64::MAX,
    ensures
        with_count(counts, kind).len() == counts.len(),
        with_count(counts, kind)[index].0 == counts[index].0,
        counts[index].0 == kind ==> with_count(counts, kind)[index].1 == counts[index].1 + 1,
        counts[index].0 != kind ==> with_count(counts, kind)[index].1 == counts[index].1,
{
}

/// A fault is counted exactly where it was injected, and as a failure exactly where its life went
/// wrong; nothing else of the state changes.
pub proof fn faults_are_counted_as_they_went(
    state: CampaignView,
    kind: FaultKind,
    injected: bool,
    failed: bool,
)
    ensures
        ({
            let after = with_fault(state, kind, injected, failed);
            &&& injected ==> after.faults == with_count(state.faults, kind)
            &&& !injected ==> after.faults == state.faults
            &&& failed ==> after.fault_failures == with_count(state.fault_failures, kind)
            &&& !failed ==> after.fault_failures == state.fault_failures
            &&& after == (CampaignView {
                faults: after.faults,
                fault_failures: after.fault_failures,
                ..state
            })
        }),
{
}

/// Each small step moves one counter by what it counts and leaves everything else of the state as it
/// was.
pub proof fn small_steps_move_one_counter(
    state: CampaignView,
    count: int,
    groups: Seq<Seq<char>>,
    version: Seq<char>,
    convergence_bits: u64,
)
    requires
        state.release_generation < u64::MAX,
        state.expected_rejections < u64::MAX,
        state.recoveries < u64::MAX,
        0 <= count,
        state.release_assignments + count <= u64::MAX,
    ensures
        reserved(state).release_generation == state.release_generation + 1,
        (CampaignView { release_generation: state.release_generation, ..reserved(state) }) == state,
        assigned(state, count).release_assignments == state.release_assignments + count,
        (CampaignView { release_assignments: state.release_assignments, ..assigned(state, count) })
            == state,
        with_rejection(state).expected_rejections == state.expected_rejections + 1,
        (CampaignView { expected_rejections: state.expected_rejections, ..with_rejection(state) })
            == state,
        settled(state).recoveries == state.recoveries + 1,
        !settled(state).recovery_pending,
        (CampaignView {
            recoveries: state.recoveries,
            recovery_pending: state.recovery_pending,
            ..settled(state)
        }) == state,
        adopted(state, groups, version, convergence_bits).last_convergence_bits == convergence_bits,
        (CampaignView {
            desired: state.desired,
            last_convergence_bits: state.last_convergence_bits,
            ..adopted(state, groups, version, convergence_bits)
        }) == state,
{
}

/// A round that ends counts once, under its own number. A success counts as one, ends the run of
/// failures and is dated; it leaves what is known of failures as it was.
pub proof fn a_success_ends_the_failures(state: CampaignView, round: u64, timestamp: i64)
    requires
        state.campaigns < u64::MAX,
        state.successful_campaigns < u64::MAX,
    ensures
        ({
            let after = closed(state, round, true, timestamp);
            &&& after.round == round
            &&& after.campaigns == state.campaigns + 1
            &&& after.successful_campaigns == state.successful_campaigns + 1
            &&& after.consecutive_failures == 0
            &&& after.last_success_timestamp == timestamp
            &&& (CampaignView {
                round: state.round,
                campaigns: state.campaigns,
                successful_campaigns: state.successful_campaigns,
                consecutive_failures: state.consecutive_failures,
                last_success_timestamp: state.last_success_timestamp,
                ..after
            }) == state
        }),
{
}

/// A failure counts as one, lengthens the run of failures by one, is dated and leaves a recovery
/// pending; it leaves what is known of successes as it was.
pub proof fn a_failure_leaves_a_recovery_pending(state: CampaignView, round: u64, timestamp: i64)
    requires
        state.campaigns < u64::MAX,
        state.failed_campaigns < u64::MAX,
        state.consecutive_failures < u64::MAX,
    ensures
        ({
            let after = closed(state, round, false, timestamp);
            &&& after.round == round
            &&& after.campaigns == state.campaigns + 1
            &&& after.failed_campaigns == state.failed_campaigns + 1
            &&& after.consecutive_failures == state.consecutive_failures + 1
            &&& after.recovery_pending
            &&& after.last_failure_timestamp == timestamp
            &&& (CampaignView {
                round: state.round,
                campaigns: state.campaigns,
                failed_campaigns: state.failed_campaigns,
                consecutive_failures: state.consecutive_failures,
                recovery_pending: state.recovery_pending,
                last_failure_timestamp: state.last_failure_timestamp,
                ..after
            }) == state
        }),
{
}

/// A recovery takes the release of the next generation as its target, and nothing else changes when it
/// begins. When it ends the whole fleet is on the release, three assignments and one forward recovery
/// are counted, and no target is held.
pub proof fn a_recovery_counts_the_whole_fleet(
    state: CampaignView,
    version: Seq<char>,
    convergence_bits: u64,
    index: int,
)
    requires
        state.release_generation < u64::MAX,
        state.release_assignments + 3 <= u64::MAX,
        state.forward_recoveries < u64::MAX,
        0 <= index < state.desired.len(),
        soak_groups().contains(state.desired[index].0),
    ensures
        ({
            let begun = targeted(state);
            &&& begun.release_generation == state.release_generation + 1
            &&& begun.recovery_target == Some(
                version_text(1_000_000, (state.release_generation + 1) as u64, 0),
            )
            &&& (CampaignView {
                release_generation: state.release_generation,
                recovery_target: state.recovery_target,
                ..begun
            }) == state
        }),
        ({
            let ended = recovered(state, version, convergence_bits);
            &&& ended.desired.len() == state.desired.len()
            &&& ended.desired[index] == (state.desired[index].0, version)
            &&& ended.release_assignments == state.release_assignments + 3
            &&& ended.forward_recoveries == state.forward_recoveries + 1
            &&& ended.recovery_target is None
            &&& ended.last_convergence_bits == convergence_bits
            &&& (CampaignView {
                desired: state.desired,
                release_assignments: state.release_assignments,
                forward_recoveries: state.forward_recoveries,
                recovery_target: state.recovery_target,
                last_convergence_bits: state.last_convergence_bits,
                ..ended
            }) == state
        }),
{
}

// ----- what a valid state counts to -----

proof fn lemma_sum(counts: Seq<(FaultKind, u64)>)
    requires
        counted_kinds(counts) == every_fault(),
    ensures
        counts.len() == 4,
        count_total(counts) == counts[0].1 + counts[1].1 + counts[2].1 + counts[3].1,
{
    assert(counted_kinds(counts).len() == counts.len() && every_fault().len() == 4);
    reveal_with_fuel(count_total, 5);
    let three = counts.drop_last();
    let two = three.drop_last();
    let one = two.drop_last();
    assert(one.drop_last().len() == 0);
}

/// A state passes every check exactly when it has the layout and the seed that are expected, names the
/// three groups and counts the four faults in order, and its numbers add up: every round ended one way
/// or the other, every failure is recovered from or about to be, no more faults were injected than
/// rounds were run and no fewer than succeeded, no more rejections were counted than tenth rounds have
/// passed, every round and recovery took a generation of its own, the assignments lie between one for
/// each success with three for each recovery and three for each of either, a time is known exactly of
/// what has happened, and every version named is one that was published.
pub proof fn a_state_is_valid_when_it_adds_up(state: CampaignView, seed: u64)
    ensures
        is_valid(state, seed) <==> {
            &&& state.schema == 4
            &&& state.seed == seed
            &&& group_names(state.desired) == seq!["soak-a"@, "soak-b"@, "soak-c"@]
            &&& counted_kinds(state.faults) == every_fault()
            &&& counted_kinds(state.fault_failures) == every_fault()
            &&& state.round == state.campaigns
            &&& state.round == state.successful_campaigns + state.failed_campaigns
            &&& state.consecutive_failures <= state.failed_campaigns
            &&& state.recovery_pending ==> state.failed_campaigns == state.recoveries + 1
            &&& !state.recovery_pending ==> state.failed_campaigns == state.recoveries
            &&& 3 * state.campaigns + 3 * state.forward_recoveries <= u64::MAX
            &&& state.faults[0].1 + state.faults[1].1 + state.faults[2].1 + state.faults[3].1
                <= state.campaigns
            &&& state.faults[0].1 + state.faults[1].1 + state.faults[2].1 + state.faults[3].1
                >= state.successful_campaigns
            &&& state.fault_failures[0].1 + state.fault_failures[1].1 + state.fault_failures[2].1
                + state.fault_failures[3].1 <= state.failed_campaigns
            &&& 10 * state.expected_rejections <= state.round
            &&& state.release_generation >= state.campaigns
            &&& state.release_generation >= state.forward_recoveries
            &&& state.forward_recoveries >= state.recoveries
            &&& state.release_assignments >= 3 * state.forward_recoveries
                + state.successful_campaigns
            &&& state.release_assignments <= 3 * state.campaigns + 3 * state.forward_recoveries
            &&& state.last_success_timestamp == 0 <==> state.successful_campaigns == 0
            &&& state.last_failure_timestamp == 0 <==> state.failed_campaigns == 0
            &&& state.last_convergence_bits <= 0x7FEF_FFFF_FFFF_FFFF
            &&& forall|i: int|
                0 <= i < state.desired.len() ==> is_named(
                    #[trigger] state.desired[i].1,
                    state.release_generation,
                )
            &&& state.recovery_target is Some ==> is_target(
                state.recovery_target->Some_0,
                state.release_generation,
            )
        },
{
    if counted_kinds(state.faults) == every_fault() {
        lemma_sum(state.faults);
    }
    if counted_kinds(state.fault_failures) == every_fault() {
        lemma_sum(state.fault_failures);
    }
    assert forall|i: int| 0 <= i < state.desired.len() implies stable_version(
        #[trigger] state.desired[i].1,
        state.release_generation,
    ) is Ok == is_named(state.desired[i].1, state.release_generation) by {
        only_what_was_published_is_stable(state.desired[i].1, state.release_generation);
    }
    if state.recovery_target is Some {
        lemma_target(state.recovery_target->Some_0, state.release_generation);
    }
    if is_valid(state, seed) {
        assert forall|i: int| 0 <= i < state.desired.len() implies is_named(
            #[trigger] state.desired[i].1,
            state.release_generation,
        ) by {
            assert(stable_version(state.desired[i].1, state.release_generation) is Ok);
        }
    }
}

/// Whether a text names the baseline or a release up to a generation.
pub open spec fn is_named(raw: Seq<char>, generation: u64) -> bool {
    raw == "1.0.0"@ || exists|release: u64|
        1 <= release <= generation && raw == #[trigger] version_text(1_000_000, release, 0)
}

/// Whether a text names the release of a generation. Before the first release, the baseline stands for
/// it.
pub open spec fn is_target(raw: Seq<char>, generation: u64) -> bool {
    if generation == 0 {
        raw == "1.0.0"@
    } else {
        raw == version_text(1_000_000, generation, 0)
    }
}

proof fn lemma_target(raw: Seq<char>, generation: u64)
    ensures
        (match stable_version(raw, generation) {
            Ok(version) => version.minor == generation,
            Err(_) => false,
        }) == is_target(raw, generation),
{
    crate::soak::state::lemma_baseline();
    if generation > 0 {
        crate::soak::rounds::published_releases_are_stable(generation, generation);
        if raw == "1.0.0"@ && raw == version_text(1_000_000, generation, 0) {
            crate::version::version_text_is_injective(1_000_000, generation, 0, 1, 0, 0);
        }
        if raw != "1.0.0"@ && crate::soak::state::is_published(raw, generation) {
            assert(raw == version_text(1_000_000, crate::soak::state::released_in(raw), 0));
        }
    }
}

/// A campaign that has not run a round has counted nothing, holds every group on the baseline, and
/// awaits no recovery.
pub proof fn a_fresh_campaign_has_counted_nothing(seed: u64, group: int, fault: int)
    requires
        0 <= group < 3,
        0 <= fault < 4,
    ensures
        ({
            let state = fresh_state(seed);
            &&& state.seed == seed
            &&& state.round == 0 && state.campaigns == 0 && state.release_generation == 0
            &&& state.successful_campaigns == 0 && state.failed_campaigns == 0
            &&& state.consecutive_failures == 0 && state.release_assignments == 0
            &&& state.expected_rejections == 0 && state.recoveries == 0
            &&& state.forward_recoveries == 0 && !state.recovery_pending
            &&& state.recovery_target is None
            &&& version_for(state.desired, soak_groups()[group]) == Some("1.0.0"@)
            &&& state.faults[fault] == (every_fault()[fault], 0u64)
            &&& state.fault_failures[fault] == (every_fault()[fault], 0u64)
        }),
{
    crate::soak::rounds::a_fresh_campaign_is_valid(seed);
    crate::soak::rounds::valid_states_name_every_group(fresh_state(seed), seed, group);
}

// ----- draws -----

proof fn lemma_shuffle_keeps_the_rest<T>(items: Seq<T>, last: int, state: u64, place: int)
    requires
        last < items.len(),
        last < place < items.len(),
    ensures
        shuffled(items, last, state).0.len() == items.len(),
        shuffled(items, last, state).0[place] == items[place],
    decreases last,
{
    if last > 0 {
        let next = splitmix_next(state);
        let selected = splitmix_mix(next) as int % (last + 1);
        lemma_shuffle_keeps_the_rest(exchanged(items, last, selected), last - 1, next, place);
    }
}

/// A shuffle puts into the last place that it draws for the element that the draw names, out of all up
/// to that place; what stood there takes the place of the element that was drawn, and the draws go on
/// below.
pub proof fn each_place_is_drawn_for<T>(items: Seq<T>, last: int, state: u64)
    requires
        0 < last < items.len(),
    ensures
        ({
            let drawn = splitmix_mix(splitmix_next(state)) as int % (last + 1);
            &&& 0 <= drawn <= last
            &&& shuffled(items, last, state).0[last] == items[drawn]
            &&& shuffled(items, last, state) == shuffled(
                items.update(last, items[drawn]).update(drawn, items[last]),
                last - 1,
                splitmix_next(state),
            )
        }),
{
    let next = splitmix_next(state);
    let selected = splitmix_mix(next) as int % (last + 1);
    let moved = exchanged(items, last, selected);
    lemma_shuffle_keeps_the_rest(moved, last - 1, next, last);
}

/// A round's first draw names the agent that it hits; the second, in a round that expects no
/// rejection, says how many groups take the release, and a round that expects one takes one group.
pub proof fn rounds_follow_their_draws(seed: u64, round: u64, agent_count: int)
    requires
        agent_count > 0,
    ensures
        ({
            let first = splitmix_next(seed ^ round.wrapping_mul(SPLITMIX_INCREMENT));
            let plan = round_plan(seed, round, agent_count);
            &&& plan.round == round
            &&& plan.target_ordinal == splitmix_mix(first) as int % agent_count
            &&& round % 10 == 0 ==> plan.groups.len() == 1
            &&& round % 10 != 0 ==> plan.groups.len() == 1 + splitmix_mix(splitmix_next(first)) as int
                % 3
        }),
{
    let first = splitmix_next(seed ^ round.wrapping_mul(SPLITMIX_INCREMENT));
    let drawn = if round % 10 == 0 {
        first
    } else {
        splitmix_next(first)
    };
    crate::soak::plan::lemma_groups_distinct();
    crate::soak::faults::lemma_shuffle_permutes(soak_groups(), 2, drawn);
}

/// No two faults go by one name.
pub proof fn fault_names_tell_them_apart(left: FaultKind, right: FaultKind)
    requires
        left != right,
    ensures
        fault_metric_name(left) != fault_metric_name(right),
{
    reveal_strlit("network_partition");
    reveal_strlit("io_error");
    reveal_strlit("agent_kill");
    reveal_strlit("controller_kill");
    assert(fault_metric_name(left).len() != fault_metric_name(right).len());
}

} // verus!
