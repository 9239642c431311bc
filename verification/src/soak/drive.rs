//! The drive of one round: its steps, in order, and what each of them makes of the durable state.

use crate::soak::campaign::{merge_errors, round_error};
use crate::soak::plan::{rejects, RoundPlan, RoundPlanView};
use crate::soak::rounds::{
    adopted, after_round, assigned, closed, is_possible, reserved, rounds_keep_a_state_valid,
    version_for, with_fault, with_rejection, with_version, RoundRecord,
};
use crate::soak::state::{
    is_duration, is_valid, CampaignState, CampaignView, FaultCount, CAMPAIGN_VERSION_MAJOR,
};
use crate::text::view_of;
use crate::version::version_text;
use vstd::prelude::*;

verus! {

/// The steps of a round.
#[derive(Clone, Copy, PartialEq, Eq, Structural, Debug)]
pub enum RoundStep {
    /// Sets the next release generation aside.
    Reserve,
    /// Makes the state durable, so that no other process takes the same generation.
    Record,
    /// Publishes the release of that generation.
    Publish,
    /// Assigns the release to one of the round's groups.
    Assign(usize),
    /// Sees the fleet come to the release, or refuse it, under the round's fault.
    Prove,
    /// Assigns the group that refused the release what it had before.
    Restore,
    /// Sees the fleet come back to what it had.
    Confirm,
    Done,
}

/// The step after a step that succeeded.
pub open spec fn step_after(step: RoundStep, plan: RoundPlanView) -> RoundStep {
    match step {
        RoundStep::Reserve => RoundStep::Record,
        RoundStep::Record => RoundStep::Publish,
        RoundStep::Publish => if plan.groups.len() == 0 {
            RoundStep::Prove
        } else {
            RoundStep::Assign(0)
        },
        RoundStep::Assign(index) => if index + 1 < plan.groups.len() {
            RoundStep::Assign((index + 1) as usize)
        } else {
            RoundStep::Prove
        },
        RoundStep::Prove => if plan.expected_rejection {
            RoundStep::Restore
        } else {
            RoundStep::Done
        },
        RoundStep::Restore => RoundStep::Confirm,
        RoundStep::Confirm => RoundStep::Done,
        RoundStep::Done => RoundStep::Done,
    }
}

/// What a step has seen: the release that was published, how long the fleet took, and what became
/// of the round's assertion and of its fault.
pub struct News {
    pub version: String,
    pub convergence_bits: u64,
    pub injected: bool,
    /// Why the fleet did not do what the round expects of it, if it did not.
    pub assertion: Option<String>,
    /// What went wrong with the fault, if anything did.
    pub fault: Option<String>,
}

/// What a step has seen.
pub struct NewsView {
    pub version: Seq<char>,
    pub convergence_bits: u64,
    pub injected: bool,
    pub assertion: Option<Seq<char>>,
    pub fault: Option<Seq<char>>,
}

impl View for News {
    type V = NewsView;

    open spec fn view(&self) -> NewsView {
        NewsView {
            version: self.version@,
            convergence_bits: self.convergence_bits,
            injected: self.injected,
            assertion: view_of(self.assertion),
            fault: view_of(self.fault),
        }
    }
}

/// Why a step fails, if it does.
pub open spec fn step_error(step: RoundStep, state: CampaignView, news: NewsView) -> Option<Seq<char>> {
    match step {
        RoundStep::Reserve => if state.release_generation == u64::MAX {
            Some("release generation overflow"@)
        } else {
            None
        },
        RoundStep::Prove => round_error(news.assertion, news.fault),
        _ => None,
    }
}

/// The state after a step. A fault is counted whether or not the fleet did what was expected of it;
/// the rest of what a step brings is counted only where it succeeds.
pub open spec fn step_taken(
    step: RoundStep,
    state: CampaignView,
    plan: RoundPlanView,
    news: NewsView,
) -> CampaignView {
    match step {
        RoundStep::Reserve => if state.release_generation == u64::MAX {
            state
        } else {
            reserved(state)
        },
        RoundStep::Assign(_) | RoundStep::Restore => assigned(state, 1),
        RoundStep::Prove => {
            let hit = with_fault(state, plan.fault, news.injected, news.fault is Some);
            if round_error(news.assertion, news.fault) is Some {
                hit
            } else if plan.expected_rejection {
                with_rejection(hit)
            } else {
                adopted(hit, plan.groups, news.version, news.convergence_bits)
            }
        },
        RoundStep::Confirm => adopted(state, Seq::empty(), news.version, news.convergence_bits),
        RoundStep::Record | RoundStep::Publish | RoundStep::Done => state,
    }
}

/// Whether every count of a list can be raised.
pub open spec fn counts_roomy(counts: Seq<FaultCount>) -> bool {
    forall|i: int| 0 <= i < counts.len() ==> (#[trigger] counts[i]).count < u64::MAX
}

/// Whether every counter that a step raises can be raised.
pub open spec fn is_roomy(state: CampaignState) -> bool {
    &&& state.release_assignments < u64::MAX
    &&& state.expected_rejections < u64::MAX
    &&& counts_roomy(state.faults@)
    &&& counts_roomy(state.fault_failures@)
}

fn can_raise(counts: &Vec<FaultCount>) -> (result: bool)
    ensures
        result == counts_roomy(counts@),
{
    let mut index: usize = 0;
    while index < counts.len()
        invariant
            index <= counts.len(),
            forall|i: int| 0 <= i < index ==> (#[trigger] counts@[i]).count < u64::MAX,
        decreases counts.len() - index,
    {
        if counts[index].count == u64::MAX {
            assert(counts@[index as int].count == u64::MAX);
            return false;
        }
        index = index + 1;
    }
    true
}

/// Whether every counter that a step raises can be raised.
pub fn has_room(state: &CampaignState) -> (result: bool)
    ensures
        result == is_roomy(*state),
{
    state.release_assignments < u64::MAX && state.expected_rejections < u64::MAX && can_raise(
        &state.faults,
    ) && can_raise(&state.fault_failures)
}

/// Takes note of a step of the round, and returns the next; where the step failed, the round ends
/// there, with its message.
pub fn take_step(step: RoundStep, state: &mut CampaignState, plan: &RoundPlan, news: News) -> (result:
    Result<RoundStep, String>)
    requires
        is_roomy(*old(state)),
    ensures
        final(state)@ == step_taken(step, old(state)@, plan@, news@),
        match result {
            Ok(next) => step_error(step, old(state)@, news@) is None && next == step_after(
                step,
                plan@,
            ),
            Err(message) => step_error(step, old(state)@, news@) == Some(message@),
        },
{
    match step {
        RoundStep::Reserve => match state.reserve_generation() {
            Ok(_) => Ok(RoundStep::Record),
            Err(message) => Err(message),
        },
        RoundStep::Record => Ok(RoundStep::Publish),
        RoundStep::Publish => Ok(
            if plan.groups.len() == 0 {
                RoundStep::Prove
            } else {
                RoundStep::Assign(0)
            },
        ),
        RoundStep::Assign(index) => {
            state.record_assignment();
            Ok(
                if plan.groups.len() > 0 && index < plan.groups.len() - 1 {
                    RoundStep::Assign(index + 1)
                } else {
                    RoundStep::Prove
                },
            )
        },
        RoundStep::Prove => {
            state.record_fault(plan.fault, news.injected, news.fault.is_some());
            if let Some(message) = merge_errors(news.assertion, news.fault) {
                return Err(message);
            }
            if plan.expected_rejection {
                state.record_rejection();
                Ok(RoundStep::Restore)
            } else {
                state.adopt(&plan.groups, news.version.as_str(), news.convergence_bits);
                Ok(RoundStep::Done)
            }
        },
        RoundStep::Restore => {
            state.record_assignment();
            Ok(RoundStep::Confirm)
        },
        RoundStep::Confirm => {
            let none: Vec<String> = Vec::new();
            assert(crate::text::views(none@) =~= Seq::<Seq<char>>::empty());
            state.adopt(&none, news.version.as_str(), news.convergence_bits);
            Ok(RoundStep::Done)
        },
        RoundStep::Done => Ok(RoundStep::Done),
    }
}

/// The release that a group which refused one goes back to.
pub fn stable_release(state: &CampaignState, group: &str) -> (result: Result<String, String>)
    ensures
        match result {
            Ok(version) => version_for(state@.desired, group@) == Some(version@),
            Err(message) => version_for(state@.desired, group@) is None && message@
                == "no stable version for "@ + group@,
        },
{
    match state.desired_version(group) {
        Some(version) => Ok(version),
        None => {
            let mut message = String::from_str("no stable version for ");
            message.append(group);
            Err(message)
        },
    }
}

// ----- recovery -----

/// The steps of a recovery.
#[derive(Clone, Copy, PartialEq, Eq, Structural, Debug)]
pub enum RecoveryStep {
    /// Removes every fault that was left behind.
    CleanUp,
    /// Chooses the generation to recover onto.
    Target,
    /// Makes the choice durable, so that a recovery that is cut short goes on with the same one.
    Record,
    Publish,
    /// Declares the whole fleet on the release.
    Declare,
    /// Waits until every agent is enrolled.
    Enlist,
    AwaitConverged,
    /// Makes the state durable in which the fleet has recovered.
    Keep,
    Done,
}

/// The step after a step of a recovery. `allocated` says whether the target was chosen just now.
pub open spec fn recovery_after(step: RecoveryStep, allocated: bool) -> RecoveryStep {
    match step {
        RecoveryStep::CleanUp => RecoveryStep::Target,
        RecoveryStep::Target => if allocated {
            RecoveryStep::Record
        } else {
            RecoveryStep::Publish
        },
        RecoveryStep::Record => RecoveryStep::Publish,
        RecoveryStep::Publish => RecoveryStep::Declare,
        RecoveryStep::Declare => RecoveryStep::Enlist,
        RecoveryStep::Enlist => RecoveryStep::AwaitConverged,
        RecoveryStep::AwaitConverged => RecoveryStep::Keep,
        RecoveryStep::Keep => RecoveryStep::Done,
        RecoveryStep::Done => RecoveryStep::Done,
    }
}

impl RecoveryStep {
    /// The step after this one.
    pub fn next(self, allocated: bool) -> (result: RecoveryStep)
        ensures
            result == recovery_after(self, allocated),
    {
        match self {
            RecoveryStep::CleanUp => RecoveryStep::Target,
            RecoveryStep::Target => if allocated {
                RecoveryStep::Record
            } else {
                RecoveryStep::Publish
            },
            RecoveryStep::Record => RecoveryStep::Publish,
            RecoveryStep::Publish => RecoveryStep::Declare,
            RecoveryStep::Declare => RecoveryStep::Enlist,
            RecoveryStep::Enlist => RecoveryStep::AwaitConverged,
            RecoveryStep::AwaitConverged => RecoveryStep::Keep,
            RecoveryStep::Keep => RecoveryStep::Done,
            RecoveryStep::Done => RecoveryStep::Done,
        }
    }
}

// ----- laws -----

/// A recovery starts without faults, publishes no target that was not made durable, by it or by one
/// before it, and counts the fleet as recovered only once it has converged.
pub proof fn recoveries_go_in_order(step: RecoveryStep, allocated: bool)
    ensures
        recovery_after(step, allocated) != RecoveryStep::CleanUp,
        recovery_after(step, allocated) == RecoveryStep::Target ==> step == RecoveryStep::CleanUp,
        recovery_after(step, allocated) == RecoveryStep::Publish ==> step == RecoveryStep::Record || (
        step == RecoveryStep::Target && !allocated),
        recovery_after(step, allocated) == RecoveryStep::Keep ==> step
            == RecoveryStep::AwaitConverged,
{
}

/// The steps of a recovery come one after another, each exactly once: a target that was chosen just now
/// is recorded, one that was left behind has been already, and nothing is skipped.
pub proof fn recoveries_skip_no_step(allocated: bool)
    ensures
        recovery_after(RecoveryStep::CleanUp, allocated) == RecoveryStep::Target,
        recovery_after(RecoveryStep::Target, true) == RecoveryStep::Record,
        recovery_after(RecoveryStep::Target, false) == RecoveryStep::Publish,
        recovery_after(RecoveryStep::Record, allocated) == RecoveryStep::Publish,
        recovery_after(RecoveryStep::Publish, allocated) == RecoveryStep::Declare,
        recovery_after(RecoveryStep::Declare, allocated) == RecoveryStep::Enlist,
        recovery_after(RecoveryStep::Enlist, allocated) == RecoveryStep::AwaitConverged,
        recovery_after(RecoveryStep::AwaitConverged, allocated) == RecoveryStep::Keep,
        recovery_after(RecoveryStep::Keep, allocated) == RecoveryStep::Done,
        recovery_after(RecoveryStep::Done, allocated) == RecoveryStep::Done,
{
}

/// A round assigns its release to each of its groups, one after another, before it proves anything; a
/// round that expects a rejection restores and confirms before it is done, and any other is done once
/// it is proved.
pub proof fn rounds_skip_no_step(plan: RoundPlanView, index: usize)
    ensures
        step_after(RoundStep::Reserve, plan) == RoundStep::Record,
        step_after(RoundStep::Record, plan) == RoundStep::Publish,
        plan.groups.len() > 0 ==> step_after(RoundStep::Publish, plan) == RoundStep::Assign(0),
        plan.groups.len() == 0 ==> step_after(RoundStep::Publish, plan) == RoundStep::Prove,
        index + 1 < plan.groups.len() && index < usize::MAX ==> step_after(
            RoundStep::Assign(index),
            plan,
        ) == RoundStep::Assign((index + 1) as usize),
        index + 1 >= plan.groups.len() ==> step_after(RoundStep::Assign(index), plan)
            == RoundStep::Prove,
        step_after(RoundStep::Prove, plan) == if plan.expected_rejection {
            RoundStep::Restore
        } else {
            RoundStep::Done
        },
        step_after(RoundStep::Restore, plan) == RoundStep::Confirm,
        step_after(RoundStep::Confirm, plan) == RoundStep::Done,
        step_after(RoundStep::Done, plan) == RoundStep::Done,
{
}

/// A step fails only where no generation is left to set aside, or where the fleet or the fault did not
/// do what the round expects of it; a step that fails changes nothing but the count of the fault.
pub proof fn only_two_steps_can_fail(
    step: RoundStep,
    state: CampaignView,
    plan: RoundPlanView,
    news: NewsView,
)
    ensures
        step_error(step, state, news) is Some <==> (step == RoundStep::Reserve
            && state.release_generation == u64::MAX) || (step == RoundStep::Prove && (
        news.assertion is Some || news.fault is Some)),
        step == RoundStep::Reserve && step_error(step, state, news) is Some ==> step_taken(
            step,
            state,
            plan,
            news,
        ) == state,
        step == RoundStep::Prove && step_error(step, state, news) is Some ==> step_taken(
            step,
            state,
            plan,
            news,
        ) == with_fault(state, plan.fault, news.injected, news.fault is Some),
        step == RoundStep::Prove && news.assertion is None && news.fault is None
            && plan.expected_rejection && state.expected_rejections < u64::MAX ==> step_taken(
            step,
            state,
            plan,
            news,
        ).expected_rejections == state.expected_rejections + 1 && step_taken(
            step,
            state,
            plan,
            news,
        ).desired == state.desired,
        step == RoundStep::Prove && news.assertion is None && news.fault is None
            && !plan.expected_rejection ==> step_taken(step, state, plan, news).desired
            == with_version(state.desired, plan.groups, news.version) && step_taken(
            step,
            state,
            plan,
            news,
        ).expected_rejections == state.expected_rejections,
{
}

/// How far a round has come.
pub struct RoundStanding {
    pub step: RoundStep,
    pub state: CampaignView,
    pub failed: bool,
}

/// How far a round has come with what its steps have seen, one after another.
pub open spec fn driven(state: CampaignView, plan: RoundPlanView, news: Seq<NewsView>) -> RoundStanding
    decreases news.len(),
{
    if news.len() == 0 {
        RoundStanding { step: RoundStep::Reserve, state, failed: false }
    } else {
        let at = driven(state, plan, news.drop_last());
        if at.failed {
            at
        } else {
            let error = step_error(at.step, at.state, news.last());
            RoundStanding {
                step: if error is None {
                    step_after(at.step, plan)
                } else {
                    at.step
                },
                state: step_taken(at.step, at.state, plan, news.last()),
                failed: error is Some,
            }
        }
    }
}

/// A generation is recorded before its release is published, whatever the round: what is published
/// first of all follows the record, and that follows the reservation.
pub proof fn generations_are_recorded_before_they_are_published(step: RoundStep, plan: RoundPlanView)
    ensures
        step_after(step, plan) == RoundStep::Publish ==> step == RoundStep::Record,
        step_after(step, plan) == RoundStep::Record ==> step == RoundStep::Reserve,
        step_after(step, plan) != RoundStep::Reserve,
{
}

/// Whether a round can have been planned for this state.
pub open spec fn is_planned(state: CampaignView, plan: RoundPlanView) -> bool {
    &&& plan.round == state.round + 1
    &&& plan.expected_rejection == rejects(plan.round)
    &&& 1 <= plan.groups.len() <= 3
    &&& plan.expected_rejection ==> plan.groups.len() == 1
}

/// Whether a step can have seen this in a round that publishes `version`: a fleet that converged took
/// some time, and a fault with which nothing went wrong was injected.
pub open spec fn is_news(step: RoundStep, news: NewsView, version: Seq<char>) -> bool {
    match step {
        RoundStep::Prove => {
            &&& news.version == version
            &&& is_duration(news.convergence_bits)
            &&& news.fault is None ==> news.injected
        },
        RoundStep::Confirm => is_duration(news.convergence_bits),
        _ => true,
    }
}

/// Whether the steps of a round can have seen this, each in its turn.
pub open spec fn are_news(state: CampaignView, plan: RoundPlanView, news: Seq<NewsView>) -> bool {
    forall|i: int|
        0 <= i < news.len() ==> is_news(
            driven(state, plan, #[trigger] news.take(i)).step,
            news[i],
            round_version(state),
        )
}

/// The version that a round publishes.
pub open spec fn round_version(state: CampaignView) -> Seq<char> {
    version_text(CAMPAIGN_VERSION_MAJOR, (state.release_generation + 1) as u64, 0)
}

/// What a round has brought by the time that a step is due.
spec fn record_at(
    at: RoundStanding,
    plan: RoundPlanView,
    injected: bool,
    fault_failed: bool,
    bits: u64,
) -> RoundRecord {
    RoundRecord {
        assignments: match at.step {
            RoundStep::Reserve | RoundStep::Record | RoundStep::Publish => 0,
            RoundStep::Assign(index) => index as int,
            RoundStep::Prove | RoundStep::Restore => plan.groups.len() as int,
            RoundStep::Confirm => plan.groups.len() as int + 1,
            RoundStep::Done => if plan.expected_rejection {
                plan.groups.len() as int + 1
            } else {
                plan.groups.len() as int
            },
        },
        fault: plan.fault,
        injected,
        fault_failed,
        rejected: plan.expected_rejection && (at.step == RoundStep::Restore || at.step
            == RoundStep::Confirm || at.step == RoundStep::Done),
        converged: if at.step == RoundStep::Done && !plan.expected_rejection {
            plan.groups
        } else {
            Seq::empty()
        },
        convergence_bits: bits,
        succeeded: at.step == RoundStep::Done,
        timestamp: 1,
    }
}

/// The state that a record leads to, before the round is closed.
spec fn before_close(state: CampaignView, record: RoundRecord) -> CampaignView {
    let spread = assigned(reserved(state), record.assignments);
    let hit = with_fault(spread, record.fault, record.injected, record.fault_failed);
    let judged = if record.rejected {
        with_rejection(hit)
    } else {
        hit
    };
    adopted(judged, record.converged, round_version(state), record.convergence_bits)
}

proof fn lemma_nothing_adopted(state: CampaignView, version: Seq<char>)
    ensures
        adopted(state, Seq::empty(), version, state.last_convergence_bits) == state,
{
    assert(with_version(state.desired, Seq::empty(), version) =~= state.desired);
}

/// The record of a round that has come some way: it could have gone so, and leads to the state that
/// the round is in.
proof fn lemma_driven(state: CampaignView, seed: u64, plan: RoundPlanView, news: Seq<NewsView>) -> (record:
    RoundRecord)
    requires
        is_valid(state, seed),
        is_planned(state, plan),
        state.release_generation < u64::MAX,
        state.release_assignments + 3 <= u64::MAX,
        news.len() >= 1,
        are_news(state, plan, news),
    ensures
        is_possible(record, plan.round),
        record.timestamp == 1,
        record.succeeded == (driven(state, plan, news).step == RoundStep::Done),
        driven(state, plan, news).state == before_close(state, record),
        driven(state, plan, news).step != RoundStep::Reserve,
        record == record_at(
            driven(state, plan, news),
            plan,
            record.injected,
            record.fault_failed,
            record.convergence_bits,
        ),
        match driven(state, plan, news).step {
            RoundStep::Assign(index) => index < plan.groups.len(),
            _ => true,
        },
        !driven(state, plan, news).failed && (match driven(state, plan, news).step {
            RoundStep::Restore | RoundStep::Confirm | RoundStep::Done => false,
            _ => true,
        }) ==> !record.injected && !record.fault_failed,
        match driven(state, plan, news).step {
            RoundStep::Restore | RoundStep::Confirm => plan.expected_rejection && record.injected
                && !record.fault_failed,
            RoundStep::Done => record.injected && !record.fault_failed,
            _ => true,
        },
        driven(state, plan, news).failed ==> driven(state, plan, news).step == RoundStep::Prove,
        driven(state, plan, news).step != RoundStep::Done ==> record.convergence_bits
            == state.last_convergence_bits,
    decreases news.len(),
{
    reveal_with_fuel(driven, 2);
    let now = driven(state, plan, news);
    let version = round_version(state);
    if news.len() == 1 {
        assert(news.drop_last().len() == 0);
        let record = record_at(now, plan, false, false, state.last_convergence_bits);
        lemma_nothing_adopted(reserved(state), version);
        assert(before_close(state, record) =~= reserved(state));
        record
    } else {
        let before = news.drop_last();
        assert forall|i: int| 0 <= i < before.len() implies is_news(
            driven(state, plan, #[trigger] before.take(i)).step,
            before[i],
            version,
        ) by {
            assert(before.take(i) =~= news.take(i));
        }
        let earlier = lemma_driven(state, seed, plan, before);
        let at = driven(state, plan, before);
        let last = news.last();
        assert(is_news(at.step, last, version)) by {
            assert(news.take(news.len() - 1) =~= before);
        }
        if at.failed {
            earlier
        } else {
            let record = match at.step {
                RoundStep::Prove => record_at(
                    now,
                    plan,
                    last.injected,
                    last.fault is Some,
                    if now.step == RoundStep::Done {
                        last.convergence_bits
                    } else {
                        state.last_convergence_bits
                    },
                ),
                RoundStep::Confirm => record_at(
                    now,
                    plan,
                    earlier.injected,
                    earlier.fault_failed,
                    last.convergence_bits,
                ),
                RoundStep::Done => earlier,
                _ => record_at(
                    now,
                    plan,
                    earlier.injected,
                    earlier.fault_failed,
                    state.last_convergence_bits,
                ),
            };
            lemma_nothing_adopted(at.state, version);
            assert(with_version(state.desired, Seq::empty(), version) =~= state.desired);
            assert(before_close(state, record) =~= now.state);
            record
        }
    }
}

/// A round that starts from a valid state with no recovery under way ends in a valid state, wherever
/// it stops and whatever it has seen: one that comes to its end counts as a success, and any other
/// leaves a recovery pending.
pub proof fn a_round_may_stop_anywhere(
    state: CampaignView,
    seed: u64,
    plan: RoundPlanView,
    news: Seq<NewsView>,
    timestamp: i64,
)
    requires
        is_valid(state, seed),
        !state.recovery_pending,
        state.recovery_target is None,
        is_planned(state, plan),
        state.release_generation < u64::MAX,
        (state.campaigns + 1 + state.forward_recoveries) * 3 <= u64::MAX,
        news.len() >= 1,
        are_news(state, plan, news),
        timestamp != 0,
    ensures
        ({
            let at = driven(state, plan, news);
            let succeeded = at.step == RoundStep::Done;
            let end = closed(at.state, plan.round, succeeded, timestamp);
            &&& is_valid(end, seed)
            &&& end.recovery_pending == !succeeded
            &&& at.failed ==> !succeeded
        }),
{
    let record = lemma_driven(state, seed, plan, news);
    let dated = RoundRecord { timestamp, ..record };
    rounds_keep_a_state_valid(state, seed, dated);
    assert(after_round(state, dated) == closed(
        before_close(state, record),
        plan.round,
        record.succeeded,
        timestamp,
    ));
}

/// Counts have room where none of them is the highest that can be counted.
pub proof fn counts_have_room_below_the_highest(counts: Seq<FaultCount>, index: int)
    requires
        0 <= index < counts.len(),
    ensures
        counts[index].count == u64::MAX ==> !counts_roomy(counts),
        counts_roomy(counts) ==> counts[index].count + 1 <= u64::MAX,
        (forall|i: int| 0 <= i < counts.len() ==> (#[trigger] counts[i]).count + 1 <= u64::MAX)
            ==> counts_roomy(counts),
{
}

} // verus!
