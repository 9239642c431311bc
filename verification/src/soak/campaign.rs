//! How a soak campaign proceeds: its phases, the life of a fault, and the messages of either.

use crate::json::{item, item_count, items_of, member, member_of, said, said_of, text_in, text_of, Json, JsonView};
use crate::naming::{agent_hostname, agent_name};
use crate::soak::faults::{fault_resource, FaultKind};
use crate::soak::plan::RoundPlan;
use crate::soak::state::{CampaignState, CampaignView};
use crate::text::{
    decimal, decimal_digits, first_chars, quote_list, quoted_list, same, take_chars, views,
};
use vstd::prelude::*;

verus! {

// ----- the phases -----

/// What a campaign is doing.
#[derive(Clone, Copy, PartialEq, Eq, Structural, Debug)]
pub enum Phase {
    /// Waiting for another process to give up the state.
    Lock,
    /// Reconciling the release, the control resources and the fleet.
    Bootstrap,
    Round,
    /// Moving the fleet forward after a round that failed.
    Recover,
    /// Waiting for the next round.
    Rest,
    /// Removing the faults it manages.
    CleanUp,
    Done,
}

/// What happens to a campaign.
#[derive(Clone, Copy, PartialEq, Eq, Structural, Debug)]
pub enum Event {
    /// What the phase was to do is done.
    Succeeded,
    /// It could not be done.
    Failed,
    /// The process is asked to stop.
    Signal,
}

/// A campaign as it runs.
#[derive(Clone, Copy, PartialEq, Eq, Structural, Debug)]
pub struct Run {
    pub phase: Phase,
    /// Whether it stops after the round that is in flight.
    pub stopping: bool,
}

/// Where a campaign goes on after a round, or the recovery from one.
pub open spec fn after_turn(run: Run) -> Run {
    if run.stopping {
        Run { phase: Phase::CleanUp, ..run }
    } else {
        Run { phase: Phase::Rest, ..run }
    }
}

/// What a campaign does next. A signal in the middle of a round lets the round, with its fault,
/// come to an end; a recovery is tried until it succeeds.
pub open spec fn next_run(run: Run, event: Event) -> Run {
    match (run.phase, event) {
        (Phase::Lock, Event::Succeeded) => Run { phase: Phase::Bootstrap, ..run },
        (Phase::Lock, Event::Failed) => run,
        (Phase::Lock, Event::Signal) => Run { phase: Phase::Done, ..run },
        (Phase::Bootstrap, Event::Succeeded) => Run { phase: Phase::Round, ..run },
        (Phase::Bootstrap, Event::Failed) => run,
        (Phase::Bootstrap, Event::Signal) => Run { phase: Phase::CleanUp, ..run },
        (Phase::Round, Event::Succeeded) => after_turn(run),
        (Phase::Round, Event::Failed) => Run { phase: Phase::Recover, ..run },
        (Phase::Round, Event::Signal) => Run { stopping: true, ..run },
        (Phase::Recover, Event::Succeeded) => after_turn(run),
        (Phase::Recover, Event::Failed) => run,
        (Phase::Recover, Event::Signal) => Run { stopping: true, ..run },
        (Phase::Rest, Event::Signal) => Run { phase: Phase::CleanUp, ..run },
        (Phase::Rest, _) => Run { phase: Phase::Round, ..run },
        (Phase::CleanUp, Event::Succeeded) => Run { phase: Phase::Done, ..run },
        (Phase::CleanUp, _) => run,
        (Phase::Done, _) => run,
    }
}

impl Run {
    /// A campaign that has not done anything yet.
    pub fn new() -> (result: Run)
        ensures
            result == (Run { phase: Phase::Lock, stopping: false }),
    {
        Run { phase: Phase::Lock, stopping: false }
    }

    fn go(self, phase: Phase) -> (result: Run)
        ensures
            result == (Run { phase, ..self }),
    {
        Run { phase, stopping: self.stopping }
    }

    fn end_turn(self) -> (result: Run)
        ensures
            result == after_turn(self),
    {
        if self.stopping {
            self.go(Phase::CleanUp)
        } else {
            self.go(Phase::Rest)
        }
    }

    /// What the campaign does next.
    pub fn next(self, event: Event) -> (result: Run)
        ensures
            result == next_run(self, event),
    {
        match (self.phase, event) {
            (Phase::Lock, Event::Succeeded) => self.go(Phase::Bootstrap),
            (Phase::Lock, Event::Failed) => self,
            (Phase::Lock, Event::Signal) => self.go(Phase::Done),
            (Phase::Bootstrap, Event::Succeeded) => self.go(Phase::Round),
            (Phase::Bootstrap, Event::Failed) => self,
            (Phase::Bootstrap, Event::Signal) => self.go(Phase::CleanUp),
            (Phase::Round, Event::Succeeded) => self.end_turn(),
            (Phase::Round, Event::Failed) => self.go(Phase::Recover),
            (Phase::Round, Event::Signal) => Run { phase: self.phase, stopping: true },
            (Phase::Recover, Event::Succeeded) => self.end_turn(),
            (Phase::Recover, Event::Failed) => self,
            (Phase::Recover, Event::Signal) => Run { phase: self.phase, stopping: true },
            (Phase::Rest, Event::Signal) => self.go(Phase::CleanUp),
            (Phase::Rest, _) => self.go(Phase::Round),
            (Phase::CleanUp, Event::Succeeded) => self.go(Phase::Done),
            (Phase::CleanUp, _) => self,
            (Phase::Done, _) => self,
        }
    }

    /// The seconds to wait before a phase that failed is tried again.
    pub fn retry_seconds(self) -> (result: u64)
        ensures
            result == match self.phase {
                Phase::Lock => 1u64,
                Phase::Bootstrap | Phase::Recover => 5u64,
                _ => 0u64,
            },
    {
        match self.phase {
            Phase::Lock => 1,
            Phase::Bootstrap | Phase::Recover => 5,
            _ => 0,
        }
    }
}

/// A campaign that stops has removed its faults, unless it never owned the state.
pub proof fn a_campaign_stops_clean(run: Run, event: Event)
    requires
        run.phase != Phase::Done,
        next_run(run, event).phase == Phase::Done,
    ensures
        (run.phase == Phase::CleanUp && event == Event::Succeeded) || (run.phase == Phase::Lock
            && event == Event::Signal),
{
}

/// A round that failed is recovered from before anything else: no other round, no rest and no
/// stop comes first.
pub proof fn failure_is_recovered_from_first(run: Run, event: Event)
    ensures
        run.phase == Phase::Round && event == Event::Failed ==> next_run(run, event).phase
            == Phase::Recover,
        run.phase == Phase::Recover && event != Event::Succeeded ==> next_run(run, event).phase
            == Phase::Recover,
{
}

/// A signal in the middle of a round leaves the round to end, and the campaign stops after it.
pub proof fn a_signal_lets_the_round_end(run: Run, event: Event)
    requires
        run.phase == Phase::Round,
        event != Event::Failed,
    ensures
        next_run(run, Event::Signal).phase == Phase::Round,
        event == Event::Succeeded ==> next_run(next_run(run, Event::Signal), event).phase
            == Phase::CleanUp,
{
}

/// A campaign stays in a phase until what the phase was to do is done, and then goes on in order: it
/// owns the state before it reconciles, reconciles before it runs rounds, and rests between rounds
/// unless it is to stop. Once it is to stop it does so, and only a signal makes it.
pub proof fn phases_follow_in_order(run: Run)
    ensures
        run.phase == Phase::Lock || run.phase == Phase::Bootstrap || run.phase == Phase::Recover
            || run.phase == Phase::CleanUp ==> next_run(run, Event::Failed) == run,
        run.phase == Phase::Lock ==> next_run(run, Event::Succeeded).phase == Phase::Bootstrap,
        run.phase == Phase::Lock ==> next_run(run, Event::Signal).phase == Phase::Done,
        run.phase == Phase::Bootstrap ==> next_run(run, Event::Succeeded).phase == Phase::Round,
        run.phase == Phase::Bootstrap || run.phase == Phase::Rest ==> next_run(run, Event::Signal).phase
            == Phase::CleanUp,
        run.phase == Phase::Rest ==> next_run(run, Event::Succeeded).phase == Phase::Round && next_run(
            run,
            Event::Failed,
        ).phase == Phase::Round,
        run.phase == Phase::Round || run.phase == Phase::Recover ==> next_run(
            run,
            Event::Succeeded,
        ).phase == (if run.stopping {
            Phase::CleanUp
        } else {
            Phase::Rest
        }) && next_run(run, Event::Signal) == (Run { phase: run.phase, stopping: true }),
        run.phase == Phase::CleanUp ==> next_run(run, Event::Succeeded).phase == Phase::Done
            && next_run(run, Event::Signal).phase == Phase::CleanUp,
        run.phase == Phase::Done ==> forall|event: Event| #[trigger] next_run(run, event) == run,
        next_run(run, Event::Succeeded).stopping == run.stopping,
        next_run(run, Event::Failed).stopping == run.stopping,
        run.stopping ==> next_run(run, Event::Signal).stopping,
{
}

/// Whether a campaign starts from scratch: with nothing released yet, and no recovery underway.
pub open spec fn is_untouched(state: CampaignView) -> bool {
    state.release_generation == 0 && state.recovery_target is None
}

/// Whether a campaign starts from scratch; one that does not recovers forward.
pub fn starts_fresh(state: &CampaignState) -> (result: bool)
    ensures
        result == is_untouched(state@),
        result <==> state.release_generation == 0 && state.recovery_target is None,
{
    state.release_generation == 0 && state.recovery_target.is_none()
}

// ----- the life of a fault -----

/// The label of every fault that a campaign manages.
pub const SOAK_CHAOS_LABEL: &'static str = "soak.updated.dev/campaign";

pub const SOAK_CHAOS_VALUE: &'static str = "managed";

pub const SOAK_CHAOS_NAME_PREFIX: &'static str = "soak-round-";

/// How often a fault is looked at, a second apart, until it is injected.
pub const INJECTION_LOOKS: usize = 30;

/// How often a fault is looked at, a second apart, until it is gone.
pub const DELETION_LOOKS: usize = 60;

/// The selector of the faults that a campaign manages.
pub fn fault_selector() -> (result: String)
    ensures
        result@ == SOAK_CHAOS_LABEL@ + "="@ + SOAK_CHAOS_VALUE@,
{
    let mut text = String::from_str(SOAK_CHAOS_LABEL);
    text.append("=");
    text.append(SOAK_CHAOS_VALUE);
    text
}

/// The name of a round's fault.
pub open spec fn fault_name(round: u64) -> Seq<char> {
    SOAK_CHAOS_NAME_PREFIX@ + decimal_digits(round as nat)
}

/// The name of a round's fault.
pub fn write_fault_name(round: u64) -> (result: String)
    ensures
        result@ == fault_name(round),
{
    let mut text = String::from_str(SOAK_CHAOS_NAME_PREFIX);
    text.append(decimal(round).as_str());
    text
}

/// Faults of different rounds have different names.
pub proof fn fault_names_are_distinct(left: u64, right: u64)
    requires
        fault_name(left) == fault_name(right),
    ensures
        left == right,
{
    let prefix = SOAK_CHAOS_NAME_PREFIX@;
    let first = decimal_digits(left as nat);
    let second = decimal_digits(right as nat);
    assert(fault_name(left).skip(prefix.len() as int) =~= first);
    assert(fault_name(right).skip(prefix.len() as int) =~= second);
    crate::text::decimal_is_injective(left as nat, right as nat);
}

/// What a fault does to its target.
#[derive(Clone, Copy, PartialEq, Eq, Structural, Debug)]
pub enum FaultAction {
    /// Cuts it off, both ways, from what carries the label of a target.
    Partition,
    /// Fails some of its container's accesses to its files.
    FailAccess { errno: u32, percent: u32 },
    Kill,
}

/// The label of what an agent can be cut off from.
pub const CHAOS_TARGET_LABEL: &'static str = "updated.dev/chaos-target";

/// The volume whose accesses fail, and the files on it.
pub const FAULT_VOLUME: &'static str = "/var/lib/updated";

pub const FAULT_FILES: &'static str = "/var/lib/updated/*";

/// The container whose accesses fail.
pub const FAULT_CONTAINER: &'static str = "agent";

/// What a fault does to its target.
pub open spec fn action_of(kind: FaultKind) -> FaultAction {
    match kind {
        FaultKind::NetworkPartition => FaultAction::Partition,
        FaultKind::IoError => FaultAction::FailAccess { errno: 5, percent: 25 },
        FaultKind::AgentKill | FaultKind::ControllerKill => FaultAction::Kill,
    }
}

/// The word for an action.
pub fn action_word(action: FaultAction) -> (result: &'static str)
    ensures
        result@ == match action {
            FaultAction::Partition => "partition"@,
            FaultAction::FailAccess { .. } => "fault"@,
            FaultAction::Kill => "pod-kill"@,
        },
{
    match action {
        FaultAction::Partition => "partition",
        FaultAction::FailAccess { .. } => "fault",
        FaultAction::Kill => "pod-kill",
    }
}

/// A fault to inject.
pub struct FaultObject {
    pub resource_kind: &'static str,
    pub resource_plural: &'static str,
    pub name: String,
    /// The pod it hits.
    pub target: String,
    pub action: FaultAction,
}

/// Whether a fault hits the controller, as against an agent.
pub open spec fn hits_controller(kind: FaultKind) -> bool {
    kind == FaultKind::ControllerKill
}

/// Whether a round's fault needs to know the controller's pod.
pub fn needs_controller(plan: &RoundPlan) -> (result: bool)
    ensures
        result == hits_controller(plan.fault),
{
    match plan.fault {
        FaultKind::ControllerKill => true,
        _ => false,
    }
}

/// A round's fault. `controller` is the controller's pod.
pub fn fault_object(plan: &RoundPlan, controller: &str) -> (result: FaultObject)
    ensures
        (result.resource_kind@, result.resource_plural@) == fault_resource(plan.fault),
        result.name@ == fault_name(plan.round),
        result.target@ == if hits_controller(plan.fault) {
            controller@
        } else {
            agent_name(plan.target_ordinal as nat)
        },
        result.action == action_of(plan.fault),
{
    let descriptor = plan.fault.descriptor();
    let target = if needs_controller(plan) {
        controller.to_owned()
    } else {
        agent_hostname(plan.target_ordinal)
    };
    let action = match plan.fault {
        FaultKind::NetworkPartition => FaultAction::Partition,
        FaultKind::IoError => FaultAction::FailAccess { errno: 5, percent: 25 },
        FaultKind::AgentKill | FaultKind::ControllerKill => FaultAction::Kill,
    };
    FaultObject {
        resource_kind: descriptor.resource_kind,
        resource_plural: descriptor.resource_plural,
        name: write_fault_name(plan.round),
        target,
        action,
    }
}

/// The controller's pod, of the pods found: there must be exactly one.
pub fn controller_pod(names: &Vec<String>) -> (result: Result<String, String>)
    ensures
        match result {
            Ok(name) => names@.len() == 1 && name@ == names@[0]@,
            Err(message) => names@.len() != 1 && message@
                == "expected one updatec controller pod, found "@ + quoted_list(views(names@)),
        },
{
    if names.len() == 1 {
        Ok(names[0].clone())
    } else {
        let mut message = String::from_str("expected one updatec controller pod, found ");
        message.append(quote_list(names).as_str());
        Err(message)
    }
}

/// Whether a condition says that a fault is injected everywhere.
pub open spec fn says_injected(condition: JsonView) -> bool {
    text_in(member_of(condition, "type"@)) == Some("AllInjected"@) && text_in(
        member_of(condition, "status"@),
    ) == Some("True"@)
}

/// Whether a fault is injected, as its resource says.
pub open spec fn injection_reported(object: JsonView) -> bool {
    exists|i: int|
        #![trigger items_of(member_of(member_of(object, "status"@), "conditions"@))[i]]
        0 <= i < items_of(member_of(member_of(object, "status"@), "conditions"@)).len()
            && says_injected(items_of(member_of(member_of(object, "status"@), "conditions"@))[i])
}

fn says(json: Option<&Json>, text: &str) -> (result: bool)
    ensures
        result == (text_in(said_of(json)) == Some(text@)),
{
    match text_of(json) {
        Some(found) => same(found, text),
        None => false,
    }
}

/// Whether a fault is injected, as its resource says.
pub fn is_injected(object: &Json) -> (result: bool)
    ensures
        result == injection_reported(said(*object)),
{
    let conditions = member(member(Some(object), "status"), "conditions");
    let ghost all = items_of(said_of(conditions));
    let mut index: usize = 0;
    while index < item_count(conditions)
        invariant
            all == items_of(said_of(conditions)),
            all == items_of(member_of(member_of(said(*object), "status"@), "conditions"@)),
            index <= all.len(),
            forall|i: int| 0 <= i < index ==> !says_injected(#[trigger] all[i]),
        decreases all.len() - index,
    {
        let condition = item(conditions, index);
        if says(member(condition, "type"), "AllInjected") && says(
            member(condition, "status"),
            "True",
        ) {
            assert(says_injected(all[index as int]));
            return true;
        }
        index = index + 1;
    }
    false
}

/// The steps of a fault.
#[derive(Clone, Copy, PartialEq, Eq, Structural, Debug)]
pub enum FaultStep {
    Create,
    AwaitInjection,
    /// Leaves it in place for its duration.
    Hold,
    Delete,
}

/// What comes after a step of a fault.
#[derive(Clone, Copy, PartialEq, Eq, Structural, Debug)]
pub enum FaultNext {
    Go(FaultStep),
    /// It was injected and is gone again.
    Finished,
    /// A step failed: the fault is deleted once more, whatever comes of that. It counts as injected
    /// where it had been.
    Abandon { injected: bool },
}

/// What comes after a step of a fault.
pub open spec fn fault_next(step: FaultStep, succeeded: bool) -> FaultNext {
    match (step, succeeded) {
        (FaultStep::Create, true) => FaultNext::Go(FaultStep::AwaitInjection),
        (FaultStep::AwaitInjection, true) => FaultNext::Go(FaultStep::Hold),
        (FaultStep::Hold, true) => FaultNext::Go(FaultStep::Delete),
        (FaultStep::Delete, true) => FaultNext::Finished,
        (FaultStep::Create, false) | (FaultStep::AwaitInjection, false) => FaultNext::Abandon {
            injected: false,
        },
        (FaultStep::Hold, false) | (FaultStep::Delete, false) => FaultNext::Abandon {
            injected: true,
        },
    }
}

/// What comes after a step of a fault.
pub fn next_fault_step(step: FaultStep, succeeded: bool) -> (result: FaultNext)
    ensures
        result == fault_next(step, succeeded),
{
    match (step, succeeded) {
        (FaultStep::Create, true) => FaultNext::Go(FaultStep::AwaitInjection),
        (FaultStep::AwaitInjection, true) => FaultNext::Go(FaultStep::Hold),
        (FaultStep::Hold, true) => FaultNext::Go(FaultStep::Delete),
        (FaultStep::Delete, true) => FaultNext::Finished,
        (FaultStep::Create, false) | (FaultStep::AwaitInjection, false) => FaultNext::Abandon {
            injected: false,
        },
        (FaultStep::Hold, false) | (FaultStep::Delete, false) => FaultNext::Abandon {
            injected: true,
        },
    }
}

/// No fault is left behind: its life ends with the step that deletes it, or by deleting it once
/// more.
pub proof fn faults_are_deleted(step: FaultStep, succeeded: bool)
    ensures
        fault_next(step, succeeded) is Finished ==> step == FaultStep::Delete && succeeded,
        !succeeded ==> fault_next(step, succeeded) is Abandon,
{
}

/// The steps of a fault come in order, each once the one before it succeeded. A fault counts as
/// injected where a step fails exactly when its injection had been seen.
pub proof fn fault_steps_come_in_order(step: FaultStep, succeeded: bool)
    ensures
        fault_next(step, succeeded) == FaultNext::Go(FaultStep::AwaitInjection) <==> step
            == FaultStep::Create && succeeded,
        fault_next(step, succeeded) == FaultNext::Go(FaultStep::Hold) <==> step
            == FaultStep::AwaitInjection && succeeded,
        fault_next(step, succeeded) == FaultNext::Go(FaultStep::Delete) <==> step == FaultStep::Hold
            && succeeded,
        fault_next(step, succeeded) == FaultNext::Finished <==> step == FaultStep::Delete
            && succeeded,
        fault_next(step, succeeded) == (FaultNext::Abandon { injected: true }) <==> !succeeded && (
        step == FaultStep::Hold || step == FaultStep::Delete),
        fault_next(step, succeeded) == (FaultNext::Abandon { injected: false }) <==> !succeeded && (
        step == FaultStep::Create || step == FaultStep::AwaitInjection),
{
}

/// A fault counts as injected exactly when one of its conditions is of the type that says so of all
/// targets and is true; one with no conditions does not.
pub proof fn injection_is_a_true_condition(object: JsonView)
    ensures
        ({
            let conditions = items_of(member_of(member_of(object, "status"@), "conditions"@));
            &&& conditions.len() == 0 ==> !injection_reported(object)
            &&& injection_reported(object) <==> exists|i: int|
                0 <= i < conditions.len() && text_in(
                    member_of(#[trigger] conditions[i], "type"@),
                ) == Some("AllInjected"@) && text_in(member_of(conditions[i], "status"@)) == Some(
                    "True"@,
                )
        }),
{
    let conditions = items_of(member_of(member_of(object, "status"@), "conditions"@));
    if injection_reported(object) {
        let i = choose|i: int|
            #![trigger items_of(member_of(member_of(object, "status"@), "conditions"@))[i]]
            0 <= i < items_of(member_of(member_of(object, "status"@), "conditions"@)).len()
                && says_injected(items_of(member_of(member_of(object, "status"@), "conditions"@))[i]);
        assert(says_injected(conditions[i]));
    }
}

/// A fault cuts off, fails accesses or kills by its kind; only one kind hits the controller.
pub proof fn faults_act_by_their_kind(kind: FaultKind)
    ensures
        action_of(kind) is Partition <==> kind == FaultKind::NetworkPartition,
        action_of(kind) is FailAccess <==> kind == FaultKind::IoError,
        action_of(FaultKind::IoError) == (FaultAction::FailAccess { errno: 5, percent: 25 }),
        action_of(kind) is Kill <==> kind == FaultKind::AgentKill || kind
            == FaultKind::ControllerKill,
        hits_controller(kind) <==> kind == FaultKind::ControllerKill,
{
}

/// The message about a fault that is not injected in time.
pub fn not_injected_message(name: &str) -> (result: String)
    ensures
        result@ == "Chaos Mesh did not report "@ + name@ + " injected within 30s"@,
{
    let mut message = String::from_str("Chaos Mesh did not report ");
    message.append(name);
    message.append(" injected within 30s");
    message
}

/// The message about a fault that is not gone in time.
pub fn not_deleted_message(name: &str) -> (result: String)
    ensures
        result@ == "Chaos Mesh did not recover and delete "@ + name@ + " within 60s"@,
{
    let mut message = String::from_str("Chaos Mesh did not recover and delete ");
    message.append(name);
    message.append(" within 60s");
    message
}

/// The error of a round, from those of its assertion and of its fault: a round succeeds where both
/// did.
pub open spec fn round_error(assertion: Option<Seq<char>>, fault: Option<Seq<char>>) -> Option<
    Seq<char>,
> {
    match (assertion, fault) {
        (None, None) => None,
        (Some(error), None) => Some(error),
        (None, Some(error)) => Some(error),
        (Some(first), Some(second)) => Some(
            "round assertion failed: "@ + first + "; fault lifecycle also failed: "@ + second,
        ),
    }
}

/// A round succeeds exactly where both its assertion and its fault did; where one failed its error is
/// the round's, and where both did the round's error holds both, the assertion's first.
pub proof fn a_round_succeeds_where_both_did(assertion: Option<Seq<char>>, fault: Option<Seq<char>>)
    ensures
        round_error(assertion, fault) is None <==> assertion is None && fault is None,
        fault is None ==> round_error(assertion, fault) == assertion,
        assertion is None ==> round_error(assertion, fault) == fault,
        assertion is Some && fault is Some ==> ({
            let error = round_error(assertion, fault)->Some_0;
            let head = "round assertion failed: "@.len() as int;
            let middle = head + assertion->Some_0.len();
            &&& error.subrange(head, middle) == assertion->Some_0
            &&& error.skip(error.len() - fault->Some_0.len()) == fault->Some_0
            &&& error.len() - fault->Some_0.len() >= middle
        }),
{
    if assertion is Some && fault is Some {
        let error = round_error(assertion, fault)->Some_0;
        let head = "round assertion failed: "@.len() as int;
        assert(error.subrange(head, head + assertion->Some_0.len()) =~= assertion->Some_0);
        assert(error.skip(error.len() - fault->Some_0.len()) =~= fault->Some_0);
    }
}

/// The error of a round.
pub fn merge_errors(assertion: Option<String>, fault: Option<String>) -> (result: Option<String>)
    ensures
        crate::text::view_of(result) == round_error(
            crate::text::view_of(assertion),
            crate::text::view_of(fault),
        ),
{
    match (assertion, fault) {
        (None, None) => None,
        (Some(error), None) => Some(error),
        (None, Some(error)) => Some(error),
        (Some(first), Some(second)) => {
            let mut message = String::from_str("round assertion failed: ");
            message.append(first.as_str());
            message.append("; fault lifecycle also failed: ");
            message.append(second.as_str());
            Some(message)
        },
    }
}

// ----- the journal -----

/// How a round ended, as the journal names it.
pub fn outcome_word(failed: bool) -> (result: &'static str)
    ensures
        result@ == if failed {
            "failed"@
        } else {
            "succeeded"@
        },
{
    if failed {
        "failed"
    } else {
        "succeeded"
    }
}

/// An error as the journal keeps it.
pub fn journal_error(message: &str) -> (result: String)
    ensures
        result@ == first_chars(message@, 2048),
{
    take_chars(message, 2048)
}

/// A campaign is untouched exactly where it has set no generation aside and has no recovery to finish.
pub proof fn untouched_campaigns_have_released_nothing(state: CampaignView)
    ensures
        is_untouched(state) <==> state.release_generation == 0 && state.recovery_target is None,
{
}

} // verus!
