//! The scenarios that follow the chaos, as the steps that they are made of: what each does to the
//! fleet, what it waits for, and what it sees hold meanwhile.

use crate::e2e::layout::{FLEET_ROLLOUT_TIMEOUT_SECS, STALENESS_HOLD_SECS};
use vstd::prelude::*;

verus! {

/// The scenarios, each of which exercises one control of the fleet.
#[derive(Clone, Copy, PartialEq, Eq, Structural, Debug)]
pub enum Scenario {
    /// A machine that is held and cordoned is passed over.
    NodeControls,
    /// A machine that falls silent holds its group's rollout.
    Staleness,
    /// What one group puts out reaches the group that takes it in.
    Dataflow,
    /// A set outside its window admits nothing but a stated emergency.
    Schedule,
    /// A group whose deployment makes no sense moves nobody.
    Quarantine,
}

/// What a scenario does to the fleet.
#[derive(Clone, Copy, PartialEq, Eq, Structural, Debug)]
pub enum Act {
    /// Rolls a release to the scenario's group.
    Deploy,
    /// Holds and cordons a machine.
    Bench,
    Release,
    /// Stops a machine's agent.
    Stop,
    Resume,
    /// Makes what one group puts out an input of another.
    Wire,
    Unwire,
    /// Gives the set a window that is closed.
    CloseWindow,
    LiftWindow,
    /// Says that the group's release is an emergency.
    StateEmergency,
    WithdrawEmergency,
    /// Names a release that cannot be.
    Corrupt,
    Repair,
}

/// What a scenario waits for.
#[derive(Clone, Copy, PartialEq, Eq, Structural, Debug)]
pub enum Goal {
    /// The cordoned machine is out of rotation.
    Drained,
    /// The group has settled, but for the machine that is held.
    SettledAround,
    /// The released machine is on the release, and in rotation.
    Returned,
    /// The silent machine is out of rotation.
    Dropped,
    /// Both machines are on the release, and the one that was silent is in rotation.
    Recovered,
    /// The input carries what the producer ran before.
    InputArrived,
    /// The input carries what the producer runs now.
    InputFollowed,
    FreezeRecorded,
    EmergencyRecorded,
    /// Every member is on the release.
    EmergencyConverged,
    Quarantined,
    /// The group gives another reason than its quarantine.
    Repaired,
}

/// What a scenario sees hold before it goes on.
#[derive(Clone, Copy, PartialEq, Eq, Structural, Debug)]
pub enum Hold {
    /// The machine that is held was passed over, and it shows.
    PassedOver,
    /// The other machine is not moved past the silent one.
    HeldBack,
    /// The group is where it was while its set is closed.
    StillClosed,
    /// Every member is where it was while the group is quarantined.
    StillServing,
}

/// A step of a scenario.
#[derive(Clone, Copy, PartialEq, Eq, Structural, Debug)]
pub enum Step {
    Do(Act),
    Await(Goal),
    See(Hold),
}

/// The steps of a scenario, in order.
pub open spec fn scenario_steps(scenario: Scenario) -> Seq<Step> {
    match scenario {
        Scenario::NodeControls => seq![
            Step::Do(Act::Bench),
            Step::Await(Goal::Drained),
            Step::Do(Act::Deploy),
            Step::Await(Goal::SettledAround),
            Step::See(Hold::PassedOver),
            Step::Do(Act::Release),
            Step::Await(Goal::Returned),
        ],
        Scenario::Staleness => seq![
            Step::Do(Act::Stop),
            Step::Await(Goal::Dropped),
            Step::Do(Act::Deploy),
            Step::See(Hold::HeldBack),
            Step::Do(Act::Resume),
            Step::Await(Goal::Recovered),
        ],
        Scenario::Dataflow => seq![
            Step::Do(Act::Wire),
            Step::Await(Goal::InputArrived),
            Step::Do(Act::Deploy),
            Step::Await(Goal::InputFollowed),
            Step::Do(Act::Unwire),
        ],
        Scenario::Schedule => seq![
            Step::Do(Act::CloseWindow),
            Step::Do(Act::Deploy),
            Step::Await(Goal::FreezeRecorded),
            Step::See(Hold::StillClosed),
            Step::Do(Act::StateEmergency),
            Step::Await(Goal::EmergencyRecorded),
            Step::Await(Goal::EmergencyConverged),
            Step::Do(Act::WithdrawEmergency),
            Step::Do(Act::LiftWindow),
        ],
        Scenario::Quarantine => seq![
            Step::Do(Act::Corrupt),
            Step::Await(Goal::Quarantined),
            Step::See(Hold::StillServing),
            Step::Do(Act::Repair),
            Step::Await(Goal::Repaired),
        ],
    }
}

impl Scenario {
    /// The steps of this scenario, in order.
    pub fn steps(self) -> (result: Vec<Step>)
        ensures
            result@ == scenario_steps(self),
    {
        match self {
            Scenario::NodeControls => vec![
                Step::Do(Act::Bench),
                Step::Await(Goal::Drained),
                Step::Do(Act::Deploy),
                Step::Await(Goal::SettledAround),
                Step::See(Hold::PassedOver),
                Step::Do(Act::Release),
                Step::Await(Goal::Returned),
            ],
            Scenario::Staleness => vec![
                Step::Do(Act::Stop),
                Step::Await(Goal::Dropped),
                Step::Do(Act::Deploy),
                Step::See(Hold::HeldBack),
                Step::Do(Act::Resume),
                Step::Await(Goal::Recovered),
            ],
            Scenario::Dataflow => vec![
                Step::Do(Act::Wire),
                Step::Await(Goal::InputArrived),
                Step::Do(Act::Deploy),
                Step::Await(Goal::InputFollowed),
                Step::Do(Act::Unwire),
            ],
            Scenario::Schedule => vec![
                Step::Do(Act::CloseWindow),
                Step::Do(Act::Deploy),
                Step::Await(Goal::FreezeRecorded),
                Step::See(Hold::StillClosed),
                Step::Do(Act::StateEmergency),
                Step::Await(Goal::EmergencyRecorded),
                Step::Await(Goal::EmergencyConverged),
                Step::Do(Act::WithdrawEmergency),
                Step::Do(Act::LiftWindow),
            ],
            Scenario::Quarantine => vec![
                Step::Do(Act::Corrupt),
                Step::Await(Goal::Quarantined),
                Step::See(Hold::StillServing),
                Step::Do(Act::Repair),
                Step::Await(Goal::Repaired),
            ],
        }
    }
}

/// The seconds that a goal is waited for. `freshness` is how long a report counts as fresh.
pub open spec fn goal_seconds(goal: Goal, freshness: int) -> int {
    match goal {
        Goal::Drained => 90,
        Goal::SettledAround | Goal::Returned | Goal::Recovered => FLEET_ROLLOUT_TIMEOUT_SECS as int,
        Goal::Dropped => freshness + 60,
        Goal::InputArrived => 180,
        Goal::InputFollowed => 300,
        Goal::FreezeRecorded | Goal::EmergencyRecorded | Goal::Quarantined => 60,
        Goal::EmergencyConverged => 240,
        Goal::Repaired => 120,
    }
}

/// A goal in words.
pub open spec fn goal_text(goal: Goal) -> Seq<char> {
    match goal {
        Goal::Drained => "the cordoned node leaves the programmed endpoints"@,
        Goal::SettledAround => "the group settles around the benched node"@,
        Goal::Returned => "the released node converges and returns to rotation"@,
        Goal::Dropped => "the healthproxy drops the silent node from the programmed endpoints"@,
        Goal::Recovered => "the slice converges and returns to rotation once the agent reports again"@,
        Goal::InputArrived => "the consumer nodes to receive the producer's current version as a file input"@,
        Goal::InputFollowed => "the producer's upgrade to propagate into the consumer's inputs"@,
        Goal::FreezeRecorded => "the set to record its schedule freeze"@,
        Goal::EmergencyRecorded => "the set to record the emergency correction"@,
        Goal::EmergencyConverged => "the emergency correction to converge through the freeze"@,
        Goal::Quarantined => "the group to be quarantined for its invalid deployment"@,
        Goal::Repaired => "the repaired group to plan again"@,
    }
}

impl Goal {
    /// The seconds that this goal is waited for. A silent machine leaves rotation a minute, at the
    /// latest, after its last report has aged out.
    pub fn seconds(self, freshness: usize) -> (result: usize)
        requires
            freshness + 60 <= usize::MAX,
        ensures
            result == goal_seconds(self, freshness as int),
    {
        match self {
            Goal::Drained => 90,
            Goal::SettledAround | Goal::Returned | Goal::Recovered => FLEET_ROLLOUT_TIMEOUT_SECS,
            Goal::Dropped => freshness + 60,
            Goal::InputArrived => 180,
            Goal::InputFollowed => 300,
            Goal::FreezeRecorded | Goal::EmergencyRecorded | Goal::Quarantined => 60,
            Goal::EmergencyConverged => 240,
            Goal::Repaired => 120,
        }
    }

    /// This goal in words.
    pub fn what(self) -> (result: &'static str)
        ensures
            result@ == goal_text(self),
    {
        match self {
            Goal::Drained => "the cordoned node leaves the programmed endpoints",
            Goal::SettledAround => "the group settles around the benched node",
            Goal::Returned => "the released node converges and returns to rotation",
            Goal::Dropped => "the healthproxy drops the silent node from the programmed endpoints",
            Goal::Recovered => "the slice converges and returns to rotation once the agent reports again",
            Goal::InputArrived => "the consumer nodes to receive the producer's current version as a file input",
            Goal::InputFollowed => "the producer's upgrade to propagate into the consumer's inputs",
            Goal::FreezeRecorded => "the set to record its schedule freeze",
            Goal::EmergencyRecorded => "the set to record the emergency correction",
            Goal::EmergencyConverged => "the emergency correction to converge through the freeze",
            Goal::Quarantined => "the group to be quarantined for its invalid deployment",
            Goal::Repaired => "the repaired group to plan again",
        }
    }
}

/// The seconds that pass before something that must hold is first looked at: several rounds of the
/// planner, so that what has not moved by then was not going to.
pub open spec fn hold_pause(hold: Hold) -> nat {
    match hold {
        Hold::PassedOver | Hold::HeldBack => 0,
        Hold::StillClosed | Hold::StillServing => 15,
    }
}

/// How often something that must hold is looked at, a second apart.
pub open spec fn hold_looks(hold: Hold) -> nat {
    match hold {
        Hold::HeldBack => STALENESS_HOLD_SECS as nat,
        _ => 1,
    }
}

impl Hold {
    /// The seconds that pass before the first look.
    pub fn pause(self) -> (result: u64)
        ensures
            result == hold_pause(self),
    {
        match self {
            Hold::PassedOver | Hold::HeldBack => 0,
            Hold::StillClosed | Hold::StillServing => 15,
        }
    }

    /// The number of looks, a second apart.
    pub fn looks(self) -> (result: usize)
        ensures
            result == hold_looks(self),
    {
        match self {
            Hold::HeldBack => STALENESS_HOLD_SECS,
            _ => 1,
        }
    }
}

// ----- laws -----

/// What takes back an act; nothing takes back a release.
pub open spec fn undoing(act: Act) -> Option<Act> {
    match act {
        Act::Bench => Some(Act::Release),
        Act::Stop => Some(Act::Resume),
        Act::Wire => Some(Act::Unwire),
        Act::CloseWindow => Some(Act::LiftWindow),
        Act::StateEmergency => Some(Act::WithdrawEmergency),
        Act::Corrupt => Some(Act::Repair),
        _ => None,
    }
}

/// Whether an act ends a restraint that a scenario is there to see hold.
pub open spec fn ends_restraint(act: Act) -> bool {
    act == Act::Release || act == Act::Resume || act == Act::StateEmergency || act == Act::Repair
}

/// Whether one of some steps, from a place on, is a given act.
pub open spec fn done_from(steps: Seq<Step>, place: int, act: Act) -> bool {
    exists|i: int| place <= i < steps.len() && #[trigger] steps[i] == Step::Do(act)
}

/// A scenario leaves the fleet as it found it, but for the release that it rolled: whatever else it
/// does, it takes back.
pub proof fn scenarios_undo_what_they_do(scenario: Scenario, place: int, act: Act)
    requires
        0 <= place < scenario_steps(scenario).len(),
        scenario_steps(scenario)[place] == Step::Do(act),
        undoing(act) is Some,
    ensures
        done_from(scenario_steps(scenario), place + 1, undoing(act)->0),
{
    let steps = scenario_steps(scenario);
    let last: int = match act {
        Act::Bench => 5,
        Act::Stop => 4,
        Act::Wire => 4,
        Act::CloseWindow => 8,
        Act::StateEmergency => 7,
        _ => 3,
    };
    assert(steps[last] == Step::Do(undoing(act)->0));
}

/// Where a scenario takes a machine out of rotation, nothing is rolled before it is out: what
/// follows is a rollout around a machine that is gone.
pub proof fn nothing_rolls_past_a_machine_in_rotation(scenario: Scenario, place: int)
    requires
        scenario == Scenario::NodeControls || scenario == Scenario::Staleness,
        0 <= place < scenario_steps(scenario).len(),
        scenario_steps(scenario)[place] == Step::Do(Act::Deploy),
    ensures
        place > 0,
        scenario_steps(scenario)[place - 1] == Step::Await(Goal::Drained)
            || scenario_steps(scenario)[place - 1] == Step::Await(Goal::Dropped),
{
}

/// A restraint is ended only once it was seen to hold.
pub proof fn restraints_end_after_they_held(scenario: Scenario, place: int, act: Act)
    requires
        0 <= place < scenario_steps(scenario).len(),
        scenario_steps(scenario)[place] == Step::Do(act),
        ends_restraint(act),
    ensures
        place > 0,
        scenario_steps(scenario)[place - 1] is See,
{
}

/// A scenario sees to the end what it is about: a machine that is let go is waited for until it is back,
/// an input is seen before and after its producer moves, a freeze is recorded before it is seen to hold
/// and an emergency before it converges, and a repair is waited for.
pub proof fn scenarios_see_their_end()
    ensures
        scenario_steps(Scenario::NodeControls).last() == Step::Await(Goal::Returned),
        scenario_steps(Scenario::NodeControls)[3] == Step::Await(Goal::SettledAround),
        scenario_steps(Scenario::NodeControls)[4] == Step::See(Hold::PassedOver),
        scenario_steps(Scenario::Staleness).last() == Step::Await(Goal::Recovered),
        scenario_steps(Scenario::Staleness)[3] == Step::See(Hold::HeldBack),
        scenario_steps(Scenario::Dataflow)[1] == Step::Await(Goal::InputArrived),
        scenario_steps(Scenario::Dataflow)[2] == Step::Do(Act::Deploy),
        scenario_steps(Scenario::Dataflow)[3] == Step::Await(Goal::InputFollowed),
        scenario_steps(Scenario::Schedule)[0] == Step::Do(Act::CloseWindow),
        scenario_steps(Scenario::Schedule)[1] == Step::Do(Act::Deploy),
        scenario_steps(Scenario::Schedule)[2] == Step::Await(Goal::FreezeRecorded),
        scenario_steps(Scenario::Schedule)[3] == Step::See(Hold::StillClosed),
        scenario_steps(Scenario::Schedule)[5] == Step::Await(Goal::EmergencyRecorded),
        scenario_steps(Scenario::Schedule)[6] == Step::Await(Goal::EmergencyConverged),
        scenario_steps(Scenario::Quarantine)[1] == Step::Await(Goal::Quarantined),
        scenario_steps(Scenario::Quarantine)[2] == Step::See(Hold::StillServing),
        scenario_steps(Scenario::Quarantine).last() == Step::Await(Goal::Repaired),
{
}

/// A silent machine is given until a minute after its last report has aged out, the fleet as long as a
/// rollout may take, and what must not move is looked at after fifteen seconds, or for thirty.
pub proof fn waits_are_as_long_as_what_they_wait_for(freshness: int)
    ensures
        goal_seconds(Goal::Dropped, freshness) == freshness + 60,
        goal_seconds(Goal::Drained, freshness) == 90,
        goal_seconds(Goal::SettledAround, freshness) == 900,
        goal_seconds(Goal::Returned, freshness) == 900,
        goal_seconds(Goal::Recovered, freshness) == 900,
        goal_seconds(Goal::InputArrived, freshness) == 180,
        goal_seconds(Goal::InputFollowed, freshness) == 300,
        goal_seconds(Goal::FreezeRecorded, freshness) == 60,
        goal_seconds(Goal::EmergencyRecorded, freshness) == 60,
        goal_seconds(Goal::EmergencyConverged, freshness) == 240,
        goal_seconds(Goal::Quarantined, freshness) == 60,
        goal_seconds(Goal::Repaired, freshness) == 120,
        hold_pause(Hold::StillClosed) == 15,
        hold_pause(Hold::StillServing) == 15,
        hold_pause(Hold::HeldBack) == 0,
        hold_pause(Hold::PassedOver) == 0,
        hold_looks(Hold::HeldBack) == 30,
        hold_looks(Hold::StillClosed) == 1,
        hold_looks(Hold::StillServing) == 1,
        hold_looks(Hold::PassedOver) == 1,
{
}

} // verus!
