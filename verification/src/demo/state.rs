//! What the demo shows of a chaos run, and how a run begins.

use crate::demo::layout::{trim_events, MAX_EVENTS};
use crate::text::{view_of, views};
use vstd::prelude::*;

verus! {

/// The chaos run as the console shows it.
pub struct ChaosState {
    pub running: bool,
    pub complete: bool,
    pub seed: u64,
    /// Counts generations; at the end of an epoch it jumps to the version converged on.
    pub loop_number: usize,
    /// The epoch under way, counted from 1.
    pub epoch: usize,
    /// The epochs that this run has finished.
    pub completed_epochs: usize,
    pub bad_version: String,
    pub good_version: String,
    pub completed_nodes: usize,
    /// Groups that take a broken release in this generation.
    pub active_broken: Vec<String>,
    /// Groups that take a valid release in this generation.
    pub active_valid: Vec<String>,
    /// Whether the fleet is converging on the epoch's final version.
    pub converging: bool,
    pub updated_groups: Vec<String>,
    pub rolled_back_groups: Vec<String>,
    pub events: Vec<String>,
    pub error: Option<String>,
}

/// What a chaos run's state holds.
#[verifier::ext_equal]
pub struct ChaosView {
    pub running: bool,
    pub complete: bool,
    pub seed: u64,
    pub loop_number: usize,
    pub epoch: usize,
    pub completed_epochs: usize,
    pub bad_version: Seq<char>,
    pub good_version: Seq<char>,
    pub completed_nodes: usize,
    pub active_broken: Seq<Seq<char>>,
    pub active_valid: Seq<Seq<char>>,
    pub converging: bool,
    pub updated_groups: Seq<Seq<char>>,
    pub rolled_back_groups: Seq<Seq<char>>,
    pub events: Seq<Seq<char>>,
    pub error: Option<Seq<char>>,
}

impl View for ChaosState {
    type V = ChaosView;

    open spec fn view(&self) -> ChaosView {
        ChaosView {
            running: self.running,
            complete: self.complete,
            seed: self.seed,
            loop_number: self.loop_number,
            epoch: self.epoch,
            completed_epochs: self.completed_epochs,
            bad_version: self.bad_version@,
            good_version: self.good_version@,
            completed_nodes: self.completed_nodes,
            active_broken: views(self.active_broken@),
            active_valid: views(self.active_valid@),
            converging: self.converging,
            updated_groups: views(self.updated_groups@),
            rolled_back_groups: views(self.rolled_back_groups@),
            events: views(self.events@),
            error: view_of(self.error),
        }
    }
}

/// The state before any run.
pub open spec fn idle_state() -> ChaosView {
    ChaosView {
        running: false,
        complete: false,
        seed: 0,
        loop_number: 0,
        epoch: 0,
        completed_epochs: 0,
        bad_version: Seq::empty(),
        good_version: Seq::empty(),
        completed_nodes: 0,
        active_broken: Seq::empty(),
        active_valid: Seq::empty(),
        converging: false,
        updated_groups: Seq::empty(),
        rolled_back_groups: Seq::empty(),
        events: Seq::empty(),
        error: None,
    }
}

impl Default for ChaosState {
    fn default() -> (result: ChaosState)
        ensures
            result@ == idle_state(),
    {
        let result = ChaosState {
            running: false,
            complete: false,
            seed: 0,
            loop_number: 0,
            epoch: 0,
            completed_epochs: 0,
            bad_version: String::new(),
            good_version: String::new(),
            completed_nodes: 0,
            active_broken: Vec::new(),
            active_valid: Vec::new(),
            converging: false,
            updated_groups: Vec::new(),
            rolled_back_groups: Vec::new(),
            events: Vec::new(),
            error: None,
        };
        assert(result@ =~= idle_state());
        result
    }
}

/// The most recent events, as many as the log retains.
pub open spec fn retained(events: Seq<Seq<char>>) -> Seq<Seq<char>> {
    if events.len() > MAX_EVENTS {
        events.skip(events.len() - MAX_EVENTS)
    } else {
        events
    }
}

/// A state with one more event in its log.
pub open spec fn with_event(state: ChaosView, event: Seq<char>) -> ChaosView {
    ChaosView { events: retained(state.events.push(event)), ..state }
}

/// The state in which a run begins. What describes the run starts over; what the fleet has gone
/// through (the loop number, the epoch, the groups already driven) stays.
pub open spec fn begun(state: ChaosView, seed: u64) -> ChaosView {
    ChaosView {
        running: true,
        complete: false,
        completed_epochs: 0,
        seed,
        error: None,
        active_broken: Seq::empty(),
        active_valid: Seq::empty(),
        converging: false,
        ..state
    }
}

impl ChaosState {
    /// Begins a run and returns the loop number that it resumes from.
    pub fn begin_run(&mut self, seed: u64) -> (result: usize)
        ensures
            final(self)@ == begun(old(self)@, seed),
            result == old(self).loop_number,
    {
        self.running = true;
        self.complete = false;
        self.completed_epochs = 0;
        self.seed = seed;
        self.error = None;
        self.active_broken = Vec::new();
        self.active_valid = Vec::new();
        self.converging = false;
        assert(self@ =~= begun(old(self)@, seed));
        self.loop_number
    }

    /// Appends an event to the log, dropping the oldest beyond what it retains.
    pub fn event(&mut self, event: String)
        ensures
            final(self)@ == with_event(old(self)@, event@),
    {
        let ghost before = self.events@;
        self.events.push(event);
        let ghost grown = self.events@;
        assert(views(grown) =~= views(before).push(event@));
        trim_events(&mut self.events);
        assert(views(self.events@) =~= retained(views(grown)));
        assert(self@ =~= with_event(old(self)@, event@));
    }

    /// Records that the run failed.
    pub fn fail(&mut self, error: &str)
        ensures
            final(self)@ == with_event(
                (ChaosView { running: false, error: Some(error@), ..old(self)@ }),
                "FAILED: "@ + error@,
            ),
    {
        self.running = false;
        self.error = Some(error.to_owned());
        let mut message = String::from_str("FAILED: ");
        message.append(error);
        self.event(message);
    }
}

/// A run that begins reports no finished epoch, whatever the run before it reached.
pub proof fn a_run_starts_from_zero_epochs(state: ChaosView, seed: u64)
    ensures
        begun(state, seed).completed_epochs == 0,
        begun(state, seed).loop_number == state.loop_number,
        begun(state, seed).epoch == state.epoch,
        begun(state, seed).updated_groups == state.updated_groups,
        begun(state, seed).rolled_back_groups == state.rolled_back_groups,
        begun(state, seed).events == state.events,
        begun(state, seed).seed == seed,
        begun(state, seed).running,
        !begun(state, seed).complete,
        !begun(state, seed).converging,
        begun(state, seed).error is None,
        begun(state, seed).active_broken.len() == 0,
        begun(state, seed).active_valid.len() == 0,
{
}

/// The log never outgrows its bound, and always ends with the newest event.
pub proof fn the_log_keeps_the_newest_events(state: ChaosView, event: Seq<char>)
    ensures
        with_event(state, event).events.len() <= MAX_EVENTS,
        with_event(state, event).events.last() == event,
        state.events.len() < 100 ==> with_event(state, event).events == state.events.push(event),
        state.events.len() >= 100 ==> with_event(state, event).events.len() == 100,
        forall|back: int|
            0 < back < with_event(state, event).events.len() ==> #[trigger] with_event(
                state,
                event,
            ).events[with_event(state, event).events.len() - 1 - back] == state.events[state.events.len()
                - back],
        (ChaosView { events: state.events, ..with_event(state, event) }) == state,
{
}

/// Before any run nothing is shown: no run, no version, no group, no event and no error.
pub proof fn nothing_is_shown_before_a_run()
    ensures
        !idle_state().running && !idle_state().complete && !idle_state().converging,
        idle_state().loop_number == 0 && idle_state().epoch == 0,
        idle_state().completed_epochs == 0 && idle_state().completed_nodes == 0,
        idle_state().seed == 0,
        idle_state().bad_version.len() == 0 && idle_state().good_version.len() == 0,
        idle_state().active_broken.len() == 0 && idle_state().active_valid.len() == 0,
        idle_state().updated_groups.len() == 0 && idle_state().rolled_back_groups.len() == 0,
        idle_state().events.len() == 0 && idle_state().error is None,
{
}

} // verus!
