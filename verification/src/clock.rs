//! The clock of a convergence: it counts only the time in which rollouts are admitted.

use vstd::prelude::*;

verus! {

/// Counts the looks at a fleet that is allowed to move. A frozen set admits no rollout, so the
/// clock starts over while one is frozen, and whenever a freeze begins or ends.
#[derive(Clone, Copy)]
pub struct AdmissionClock {
    pub attempt: usize,
    pub was_frozen: bool,
}

/// The clock at a look that finds the fleet frozen or not.
pub open spec fn clock_seen(clock: AdmissionClock, frozen: bool) -> AdmissionClock {
    AdmissionClock {
        attempt: if frozen || frozen != clock.was_frozen {
            0
        } else {
            clock.attempt
        },
        was_frozen: frozen,
    }
}

/// The clock after a look that did not end the wait.
pub open spec fn clock_ticked(clock: AdmissionClock) -> AdmissionClock {
    AdmissionClock { attempt: (clock.attempt + 1) as usize, ..clock }
}

impl AdmissionClock {
    /// A clock that has not counted anything.
    pub fn new() -> (result: AdmissionClock)
        ensures
            result.attempt == 0,
            !result.was_frozen,
    {
        AdmissionClock { attempt: 0, was_frozen: false }
    }

    /// Takes note of whether the fleet is frozen.
    pub fn see(&mut self, frozen: bool)
        ensures
            *final(self) == clock_seen(*old(self), frozen),
    {
        if frozen || frozen != self.was_frozen {
            self.attempt = 0;
        }
        self.was_frozen = frozen;
    }

    /// Counts one more look.
    pub fn tick(&mut self)
        requires
            old(self).attempt < usize::MAX,
        ensures
            *final(self) == clock_ticked(*old(self)),
    {
        self.attempt = self.attempt + 1;
    }

    /// Whether the budget is spent.
    pub fn is_spent(&self, budget: usize) -> (result: bool)
        ensures
            result == (self.attempt >= budget),
    {
        self.attempt >= budget
    }
}

/// The clock after a series of looks, each of which found the fleet frozen or not.
pub open spec fn clock_after(clock: AdmissionClock, looks: Seq<bool>) -> AdmissionClock
    decreases looks.len(),
{
    if looks.len() == 0 {
        clock
    } else {
        clock_ticked(clock_seen(clock_after(clock, looks.drop_last()), looks.last()))
    }
}

/// How many looks at the end of a series found the fleet not frozen.
pub open spec fn open_looks(looks: Seq<bool>) -> nat
    decreases looks.len(),
{
    if looks.len() == 0 || looks.last() {
        0
    } else {
        open_looks(looks.drop_last()) + 1
    }
}

/// A freeze never spends the budget: after a freeze the clock counts no more than the looks since
/// it ended, so the fleet gets its whole budget once rollouts are admitted again.
pub proof fn a_freeze_spends_nothing(clock: AdmissionClock, looks: Seq<bool>)
    requires
        looks.len() < usize::MAX,
        open_looks(looks) < looks.len(),
    ensures
        open_looks(looks) == 0 ==> clock_after(clock, looks).attempt == 1,
        open_looks(looks) > 0 ==> clock_after(clock, looks).attempt == open_looks(looks),
        clock_after(clock, looks).was_frozen == looks.last(),
    decreases looks.len(),
{
    if !looks.last() {
        a_freeze_spends_nothing(clock, looks.drop_last());
    }
}

/// Without a freeze the clock counts every look.
pub proof fn an_open_gate_spends_every_look(clock: AdmissionClock, looks: Seq<bool>)
    requires
        !clock.was_frozen,
        clock.attempt + looks.len() <= usize::MAX,
        open_looks(looks) == looks.len(),
    ensures
        clock_after(clock, looks).attempt == clock.attempt + looks.len(),
        !clock_after(clock, looks).was_frozen,
    decreases looks.len(),
{
    if looks.len() > 0 {
        an_open_gate_spends_every_look(clock, looks.drop_last());
    }
}

/// The clock starts over at a look that finds the fleet frozen and at the first one after that; at any
/// other it goes on from where it was. It remembers what the look found, and counts one look at a time.
pub proof fn the_clock_starts_over_with_a_freeze(clock: AdmissionClock, frozen: bool)
    ensures
        frozen ==> clock_seen(clock, frozen).attempt == 0,
        !frozen && clock.was_frozen ==> clock_seen(clock, frozen).attempt == 0,
        !frozen && !clock.was_frozen ==> clock_seen(clock, frozen).attempt == clock.attempt,
        clock_seen(clock, frozen).was_frozen == frozen,
        clock.attempt < usize::MAX ==> clock_ticked(clock).attempt == clock.attempt + 1,
        clock_ticked(clock).was_frozen == clock.was_frozen,
{
}

} // verus!
