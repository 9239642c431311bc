//! A chaos run as it goes from step to step: generations until no cohort is left to drive, then
//! the convergence that closes the epoch, and so on into the next one.

use crate::demo::epochs::{
    close_epoch, cohorts_due, due_epoch, enter_epoch, enter_loop, epoch_closed,
    epoch_entered, epoch_loop, epoch_numbered, epoch_of, epoch_shown, epoch_version, find_epoch_loop,
    generations_due, is_last, left_to_drive, loop_entered, move_epoch, reach, Epoch,
};
use crate::demo::generation::{assignment_view, select_generation};
use crate::demo::layout::DEMO_COHORT_COUNT;
use crate::demo::state::{ChaosState, ChaosView};
use vstd::prelude::*;

verus! {

/// Where a run stands.
#[derive(Clone, Copy, PartialEq, Eq, Structural, Debug)]
pub struct ChaosRun {
    /// The seed of the next generation.
    pub seed: u64,
    /// The epochs after which the run ends, if it is to end.
    pub limit: Option<usize>,
    pub loop_number: usize,
    /// The newest valid version that was rolled, or the baseline.
    pub major: usize,
    /// The epochs that this run has finished.
    pub completed: usize,
    pub epoch: Epoch,
}

/// What one generation rolls out.
pub struct Rollout {
    pub seed: u64,
    /// The cohorts that it exercises, each with whether it takes the broken release.
    pub assignments: Vec<(usize, bool)>,
    pub bad_major: usize,
    pub good_major: usize,
}

/// What a run does next.
pub enum RunStep {
    Generation(Rollout),
    /// Rolls the whole fleet to a version.
    Converge(usize),
}

/// A run that goes on from a loop number and a baseline, with so many cohorts due.
pub open spec fn opened(
    seed: u64,
    limit: Option<usize>,
    loop_number: usize,
    baseline: usize,
    due: nat,
) -> ChaosRun {
    let number = due_epoch(loop_number as int, baseline as int, due);
    ChaosRun {
        seed,
        limit,
        loop_number: epoch_loop(loop_number as int, number) as usize,
        major: baseline,
        completed: 0,
        epoch: epoch_numbered(number),
    }
}

/// Whether an epoch has room for so many cohorts: it converges on something newer than all that they
/// take.
pub open spec fn has_way(run: ChaosRun, left: nat) -> bool {
    reach(run.loop_number as int, run.major as int, left) < run.epoch.converge_major
}

/// A run in an epoch that has room for the cohorts that are left: its own, or else a later one.
pub open spec fn roomed(run: ChaosRun, left: nat) -> ChaosRun {
    if has_way(run, left) {
        run
    } else {
        let number = due_epoch(run.loop_number as int, run.major as int, left);
        ChaosRun {
            loop_number: epoch_loop(run.loop_number as int, number) as usize,
            epoch: epoch_numbered(number),
            ..run
        }
    }
}

/// The state once a run is in an epoch that has room for the cohorts that are left.
pub open spec fn room_shown(state: ChaosView, run: ChaosRun, left: nat) -> ChaosView {
    let next = roomed(run, left);
    if has_way(run, left) {
        state
    } else {
        epoch_shown(state, next.epoch.number as int, next.loop_number as int, run.major as nat)
    }
}

/// A run once it has handed out a generation: the next one has the next seed, and newer versions.
pub open spec fn handed_out(run: ChaosRun) -> ChaosRun {
    ChaosRun {
        seed: run.seed.wrapping_add(1),
        loop_number: (run.loop_number + 1) as usize,
        major: (run.major + 2) as usize,
        ..run
    }
}

/// A run once its epoch has converged; unless it ends there, it is in the next epoch.
pub open spec fn epoch_done(run: ChaosRun) -> ChaosRun {
    let completed = (run.completed + 1) as usize;
    ChaosRun {
        loop_number: run.epoch.converge_major,
        major: run.epoch.converge_major,
        completed,
        epoch: if is_last(completed, run.limit) {
            run.epoch
        } else {
            epoch_numbered(run.epoch.number + 1)
        },
        ..run
    }
}

/// The state once a run's epoch has converged.
pub open spec fn epoch_left(state: ChaosView, run: ChaosRun) -> ChaosView {
    let completed = (run.completed + 1) as usize;
    let closed = epoch_closed(
        state,
        run.epoch.number,
        run.epoch.converge_major,
        completed,
        run.limit,
    );
    if is_last(completed, run.limit) {
        closed
    } else {
        epoch_entered(
            closed,
            run.epoch.converge_major as int,
            run.epoch.converge_major as int,
        )
    }
}

impl ChaosRun {
    /// Whether the run's epoch is one, and converges on something newer than the run has come to.
    pub open spec fn is_well_formed(self) -> bool {
        &&& self.epoch.number >= 1
        &&& self.epoch.converge_major == epoch_version(self.epoch.number as int)
        &&& self.major < self.epoch.converge_major
        &&& self.loop_number < self.epoch.converge_major
    }

    /// Whether the numbers of the next generation, and of the next epochs, can be told.
    pub open spec fn is_roomy(self) -> bool {
        &&& self.completed < usize::MAX
        &&& self.epoch.converge_major + 300 <= usize::MAX
    }

    /// Opens a run and shows the epoch that it is in: one that converges on something newer than the
    /// baseline, and than all that the cohorts which are due take.
    pub fn begin(
        state: &mut ChaosState,
        seed: u64,
        limit: Option<usize>,
        loop_number: usize,
        baseline: usize,
    ) -> (result: ChaosRun)
        requires
            epoch_version(
                due_epoch(
                    loop_number as int,
                    baseline as int,
                    cohorts_due(old(state)@, loop_number as int),
                ),
            ) <= usize::MAX,
        ensures
            result == opened(
                seed,
                limit,
                loop_number,
                baseline,
                cohorts_due(old(state)@, loop_number as int),
            ),
            result.is_well_formed(),
            result.epoch.converge_major > baseline,
            result.loop_number >= loop_number,
            has_way(result, left_to_drive(final(state)@).len()),
            final(state)@ == epoch_entered(old(state)@, loop_number as int, baseline as int),
            left_to_drive(final(state)@).len() == cohorts_due(old(state)@, loop_number as int),
    {
        let epoch = enter_epoch(state, loop_number, baseline);
        ChaosRun {
            seed,
            limit,
            loop_number: find_epoch_loop(loop_number, epoch.number),
            major: baseline,
            completed: 0,
            epoch,
        }
    }

    /// Whether the numbers of the next generation, and of the next epochs, can be told.
    pub fn has_room(&self) -> (result: bool)
        ensures
            result == self.is_roomy(),
    {
        self.completed < usize::MAX && self.epoch.converge_major <= usize::MAX - 300
    }

    /// What the run does next: a generation over the cohorts that are left to drive, or, once none
    /// is, the convergence of the epoch. Both versions of a generation are newer than all before
    /// them and older than the one that the epoch converges on; where the epoch has no room for the
    /// cohorts that are left, the run moves on to one that has.
    pub fn next(&mut self, state: &mut ChaosState) -> (result: RunStep)
        requires
            old(self).is_well_formed(),
            old(self).is_roomy(),
        ensures
            final(self).is_well_formed(),
            match result {
                RunStep::Generation(rollout) => {
                    let left = left_to_drive(old(state)@).len();
                    &&& left > 0
                    &&& assignment_view(rollout.assignments@) == left_to_drive(old(state)@)
                    &&& rollout.seed == old(self).seed
                    &&& rollout.bad_major == old(self).major + 1
                    &&& rollout.good_major == old(self).major + 2
                    &&& rollout.good_major < final(self).epoch.converge_major
                    &&& final(self).major == rollout.good_major
                    &&& final(self).loop_number > old(self).loop_number
                    &&& *final(self) == handed_out(roomed(*old(self), left))
                    &&& final(state)@ == loop_entered(
                        room_shown(old(state)@, *old(self), left),
                        rollout.seed,
                        final(self).loop_number,
                        rollout.bad_major,
                        rollout.good_major,
                    )
                },
                RunStep::Converge(major) => {
                    &&& left_to_drive(old(state)@).len() == 0
                    &&& major == old(self).epoch.converge_major
                    &&& major > old(self).major
                    &&& *final(self) == *old(self)
                    &&& *final(state) == *old(state)
                },
            },
    {
        match select_generation(state) {
            Some(assignments) => {
                let left: usize = assignments.len();
                assert(left == left_to_drive(state@).len()) by {
                    assert(assignment_view(assignments@).len() == assignments@.len());
                }
                if self.loop_number + 1 >= self.epoch.converge_major || self.major + 2
                    >= self.epoch.converge_major {
                    self.epoch = move_epoch(state, self.loop_number, self.major, left);
                    self.loop_number = find_epoch_loop(self.loop_number, self.epoch.number);
                }
                let seed: u64 = self.seed;
                let bad_major: usize = self.major + 1;
                let good_major: usize = self.major + 2;
                self.loop_number = self.loop_number + 1;
                enter_loop(state, seed, self.loop_number, bad_major, good_major);
                self.major = good_major;
                self.seed = seed.wrapping_add(1);
                RunStep::Generation(Rollout { seed, assignments, bad_major, good_major })
            },
            None => RunStep::Converge(self.epoch.converge_major),
        }
    }

    /// Closes the epoch that has converged, and enters the next one unless the run ends. Whether it
    /// ends is returned.
    pub fn converged(&mut self, state: &mut ChaosState) -> (result: bool)
        requires
            old(self).is_well_formed(),
            old(self).is_roomy(),
        ensures
            result == is_last((old(self).completed + 1) as usize, old(self).limit),
            *final(self) == epoch_done(*old(self)),
            final(self).major > old(self).major,
            final(self).loop_number > old(self).loop_number,
            !result ==> final(self).is_well_formed() && has_way(
                *final(self),
                left_to_drive(final(state)@).len(),
            ),
            final(state)@ == epoch_left(old(state)@, *old(self)),
    {
        self.loop_number = self.epoch.converge_major;
        self.major = self.epoch.converge_major;
        self.completed = self.completed + 1;
        if close_epoch(state, &self.epoch, self.completed, self.limit) {
            return true;
        }
        self.epoch = enter_epoch(state, self.loop_number, self.major);
        false
    }
}

// ----- laws -----

/// A run after it has handed out a number of generations within one epoch.
pub open spec fn after_generations(run: ChaosRun, count: nat) -> ChaosRun
    decreases count,
{
    if count == 0 {
        run
    } else {
        handed_out(after_generations(run, (count - 1) as nat))
    }
}

/// A run is told by its seed: each generation has the seed after that of the one before, the loop
/// number after its, and two versions that are newer than all before it.
pub proof fn generations_follow_one_another(run: ChaosRun, count: nat)
    requires
        run.loop_number + count <= usize::MAX,
        run.major + 2 * count <= usize::MAX,
    ensures
        after_generations(run, count).loop_number == run.loop_number + count,
        after_generations(run, count).major == run.major + 2 * count,
        after_generations(run, count).seed == (run.seed + count) % 0x1_0000_0000_0000_0000,
        after_generations(run, count).epoch == run.epoch,
    decreases count,
{
    if count > 0 {
        generations_follow_one_another(run, (count - 1) as nat);
    }
}

/// Whatever it starts from, a run converges on something newer than its baseline and than all that it
/// rolls until the cohorts that are due are driven; and on the way it stays in the epoch that it
/// opened with.
pub proof fn every_run_converges_on_something_newer(
    seed: u64,
    limit: Option<usize>,
    loop_number: usize,
    baseline: usize,
    due: nat,
    count: nat,
)
    requires
        count <= generations_due(due),
        epoch_version(due_epoch(loop_number as int, baseline as int, due)) <= usize::MAX,
    ensures
        ({
            let run = opened(seed, limit, loop_number, baseline, due);
            let at = after_generations(run, count);
            &&& run.is_well_formed()
            &&& run.loop_number >= loop_number
            &&& baseline < run.epoch.converge_major
            &&& at.major < run.epoch.converge_major
            &&& at.loop_number < run.epoch.converge_major
            &&& count < generations_due(due) ==> roomed(at, due) == at
        }),
{
    generations_follow_one_another(opened(seed, limit, loop_number, baseline, due), count);
}

/// A run that goes on after an epoch starts the next one from what the last converged on, and has
/// room there for every cohort.
pub proof fn epochs_follow_one_another(run: ChaosRun)
    requires
        run.is_well_formed(),
        run.is_roomy(),
        !is_last((run.completed + 1) as usize, run.limit),
    ensures
        epoch_done(run).is_well_formed(),
        epoch_done(run).epoch.number == run.epoch.number + 1,
        epoch_done(run).major == run.epoch.converge_major,
        epoch_done(run).loop_number == run.epoch.converge_major,
        has_way(epoch_done(run), DEMO_COHORT_COUNT as nat),
{
}

/// What moves a run: a generation, with so many cohorts left to drive, or a convergence.
pub enum RunMove {
    Generation(nat),
    Convergence,
}

/// A run after one move.
pub open spec fn moved(run: ChaosRun, step: RunMove) -> ChaosRun {
    match step {
        RunMove::Generation(left) => handed_out(roomed(run, left)),
        RunMove::Convergence => epoch_done(run),
    }
}

/// A run after some moves.
pub open spec fn run_after(run: ChaosRun, moves: Seq<RunMove>) -> ChaosRun
    decreases moves.len(),
{
    if moves.len() == 0 {
        run
    } else {
        moved(run_after(run, moves.drop_last()), moves.last())
    }
}

/// Whether a run can make some moves, one after another: it has not ended before the last of them, its
/// numbers can be told, and a generation has cohorts to drive.
pub open spec fn can_make(run: ChaosRun, moves: Seq<RunMove>) -> bool
    decreases moves.len(),
{
    if moves.len() == 0 {
        true
    } else {
        let at = run_after(run, moves.drop_last());
        &&& can_make(run, moves.drop_last())
        &&& at.is_well_formed()
        &&& at.is_roomy()
        &&& (match moves.last() {
            RunMove::Generation(left) => left >= 1,
            RunMove::Convergence => true,
        })
    }
}

/// A run that moves and does not end stays in an epoch that converges on something newer than all that
/// it has rolled.
pub proof fn a_move_leaves_something_newer_to_converge_on(run: ChaosRun, step: RunMove)
    requires
        run.is_well_formed(),
        run.is_roomy(),
        match step {
            RunMove::Generation(left) => left >= 1,
            RunMove::Convergence => !is_last((run.completed + 1) as usize, run.limit),
        },
    ensures
        moved(run, step).is_well_formed(),
        moved(run, step).major > run.major,
        moved(run, step).major < moved(run, step).epoch.converge_major,
        step is Convergence ==> moved(run, step).major == run.epoch.converge_major,
{
}

/// Whatever a run starts from and however many generations and epochs it has gone through, it has
/// something newer left to converge on: newer than the baseline, and than all that it has rolled.
pub proof fn every_run_has_something_newer_to_converge_on(
    seed: u64,
    limit: Option<usize>,
    loop_number: usize,
    baseline: usize,
    due: nat,
    moves: Seq<RunMove>,
)
    requires
        epoch_version(due_epoch(loop_number as int, baseline as int, due)) <= usize::MAX,
        can_make(opened(seed, limit, loop_number, baseline, due), moves),
        moves.len() > 0 && moves.last() is Convergence ==> !is_last(
            (run_after(
                opened(seed, limit, loop_number, baseline, due),
                moves.drop_last(),
            ).completed + 1) as usize,
            limit,
        ),
    ensures
        ({
            let at = run_after(opened(seed, limit, loop_number, baseline, due), moves);
            &&& at.is_well_formed()
            &&& baseline <= at.major < at.epoch.converge_major
            &&& loop_number <= at.loop_number < at.epoch.converge_major
        }),
    decreases moves.len(),
{
    let run = opened(seed, limit, loop_number, baseline, due);
    every_run_converges_on_something_newer(seed, limit, loop_number, baseline, due, 0);
    if moves.len() > 0 {
        let before = moves.drop_last();
        lemma_limit_stays(run, before);
        a_move_leaves_something_newer_to_converge_on(run_after(run, before), moves.last());
        versions_and_loops_only_increase(run, moves, 0);
        assert(moves.take(0) =~= Seq::empty());
    }
}

/// A run keeps the limit that it was opened with.
proof fn lemma_limit_stays(run: ChaosRun, moves: Seq<RunMove>)
    ensures
        run_after(run, moves).limit == run.limit,
    decreases moves.len(),
{
    if moves.len() > 0 {
        lemma_limit_stays(run, moves.drop_last());
    }
}

/// Versions and loop numbers only ever increase: with every move of a run, both are higher than
/// after any earlier one.
pub proof fn versions_and_loops_only_increase(run: ChaosRun, moves: Seq<RunMove>, earlier: int)
    requires
        can_make(run, moves),
        0 <= earlier < moves.len(),
    ensures
        run_after(run, moves.take(earlier)).major < run_after(run, moves).major,
        run_after(run, moves.take(earlier)).loop_number < run_after(run, moves).loop_number,
    decreases moves.len(),
{
    let before = moves.drop_last();
    let at = run_after(run, before);
    if earlier < before.len() {
        assert(before.take(earlier) =~= moves.take(earlier));
        versions_and_loops_only_increase(run, before, earlier);
    } else {
        assert(moves.take(earlier) =~= before);
    }
}

/// A run opens with its seed, its limit and its baseline, and no finished epoch; its loop number stays
/// within its epoch, and jumps to the first of a later one.
pub proof fn a_run_opens_where_it_left_off(
    seed: u64,
    limit: Option<usize>,
    loop_number: usize,
    baseline: usize,
    due: nat,
)
    requires
        epoch_version(due_epoch(loop_number as int, baseline as int, due)) <= usize::MAX,
    ensures
        ({
            let run = opened(seed, limit, loop_number, baseline, due);
            let epoch = due_epoch(loop_number as int, baseline as int, due);
            &&& run.seed == seed
            &&& run.limit == limit
            &&& run.major == baseline
            &&& run.completed == 0
            &&& run.epoch.number == epoch
            &&& run.epoch.converge_major == 100 * epoch + 1
            &&& epoch_of(loop_number as int) == epoch ==> run.loop_number == loop_number
            &&& epoch_of(loop_number as int) != epoch ==> run.loop_number == 100 * (epoch - 1) + 1
        }),
{
}

/// A generation moves a run on by one loop number, two versions and the next seed; an epoch that has
/// converged counts as finished, and moves the run on to the version converged on. Neither changes the
/// limit.
pub proof fn runs_move_on_step_by_step(run: ChaosRun)
    requires
        run.loop_number < usize::MAX,
        run.major + 2 <= usize::MAX,
        run.completed < usize::MAX,
    ensures
        handed_out(run).loop_number == run.loop_number + 1,
        handed_out(run).major == run.major + 2,
        handed_out(run).seed as int == (run.seed + 1) % 0x1_0000_0000_0000_0000,
        handed_out(run).limit == run.limit,
        handed_out(run).completed == run.completed,
        handed_out(run).epoch == run.epoch,
        epoch_done(run).completed == run.completed + 1,
        epoch_done(run).loop_number == run.epoch.converge_major,
        epoch_done(run).major == run.epoch.converge_major,
        epoch_done(run).seed == run.seed,
        epoch_done(run).limit == run.limit,
        run.limit is Some && run.completed + 1 >= run.limit->0 ==> epoch_done(run).epoch
            == run.epoch,
{
}

/// An epoch has room exactly where it converges on something newer than the loop number and the versions
/// come to; a run without room moves on to the epoch that has, and one with room stays.
pub proof fn runs_move_on_where_they_have_no_room(run: ChaosRun, left: nat)
    requires
        left > 0,
    ensures
        has_way(run, left) <==> run.loop_number + 1 < run.epoch.converge_major && run.major + 2
            < run.epoch.converge_major,
        has_way(run, left) ==> roomed(run, left) == run,
        !has_way(run, left) ==> roomed(run, left).epoch == epoch_numbered(
            due_epoch(run.loop_number as int, run.major as int, left),
        ) && roomed(run, left).seed == run.seed && roomed(run, left).major == run.major,
{
}

/// Moving on to an epoch with room is shown, with what was driven; staying in one shows nothing new. An
/// epoch that has converged is closed, and the next one entered unless the run ends there.
pub proof fn epochs_are_shown_as_they_pass(state: ChaosView, run: ChaosRun, left: nat)
    requires
        run.completed < usize::MAX,
    ensures
        has_way(run, left) ==> room_shown(state, run, left) == state,
        !has_way(run, left) ==> ({
            let shown = room_shown(state, run, left);
            &&& shown.epoch == roomed(run, left).epoch.number
            &&& shown.loop_number == roomed(run, left).loop_number
            &&& shown.updated_groups == state.updated_groups
            &&& shown.rolled_back_groups == state.rolled_back_groups
            &&& shown.running == state.running
        }),
        ({
            let closed = epoch_closed(
                state,
                run.epoch.number,
                run.epoch.converge_major,
                (run.completed + 1) as usize,
                run.limit,
            );
            let ends = run.limit is Some && run.completed + 1 >= run.limit->0;
            &&& ends ==> epoch_left(state, run) == closed && epoch_left(state, run).complete
                && !epoch_left(state, run).running
            &&& !ends ==> epoch_left(state, run).running == state.running && epoch_left(
                state,
                run,
            ).complete == state.complete && epoch_left(state, run).completed_epochs
                == run.completed + 1
        }),
{
}

} // verus!
