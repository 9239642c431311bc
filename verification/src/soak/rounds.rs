//! The steps that a round and a recovery take through the durable state, and why a state that
//! was valid before them is valid after them.

use crate::soak::faults::{every_fault, FaultKind};
use crate::soak::plan::{rejects, soak_groups, RoundPlan};
use crate::soak::state::{
    a_release_has_one_generation, aggregates_possible, campaign_version_text, count_total,
    counted_kinds, counts_view, desired_view, fresh_state, group_names, is_duration, is_valid,
    lemma_baseline, released_in, stable_version, times_possible, validate_stable_version, CampaignState, CampaignView, FaultCount, GroupVersion,
    BASELINE_VERSION, CAMPAIGN_VERSION_MAJOR,
};
use crate::text::{holds, same, view_of, views};
use crate::version::{
    plain_version, precedes, version_of, version_round_trip, version_text,
    version_text_is_injective, VersionView,
};
use vstd::prelude::*;

verus! {

// ----- the steps -----

/// The state after the next release generation was set aside.
pub open spec fn reserved(state: CampaignView) -> CampaignView {
    CampaignView { release_generation: (state.release_generation + 1) as u64, ..state }
}

/// The state after `count` groups were assigned a release.
pub open spec fn assigned(state: CampaignView, count: int) -> CampaignView {
    CampaignView { release_assignments: (state.release_assignments + count) as u64, ..state }
}

/// Counts with the count of one kind raised by one.
pub open spec fn with_count(counts: Seq<(FaultKind, u64)>, kind: FaultKind) -> Seq<
    (FaultKind, u64),
> {
    Seq::new(
        counts.len(),
        |i: int|
            if counts[i].0 == kind {
                (kind, (counts[i].1 + 1) as u64)
            } else {
                counts[i]
            },
    )
}

/// The state after a fault: counted if it was injected, and as a failure if its lifecycle failed.
pub open spec fn with_fault(
    state: CampaignView,
    kind: FaultKind,
    injected: bool,
    failed: bool,
) -> CampaignView {
    CampaignView {
        faults: if injected {
            with_count(state.faults, kind)
        } else {
            state.faults
        },
        fault_failures: if failed {
            with_count(state.fault_failures, kind)
        } else {
            state.fault_failures
        },
        ..state
    }
}

/// Desired versions with `version` for every group of `groups`.
pub open spec fn with_version(
    desired: Seq<(Seq<char>, Seq<char>)>,
    groups: Seq<Seq<char>>,
    version: Seq<char>,
) -> Seq<(Seq<char>, Seq<char>)> {
    Seq::new(
        desired.len(),
        |i: int|
            if groups.contains(desired[i].0) {
                (desired[i].0, version)
            } else {
                desired[i]
            },
    )
}

/// The state after `groups` converged on `version`.
pub open spec fn adopted(
    state: CampaignView,
    groups: Seq<Seq<char>>,
    version: Seq<char>,
    convergence_bits: u64,
) -> CampaignView {
    CampaignView {
        desired: with_version(state.desired, groups, version),
        last_convergence_bits: convergence_bits,
        ..state
    }
}

/// The state after the fleet rejected a corrupt release.
pub open spec fn with_rejection(state: CampaignView) -> CampaignView {
    CampaignView { expected_rejections: (state.expected_rejections + 1) as u64, ..state }
}

/// The state after round `round` ended: a success clears the failure streak, and a failure leaves
/// a recovery pending.
pub open spec fn closed(
    state: CampaignView,
    round: u64,
    succeeded: bool,
    timestamp: i64,
) -> CampaignView {
    let counted = CampaignView { campaigns: (state.campaigns + 1) as u64, round, ..state };
    if succeeded {
        CampaignView {
            successful_campaigns: (state.successful_campaigns + 1) as u64,
            consecutive_failures: 0,
            last_success_timestamp: timestamp,
            ..counted
        }
    } else {
        CampaignView {
            failed_campaigns: (state.failed_campaigns + 1) as u64,
            recovery_pending: true,
            consecutive_failures: (state.consecutive_failures + 1) as u64,
            last_failure_timestamp: timestamp,
            ..counted
        }
    }
}

/// The state after a recovery set the next generation aside as its target.
pub open spec fn targeted(state: CampaignView) -> CampaignView {
    CampaignView {
        recovery_target: Some(
            version_text(CAMPAIGN_VERSION_MAJOR, (state.release_generation + 1) as u64, 0),
        ),
        ..reserved(state)
    }
}

/// The state after the whole fleet converged on a recovery's release.
pub open spec fn recovered(
    state: CampaignView,
    version: Seq<char>,
    convergence_bits: u64,
) -> CampaignView {
    CampaignView {
        release_assignments: (state.release_assignments + 3) as u64,
        forward_recoveries: (state.forward_recoveries + 1) as u64,
        recovery_target: None,
        ..adopted(state, soak_groups(), version, convergence_bits)
    }
}

/// The state after the recovery that a failed round left pending was accounted for.
pub open spec fn settled(state: CampaignView) -> CampaignView {
    CampaignView {
        recovery_pending: false,
        recoveries: (state.recoveries + 1) as u64,
        ..state
    }
}

fn raise_count(counts: &mut Vec<FaultCount>, kind: FaultKind)
    requires
        forall|i: int| 0 <= i < old(counts)@.len() ==> old(counts)@[i].count < u64::MAX,
    ensures
        counts_view(final(counts)@) == with_count(counts_view(old(counts)@), kind),
{
    let ghost before = old(counts)@;
    let size: usize = counts.len();
    let mut index: usize = 0;
    while index < size
        invariant
            index <= size,
            size == counts@.len(),
            before.len() == size,
            forall|i: int| 0 <= i < before.len() ==> before[i].count < u64::MAX,
            forall|i: int| index <= i < size ==> counts@[i] == before[i],
            forall|i: int|
                0 <= i < index ==> (#[trigger] counts@[i]).kind == before[i].kind && counts@[i].count
                    == (if before[i].kind == kind {
                    before[i].count + 1
                } else {
                    before[i].count as int
                }),
        decreases size - index,
    {
        if counts[index].kind == kind {
            let count: u64 = counts[index].count;
            counts.set(index, FaultCount { kind, count: count + 1 });
        }
        index = index + 1;
    }
    assert(counts_view(counts@) =~= with_count(counts_view(before), kind));
}

/// Desired versions with `version` for every group of `groups`.
pub fn assign_version(desired: &Vec<GroupVersion>, groups: &Vec<String>, version: &str) -> (result: Vec<
    GroupVersion,
>)
    ensures
        desired_view(result@) == with_version(desired_view(desired@), views(groups@), version@),
{
    let ghost goal = with_version(desired_view(desired@), views(groups@), version@);
    let mut result: Vec<GroupVersion> = Vec::new();
    let mut index: usize = 0;
    while index < desired.len()
        invariant
            index <= desired.len(),
            goal == with_version(desired_view(desired@), views(groups@), version@),
            desired_view(result@) == goal.take(index as int),
        decreases desired.len() - index,
    {
        let ghost before = result@;
        let group = desired[index].group.clone();
        let chosen = if holds(groups, group.as_str()) {
            version.to_owned()
        } else {
            desired[index].version.clone()
        };
        let entry = GroupVersion { group, version: chosen };
        result.push(entry);
        proof {
            assert(desired_view(desired@)[index as int] == (
                desired@[index as int].group@,
                desired@[index as int].version@,
            ));
            assert(desired_view(result@) == desired_view(before).push(
                (entry.group@, entry.version@),
            ));
            assert(goal.take(index + 1) == goal.take(index as int).push(goal[index as int]));
        }
        index = index + 1;
    }
    assert(goal.take(desired.len() as int) == goal);
    result
}

/// Every group of the soak fleet.
pub fn every_group() -> (result: Vec<String>)
    ensures
        views(result@) == soak_groups(),
{
    let mut result: Vec<String> = Vec::new();
    result.push(crate::soak::plan::soak_group(0).to_owned());
    result.push(crate::soak::plan::soak_group(1).to_owned());
    result.push(crate::soak::plan::soak_group(2).to_owned());
    assert(views(result@) =~= soak_groups());
    result
}

/// The release a recovery rolls out, and whether it was set aside just now.
pub struct RecoveryTarget {
    pub generation: u64,
    pub allocated: bool,
}

impl CampaignState {
    /// Sets the next release generation aside and returns it.
    pub fn reserve_generation(&mut self) -> (result: Result<u64, String>)
        ensures
            match result {
                Ok(generation) => old(self).release_generation < u64::MAX && final(self)@
                    == reserved(old(self)@) && generation == final(self).release_generation,
                Err(message) => old(self).release_generation == u64::MAX && *final(self) == *old(self)
                    && message@ == "release generation overflow"@,
            },
    {
        match self.release_generation.checked_add(1) {
            Some(generation) => {
                self.release_generation = generation;
                Ok(generation)
            },
            None => Err(String::from_str("release generation overflow")),
        }
    }

    /// Counts one more group that was assigned a release.
    pub fn record_assignment(&mut self)
        requires
            old(self).release_assignments < u64::MAX,
        ensures
            final(self)@ == assigned(old(self)@, 1),
    {
        self.release_assignments = self.release_assignments + 1;
    }

    /// Counts the fault of a round.
    pub fn record_fault(&mut self, kind: FaultKind, injected: bool, failed: bool)
        requires
            injected ==> forall|i: int|
                0 <= i < old(self).faults@.len() ==> old(self).faults@[i].count < u64::MAX,
            failed ==> forall|i: int|
                0 <= i < old(self).fault_failures@.len() ==> old(self).fault_failures@[i].count
                    < u64::MAX,
        ensures
            final(self)@ == with_fault(old(self)@, kind, injected, failed),
    {
        if injected {
            raise_count(&mut self.faults, kind);
        }
        if failed {
            raise_count(&mut self.fault_failures, kind);
        }
    }

    /// Makes `version` the desired version of `groups`, which converged on it.
    pub fn adopt(&mut self, groups: &Vec<String>, version: &str, convergence_bits: u64)
        ensures
            final(self)@ == adopted(old(self)@, views(groups@), version@, convergence_bits),
    {
        self.desired = assign_version(&self.desired, groups, version);
        self.last_convergence_bits = convergence_bits;
    }

    /// Counts a rejected corrupt release.
    pub fn record_rejection(&mut self)
        requires
            old(self).expected_rejections < u64::MAX,
        ensures
            final(self)@ == with_rejection(old(self)@),
    {
        self.expected_rejections = self.expected_rejections + 1;
    }

    /// Whether another round can be numbered, and counted as ended whichever way it ends.
    pub fn can_run_round(&self) -> (result: bool)
        ensures
            result == (self.round < u64::MAX && self.campaigns < u64::MAX
                && self.successful_campaigns < u64::MAX && self.failed_campaigns < u64::MAX
                && self.consecutive_failures < u64::MAX),
    {
        self.round < u64::MAX && self.campaigns < u64::MAX && self.successful_campaigns < u64::MAX
            && self.failed_campaigns < u64::MAX && self.consecutive_failures < u64::MAX
    }

    /// Counts the round that `plan` planned as ended.
    pub fn close_round(&mut self, plan: &RoundPlan, succeeded: bool, timestamp: i64)
        requires
            old(self).campaigns < u64::MAX,
            succeeded ==> old(self).successful_campaigns < u64::MAX,
            !succeeded ==> old(self).failed_campaigns < u64::MAX && old(self).consecutive_failures
                < u64::MAX,
        ensures
            final(self)@ == closed(old(self)@, plan.round, succeeded, timestamp),
    {
        self.campaigns = self.campaigns + 1;
        self.round = plan.round;
        if succeeded {
            self.successful_campaigns = self.successful_campaigns + 1;
            self.consecutive_failures = 0;
            self.last_success_timestamp = timestamp;
        } else {
            self.failed_campaigns = self.failed_campaigns + 1;
            self.recovery_pending = true;
            self.consecutive_failures = self.consecutive_failures + 1;
            self.last_failure_timestamp = timestamp;
        }
    }

    /// The release that a recovery rolls out: the target that an earlier recovery left behind, or
    /// the next generation, which then becomes the target.
    pub fn begin_recovery(&mut self) -> (result: Result<RecoveryTarget, String>)
        ensures
            match old(self)@.recovery_target {
                Some(target) => {
                    &&& *final(self) == *old(self)
                    &&& match stable_version(target, old(self).release_generation) {
                        Ok(version) => result is Ok && result->Ok_0.generation == version.minor
                            && !result->Ok_0.allocated,
                        Err(message) => result is Err && result->Err_0@ == message,
                    }
                },
                None => if old(self).release_generation == u64::MAX {
                    &&& *final(self) == *old(self)
                    &&& result is Err
                    &&& result->Err_0@ == "release generation overflow"@
                } else {
                    &&& final(self)@ == targeted(old(self)@)
                    &&& result is Ok
                    &&& result->Ok_0.generation == final(self).release_generation
                    &&& result->Ok_0.allocated
                },
            },
    {
        if let Some(target) = &self.recovery_target {
            return match validate_stable_version(target.as_str(), self.release_generation) {
                Ok(version) => Ok(RecoveryTarget { generation: version.minor, allocated: false }),
                Err(message) => Err(message),
            };
        }
        match self.release_generation.checked_add(1) {
            Some(generation) => {
                self.release_generation = generation;
                self.recovery_target = Some(campaign_version_text(generation));
                Ok(RecoveryTarget { generation, allocated: true })
            },
            None => Err(String::from_str("release generation overflow")),
        }
    }

    /// Makes `version` the desired version of the whole fleet, which converged on it.
    pub fn finish_recovery(&mut self, version: &str, convergence_bits: u64) -> (result: Result<
        (),
        String,
    >)
        ensures
            if old(self).release_assignments + 3 > u64::MAX {
                &&& *final(self) == *old(self)
                &&& result is Err
                &&& result->Err_0@ == "release assignment counter overflow"@
            } else if old(self).forward_recoveries + 1 > u64::MAX {
                &&& *final(self) == *old(self)
                &&& result is Err
                &&& result->Err_0@ == "forward recovery counter overflow"@
            } else {
                &&& final(self)@ == recovered(old(self)@, version@, convergence_bits)
                &&& result is Ok
            },
    {
        let assignments: u64 = match self.release_assignments.checked_add(3) {
            Some(assignments) => assignments,
            None => {
                return Err(String::from_str("release assignment counter overflow"));
            },
        };
        let recoveries: u64 = match self.forward_recoveries.checked_add(1) {
            Some(recoveries) => recoveries,
            None => {
                return Err(String::from_str("forward recovery counter overflow"));
            },
        };
        let groups = every_group();
        self.desired = assign_version(&self.desired, &groups, version);
        self.release_assignments = assignments;
        self.forward_recoveries = recoveries;
        self.recovery_target = None;
        self.last_convergence_bits = convergence_bits;
        Ok(())
    }

    /// Whether another recovery can be counted.
    pub fn can_settle(&self) -> (result: bool)
        ensures
            result == (self.recoveries < u64::MAX),
    {
        self.recoveries < u64::MAX
    }

    /// Accounts for the recovery that a failed round left pending.
    pub fn settle_recovery(&mut self)
        requires
            old(self).recoveries < u64::MAX,
        ensures
            final(self)@ == settled(old(self)@),
    {
        self.recovery_pending = false;
        self.recoveries = self.recoveries + 1;
    }

    /// The desired version of a group, if the state names one.
    pub fn desired_version(&self, group: &str) -> (result: Option<String>)
        ensures
            view_of(result) == version_for(self@.desired, group@),
    {
        find_version(&self.desired, group)
    }
}

/// The version listed first for a group, if there is one.
pub fn find_version(desired: &Vec<GroupVersion>, group: &str) -> (result: Option<String>)
    ensures
        view_of(result) == version_for(desired_view(desired@), group@),
{
    let ghost all = desired_view(desired@);
    let mut index: usize = 0;
    assert(all.skip(0) == all);
    while index < desired.len()
        invariant
            index <= desired.len(),
            all == desired_view(desired@),
            version_for(all.skip(index as int), group@) == version_for(all, group@),
        decreases desired.len() - index,
    {
        assert(all.skip(index as int)[0] == all[index as int]);
        assert(all.skip(index as int).skip(1) == all.skip(index + 1));
        if same(desired[index].group.as_str(), group) {
            return Some(desired[index].version.clone());
        }
        index = index + 1;
    }
    None
}

/// The version listed first for a group, if there is one.
pub open spec fn version_for(desired: Seq<(Seq<char>, Seq<char>)>, group: Seq<char>) -> Option<
    Seq<char>,
>
    decreases desired.len(),
{
    if desired.len() == 0 {
        None
    } else if desired[0].0 == group {
        Some(desired[0].1)
    } else {
        version_for(desired.skip(1), group)
    }
}

// ----- why the steps keep a state valid -----

proof fn lemma_stable_stays(raw: Seq<char>, generation: u64, later: u64)
    requires
        generation <= later,
        stable_version(raw, generation) is Ok,
    ensures
        stable_version(raw, later) == stable_version(raw, generation),
{
}

/// A release that the campaign published is stable from its own generation on.
pub proof fn published_releases_are_stable(generation: u64, later: u64)
    requires
        1 <= generation <= later,
    ensures
        stable_version(version_text(CAMPAIGN_VERSION_MAJOR, generation, 0), later) == Ok::<
            VersionView,
            Seq<char>,
        >(plain_version(CAMPAIGN_VERSION_MAJOR, generation, 0)),
{
    lemma_baseline();
    a_release_has_one_generation(generation);
    if version_text(CAMPAIGN_VERSION_MAJOR, generation, 0) == BASELINE_VERSION@ {
        version_text_is_injective(CAMPAIGN_VERSION_MAJOR, generation, 0, 1, 0, 0);
    }
}

/// A campaign that has not run a round is valid.
pub proof fn a_fresh_campaign_is_valid(seed: u64)
    ensures
        is_valid(fresh_state(seed), seed),
{
    let state = fresh_state(seed);
    lemma_baseline();
    assert(group_names(state.desired) =~= soak_groups());
    assert(counted_kinds(state.faults) =~= every_fault());
    assert(counted_kinds(state.fault_failures) =~= every_fault());
    lemma_four_counts(state.faults);
    lemma_four_counts(state.fault_failures);
}

proof fn lemma_four_counts(counts: Seq<(FaultKind, u64)>)
    requires
        counts.len() == 4,
    ensures
        count_total(counts) == counts[0].1 + counts[1].1 + counts[2].1 + counts[3].1,
{
    reveal_with_fuel(count_total, 5);
    let three = counts.drop_last();
    let two = three.drop_last();
    let one = two.drop_last();
    assert(one.drop_last().len() == 0);
}

proof fn lemma_raised_total(counts: Seq<(FaultKind, u64)>, kind: FaultKind)
    requires
        counted_kinds(counts) == every_fault(),
        count_total(counts) < u64::MAX,
    ensures
        counted_kinds(with_count(counts, kind)) == every_fault(),
        count_total(with_count(counts, kind)) == count_total(counts) + 1,
{
    let kinds = counted_kinds(counts);
    assert(kinds.len() == counts.len() && every_fault().len() == 4);
    assert(kinds[0] == counts[0].0 && kinds[1] == counts[1].0 && kinds[2] == counts[2].0 && kinds[3]
        == counts[3].0);
    lemma_four_counts(counts);
    lemma_four_counts(with_count(counts, kind));
    assert(counted_kinds(with_count(counts, kind)) =~= every_fault());
}

/// A group has a listed version exactly where it is one of the fleet's.
pub proof fn valid_states_name_every_group(state: CampaignView, seed: u64, index: int)
    requires
        is_valid(state, seed),
        0 <= index < 3,
    ensures
        version_for(state.desired, soak_groups()[index]) == Some(state.desired[index].1),
{
    crate::soak::plan::lemma_groups_distinct();
    let desired = state.desired;
    let names = group_names(desired);
    assert(names.len() == desired.len() && soak_groups().len() == 3);
    assert(names[0] == desired[0].0 && names[1] == desired[1].0 && names[2] == desired[2].0);
    assert(desired.skip(1)[0] == desired[1]);
    assert(desired.skip(1).skip(1)[0] == desired[2]);
    reveal_with_fuel(version_for, 4);
    assert(soak_groups()[0] != soak_groups()[1]);
    assert(soak_groups()[0] != soak_groups()[2]);
    assert(soak_groups()[1] != soak_groups()[2]);
}

/// Setting a generation aside keeps a state valid while no recovery target is held.
pub proof fn reserving_keeps_a_state_valid(state: CampaignView, seed: u64)
    requires
        is_valid(state, seed),
        state.recovery_target is None,
        state.release_generation < u64::MAX,
    ensures
        is_valid(reserved(state), seed),
{
    let after = reserved(state);
    assert forall|i: int| 0 <= i < after.desired.len() implies stable_version(
        #[trigger] after.desired[i].1,
        after.release_generation,
    ) is Ok by {
        lemma_stable_stays(
            state.desired[i].1,
            state.release_generation,
            after.release_generation,
        );
    }
}

/// What happened in a round, between the release that was set aside for it and its end.
pub struct RoundRecord {
    /// How many groups were assigned a release.
    pub assignments: int,
    pub fault: FaultKind,
    pub injected: bool,
    pub fault_failed: bool,
    /// Whether the fleet rejected a corrupt release.
    pub rejected: bool,
    /// The groups that converged on the round's release.
    pub converged: Seq<Seq<char>>,
    pub convergence_bits: u64,
    pub succeeded: bool,
    pub timestamp: i64,
}

/// Whether a round could have gone as recorded: at most three assignments; a rejection only in a
/// round that plans one; success only with an assignment and a fault that ran its course.
pub open spec fn is_possible(record: RoundRecord, round: u64) -> bool {
    &&& 0 <= record.assignments <= 3
    &&& record.rejected ==> rejects(round)
    &&& record.succeeded ==> record.assignments >= 1 && record.injected && !record.fault_failed
    &&& is_duration(record.convergence_bits)
    &&& record.timestamp != 0
}

/// The state after a round that went as recorded.
pub open spec fn after_round(state: CampaignView, record: RoundRecord) -> CampaignView {
    let released = reserved(state);
    let version = version_text(CAMPAIGN_VERSION_MAJOR, released.release_generation, 0);
    let spread = assigned(released, record.assignments);
    let hit = with_fault(spread, record.fault, record.injected, record.fault_failed);
    let judged = if record.rejected {
        with_rejection(hit)
    } else {
        hit
    };
    let moved = adopted(judged, record.converged, version, record.convergence_bits);
    closed(moved, (state.round + 1) as u64, record.succeeded, record.timestamp)
}

/// A round that starts from a valid state with no recovery under way ends in a valid state,
/// however it went; after a failure the recovery is pending.
pub proof fn rounds_keep_a_state_valid(state: CampaignView, seed: u64, record: RoundRecord)
    requires
        is_valid(state, seed),
        !state.recovery_pending,
        state.recovery_target is None,
        is_possible(record, (state.round + 1) as u64),
        state.release_generation < u64::MAX,
        (state.campaigns + 1 + state.forward_recoveries) * 3 <= u64::MAX,
    ensures
        is_valid(after_round(state, record), seed),
        after_round(state, record).recovery_pending == !record.succeeded,
        after_round(state, record).round == state.round + 1,
{
    let after = after_round(state, record);
    let generation = reserved(state).release_generation;
    let version = version_text(CAMPAIGN_VERSION_MAJOR, generation, 0);
    assert(state.desired.len() == 3) by {
        assert(group_names(state.desired).len() == soak_groups().len());
    }
    assert(group_names(after.desired) =~= soak_groups()) by {
        assert(group_names(after.desired) =~= group_names(state.desired));
    }
    lemma_raised_total(state.faults, record.fault);
    lemma_raised_total(state.fault_failures, record.fault);
    published_releases_are_stable(generation, generation);
    assert forall|i: int| 0 <= i < after.desired.len() implies stable_version(
        #[trigger] after.desired[i].1,
        after.release_generation,
    ) is Ok by {
        assert(stable_version(state.desired[i].1, state.release_generation) is Ok);
        lemma_stable_stays(state.desired[i].1, state.release_generation, generation);
    }
    assert(aggregates_possible(after));
    assert(times_possible(after));
}

/// Choosing a recovery's target keeps a state valid.
pub proof fn beginning_a_recovery_keeps_a_state_valid(state: CampaignView, seed: u64)
    requires
        is_valid(state, seed),
        state.recovery_target is None,
        state.release_generation < u64::MAX,
    ensures
        is_valid(targeted(state), seed),
        targeted(state).forward_recoveries < targeted(state).release_generation,
{
    reserving_keeps_a_state_valid(state, seed);
    let generation = reserved(state).release_generation;
    published_releases_are_stable(generation, generation);
    let after = targeted(state);
    assert(after.desired == reserved(state).desired);
    assert forall|i: int| 0 <= i < after.desired.len() implies stable_version(
        #[trigger] after.desired[i].1,
        after.release_generation,
    ) is Ok by {
        assert(stable_version(reserved(state).desired[i].1, generation) is Ok);
    }
}

/// A recovery's release is newer than every release that the fleet could be running.
pub proof fn recovery_moves_forward_only(state: CampaignView, seed: u64, index: int)
    requires
        is_valid(state, seed),
        state.recovery_target is None,
        state.release_generation < u64::MAX,
        0 <= index < state.desired.len(),
    ensures
        ({
            let target = targeted(state).recovery_target->Some_0;
            &&& version_of(target) is Ok
            &&& version_of(state.desired[index].1) is Ok
            &&& precedes(version_of(state.desired[index].1)->Ok_0, version_of(target)->Ok_0)
        }),
{
    version_round_trip(CAMPAIGN_VERSION_MAJOR, (state.release_generation + 1) as u64, 0);
    lemma_baseline();
    let held = state.desired[index].1;
    assert(stable_version(held, state.release_generation) is Ok);
    if held != BASELINE_VERSION@ {
        version_round_trip(CAMPAIGN_VERSION_MAJOR, released_in(held), 0);
    }
}

/// Converging on a recovery's release keeps a state valid.
pub proof fn finishing_a_recovery_keeps_a_state_valid(
    state: CampaignView,
    seed: u64,
    convergence_bits: u64,
)
    requires
        is_valid(state, seed),
        state.recovery_target is Some,
        state.forward_recoveries < state.release_generation,
        is_duration(convergence_bits),
        (state.campaigns + state.forward_recoveries + 1) * 3 <= u64::MAX,
    ensures
        is_valid(
            recovered(
                state,
                version_text(CAMPAIGN_VERSION_MAJOR, state.release_generation, 0),
                convergence_bits,
            ),
            seed,
        ),
{
    let version = version_text(CAMPAIGN_VERSION_MAJOR, state.release_generation, 0);
    let after = recovered(state, version, convergence_bits);
    published_releases_are_stable(state.release_generation, state.release_generation);
    assert(group_names(after.desired) =~= soak_groups()) by {
        assert(group_names(after.desired) =~= group_names(state.desired));
    }
    assert forall|i: int| 0 <= i < after.desired.len() implies stable_version(
        #[trigger] after.desired[i].1,
        after.release_generation,
    ) is Ok by {
        assert(stable_version(state.desired[i].1, state.release_generation) is Ok);
    }
}

/// Accounting for a pending recovery keeps a state valid, once the fleet has recovered forward
/// more often than recoveries were accounted for.
pub proof fn settling_a_recovery_keeps_a_state_valid(state: CampaignView, seed: u64)
    requires
        is_valid(state, seed),
        state.recovery_pending,
        state.recoveries < state.forward_recoveries,
    ensures
        is_valid(settled(state), seed),
        !settled(state).recovery_pending,
{
    let after = settled(state);
    assert forall|i: int| 0 <= i < after.desired.len() implies stable_version(
        #[trigger] after.desired[i].1,
        after.release_generation,
    ) is Ok by {
        assert(stable_version(state.desired[i].1, state.release_generation) is Ok);
    }
}

/// A failed round is always recoverable: choosing a target, converging on it and accounting for
/// it leads from the failed round's state to a valid one with no recovery left, on which every
/// group runs the new release.
pub proof fn a_failed_round_recovers(state: CampaignView, seed: u64, convergence_bits: u64)
    requires
        is_valid(state, seed),
        state.recovery_pending,
        state.recovery_target is None,
        is_duration(convergence_bits),
        state.release_generation < u64::MAX,
        (state.campaigns + state.forward_recoveries + 1) * 3 <= u64::MAX,
    ensures
        ({
            let target = targeted(state);
            let version = target.recovery_target->Some_0;
            let end = settled(recovered(target, version, convergence_bits));
            &&& is_valid(end, seed)
            &&& !end.recovery_pending
            &&& end.recovery_target is None
            &&& end.desired =~= Seq::new(3, |i: int| (soak_groups()[i], version))
        }),
{
    beginning_a_recovery_keeps_a_state_valid(state, seed);
    let target = targeted(state);
    let version = target.recovery_target->Some_0;
    finishing_a_recovery_keeps_a_state_valid(target, seed, convergence_bits);
    let middle = recovered(target, version, convergence_bits);
    settling_a_recovery_keeps_a_state_valid(middle, seed);
    let names = group_names(state.desired);
    assert(names.len() == state.desired.len() && soak_groups().len() == 3);
    assert forall|i: int| 0 <= i < 3 implies #[trigger] middle.desired[i] == (
        soak_groups()[i],
        version,
    ) by {
        assert(names[i] == state.desired[i].0);
        assert(soak_groups().contains(names[i]));
    }
}

/// Campaign releases are strictly ordered by their generations, and all follow the baseline.
pub proof fn campaign_versions_are_monotonic(generation: u64, later: u64)
    requires
        generation < later,
    ensures
        precedes(
            plain_version(CAMPAIGN_VERSION_MAJOR, generation, 0),
            plain_version(CAMPAIGN_VERSION_MAJOR, later, 0),
        ),
        precedes(plain_version(1, 0, 0), plain_version(CAMPAIGN_VERSION_MAJOR, generation, 0)),
{
}

} // verus!
