//! The plan of one soak round, drawn from the campaign's seed.

use crate::random::{splitmix64, SPLITMIX_INCREMENT};
use crate::random::{splitmix_mix, splitmix_next};
use crate::soak::faults::{fault_for_round, shuffle, FaultKind};
use crate::soak::faults::{lemma_shuffle_permutes, scheduled_fault, shuffled};
use crate::text::views;
use vstd::prelude::*;

verus! {

/// The groups of the soak fleet, in name order.
pub open spec fn soak_groups() -> Seq<Seq<char>> {
    seq!["soak-a"@, "soak-b"@, "soak-c"@]
}

/// The name of a group of the soak fleet.
pub fn soak_group(index: usize) -> (result: &'static str)
    requires
        index < 3,
    ensures
        result@ == soak_groups()[index as int],
{
    if index == 0 {
        "soak-a"
    } else if index == 1 {
        "soak-b"
    } else {
        "soak-c"
    }
}

/// What one round does.
pub struct RoundPlan {
    pub round: u64,
    pub seed: u64,
    pub groups: Vec<String>,
    pub fault: FaultKind,
    pub target_ordinal: usize,
    pub expected_rejection: bool,
}

/// What a plan says.
pub struct RoundPlanView {
    pub round: u64,
    pub seed: u64,
    pub groups: Seq<Seq<char>>,
    pub fault: FaultKind,
    pub target_ordinal: int,
    pub expected_rejection: bool,
}

impl View for RoundPlan {
    type V = RoundPlanView;

    open spec fn view(&self) -> RoundPlanView {
        RoundPlanView {
            round: self.round,
            seed: self.seed,
            groups: views(self.groups@),
            fault: self.fault,
            target_ordinal: self.target_ordinal as int,
            expected_rejection: self.expected_rejection,
        }
    }
}

/// Whether a round deploys a corrupt release that the fleet must reject.
pub open spec fn rejects(round: u64) -> bool {
    round % 10 == 0
}

/// The plan of round `round` of the campaign with this seed, for a fleet of `agent_count`.
///
/// The first draw names the agent to hit. A round that expects no rejection draws how many groups
/// take the release; one that does takes a single group. The rest of the draws order the groups,
/// and the generator's last state is the round's seed.
pub open spec fn round_plan(seed: u64, round: u64, agent_count: int) -> RoundPlanView {
    let first = splitmix_next(seed ^ round.wrapping_mul(SPLITMIX_INCREMENT));
    let second = splitmix_next(first);
    let (size, drawn) = if rejects(round) {
        (1int, first)
    } else {
        (1 + splitmix_mix(second) as int % 3, second)
    };
    let (order, last) = shuffled(soak_groups(), 2, drawn);
    RoundPlanView {
        round,
        seed: last,
        groups: order.take(size),
        fault: scheduled_fault(seed, round),
        target_ordinal: splitmix_mix(first) as int % agent_count,
        expected_rejection: rejects(round),
    }
}

proof fn lemma_shuffle_commutes(indices: Seq<usize>, last: int, state: u64)
    requires
        last < indices.len(),
        forall|i: int| 0 <= i < indices.len() ==> indices[i] < 3,
    ensures
        ({
            let names = Seq::new(indices.len(), |i: int| soak_groups()[indices[i] as int]);
            let (order, end) = shuffled(indices, last, state);
            &&& order.len() == indices.len()
            &&& forall|i: int| 0 <= i < order.len() ==> order[i] < 3
            &&& shuffled(names, last, state) == (
                Seq::new(order.len(), |i: int| soak_groups()[order[i] as int]),
                end,
            )
        }),
    decreases last,
{
    let names = Seq::new(indices.len(), |i: int| soak_groups()[indices[i] as int]);
    if last > 0 {
        let next = splitmix_next(state);
        let selected = splitmix_mix(next) as int % (last + 1);
        let moved = crate::soak::faults::exchanged(indices, last, selected);
        lemma_shuffle_commutes(moved, last - 1, next);
        assert(Seq::new(moved.len(), |i: int| soak_groups()[moved[i] as int])
            =~= crate::soak::faults::exchanged(names, last, selected));
    } else {
        assert(names =~= Seq::new(indices.len(), |i: int| soak_groups()[indices[i] as int]));
    }
}

/// Plans the round after `completed_rounds` rounds of the campaign with this seed.
pub fn plan_round(seed: u64, completed_rounds: u64, agent_count: usize) -> (result: RoundPlan)
    requires
        completed_rounds < u64::MAX,
        agent_count > 0,
    ensures
        result@ == round_plan(seed, (completed_rounds + 1) as u64, agent_count as int),
{
    let round: u64 = completed_rounds + 1;
    let mut state: u64 = seed ^ round.wrapping_mul(SPLITMIX_INCREMENT);
    let fault = fault_for_round(seed, round);
    let target_ordinal: usize = (splitmix64(&mut state) % agent_count as u64) as usize;
    let expected_rejection = round % 10 == 0;
    let size: usize = if expected_rejection {
        1
    } else {
        1 + (splitmix64(&mut state) % 3) as usize
    };
    let ghost drawn = state;
    let mut order: Vec<usize> = Vec::new();
    order.push(0);
    order.push(1);
    order.push(2);
    let ghost before = order@;
    proof {
        lemma_shuffle_commutes(before, 2, drawn);
        assert(Seq::new(before.len(), |i: int| soak_groups()[before[i] as int]) =~= soak_groups());
    }
    shuffle(&mut order, &mut state);
    let ghost names = shuffled(soak_groups(), 2, drawn).0;
    let mut groups: Vec<String> = Vec::new();
    let mut index: usize = 0;
    while index < size
        invariant
            index <= size <= 3,
            order@.len() == 3,
            forall|i: int| 0 <= i < 3 ==> order@[i] < 3,
            names =~= Seq::new(3, |i: int| soak_groups()[order@[i] as int]),
            views(groups@) == names.take(index as int),
        decreases size - index,
    {
        let ghost earlier = groups@;
        let name = soak_group(order[index]).to_owned();
        groups.push(name);
        assert(views(groups@) == views(earlier).push(name@));
        assert(names.take(index + 1) == names.take(index as int).push(names[index as int]));
        index = index + 1;
    }
    RoundPlan { round, seed: state, groups, fault, target_ordinal, expected_rejection }
}

/// A plan hits an agent of the fleet and deploys to distinct groups of the fleet: exactly one in
/// a round that expects a rejection, and one to three otherwise.
pub proof fn plans_stay_inside_the_fleet(seed: u64, round: u64, agent_count: int)
    requires
        agent_count > 0,
    ensures
        ({
            let plan = round_plan(seed, round, agent_count);
            &&& 0 <= plan.target_ordinal < agent_count
            &&& 1 <= plan.groups.len() <= 3
            &&& plan.expected_rejection ==> plan.groups.len() == 1
            &&& plan.groups.no_duplicates()
            &&& forall|i: int|
                0 <= i < plan.groups.len() ==> soak_groups().contains(#[trigger] plan.groups[i])
        }),
{
    let first = splitmix_next(seed ^ round.wrapping_mul(SPLITMIX_INCREMENT));
    let drawn = if rejects(round) {
        first
    } else {
        splitmix_next(first)
    };
    lemma_groups_distinct();
    lemma_shuffle_permutes(soak_groups(), 2, drawn);
}

/// The groups of the soak fleet are distinct.
pub proof fn lemma_groups_distinct()
    ensures
        soak_groups().no_duplicates(),
{
    reveal_strlit("soak-a");
    reveal_strlit("soak-b");
    reveal_strlit("soak-c");
    let all = soak_groups();
    assert(all[0][5] != all[1][5]);
    assert(all[0][5] != all[2][5]);
    assert(all[1][5] != all[2][5]);
}

/// Exactly the rounds that ten divides expect a rejection.
pub proof fn every_tenth_round_rejects(seed: u64, round: u64, agent_count: int)
    ensures
        round_plan(seed, round, agent_count).expected_rejection == (round % 10 == 0),
{
}

} // verus!
