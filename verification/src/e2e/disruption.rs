//! Which pods the disruption of a generation kills.

use crate::e2e::layout::{cohort_group, cohort_group_text, COHORT_SIZE, GROUPS_PER_SET, SET_COUNT};
use crate::naming::{agent_hostname, agent_name};
use crate::random::{splitmix64, splitmix_mix, splitmix_next};
use crate::text::{holds, views};
use vstd::prelude::*;

verus! {

/// Those of the first `count` cohorts of a set that are rolling, in order.
pub open spec fn rolling_cohorts(rolling: Seq<Seq<char>>, set: int, count: int) -> Seq<int>
    decreases count,
{
    if count <= 0 {
        Seq::empty()
    } else {
        let cohort = set * GROUPS_PER_SET + count - 1;
        if rolling.contains(cohort_group_text(cohort as nat)) {
            rolling_cohorts(rolling, set, count - 1).push(cohort)
        } else {
            rolling_cohorts(rolling, set, count - 1)
        }
    }
}

/// The cohorts drawn from the first `count` sets, and the generator's state after drawing them. In
/// each set with a rolling cohort, one is drawn.
pub open spec fn drawn_cohorts(rolling: Seq<Seq<char>>, count: int, state: u64) -> (Seq<int>, u64)
    decreases count,
{
    if count <= 0 {
        (Seq::empty(), state)
    } else {
        let (cohorts, drawn) = drawn_cohorts(rolling, count - 1, state);
        let candidates = rolling_cohorts(rolling, count - 1, GROUPS_PER_SET as int);
        if candidates.len() == 0 {
            (cohorts, drawn)
        } else {
            let next = splitmix_next(drawn);
            (cohorts.push(candidates[splitmix_mix(next) as int % candidates.len() as int]), next)
        }
    }
}

/// The first `count` pods of a cohort.
pub open spec fn cohort_pods(cohort: int, count: int) -> Seq<Seq<char>>
    decreases count,
{
    if count <= 0 {
        Seq::empty()
    } else {
        cohort_pods(cohort, count - 1).push(agent_name((cohort * COHORT_SIZE + count - 1) as nat))
    }
}

/// All pods of some cohorts.
pub open spec fn pods_of(cohorts: Seq<int>) -> Seq<Seq<char>>
    decreases cohorts.len(),
{
    if cohorts.len() == 0 {
        Seq::empty()
    } else {
        pods_of(cohorts.drop_last()) + cohort_pods(cohorts.last(), COHORT_SIZE as int)
    }
}

/// Cohorts as integers.
pub open spec fn as_ints(cohorts: Seq<usize>) -> Seq<int> {
    Seq::new(cohorts.len(), |i: int| cohorts[i] as int)
}

fn list_rolling(rolling: &Vec<String>, set: usize) -> (result: Vec<usize>)
    requires
        set < SET_COUNT,
    ensures
        as_ints(result@) == rolling_cohorts(views(rolling@), set as int, GROUPS_PER_SET as int),
        result@.len() <= GROUPS_PER_SET,
        forall|i: int| 0 <= i < result@.len() ==> #[trigger] result@[i] < SET_COUNT * GROUPS_PER_SET,
{
    let mut cohorts: Vec<usize> = Vec::new();
    let mut member: usize = 0;
    assert(as_ints(cohorts@) =~= Seq::<int>::empty());
    while member < GROUPS_PER_SET
        invariant
            member <= GROUPS_PER_SET,
            set < SET_COUNT,
            cohorts@.len() <= member,
            forall|i: int|
                0 <= i < cohorts@.len() ==> #[trigger] cohorts@[i] < SET_COUNT * GROUPS_PER_SET,
            as_ints(cohorts@) == rolling_cohorts(views(rolling@), set as int, member as int),
        decreases GROUPS_PER_SET - member,
    {
        let ghost before = cohorts@;
        let cohort: usize = set * GROUPS_PER_SET + member;
        if holds(rolling, cohort_group(cohort).as_str()) {
            cohorts.push(cohort);
            assert(as_ints(cohorts@) =~= as_ints(before).push(cohort as int));
        }
        member = member + 1;
    }
    cohorts
}

fn list_pods(cohort: usize) -> (result: Vec<String>)
    requires
        cohort < SET_COUNT * GROUPS_PER_SET,
    ensures
        views(result@) == cohort_pods(cohort as int, COHORT_SIZE as int),
{
    let mut pods: Vec<String> = Vec::new();
    let mut member: usize = 0;
    assert(views(pods@) =~= Seq::<Seq<char>>::empty());
    while member < COHORT_SIZE
        invariant
            member <= COHORT_SIZE,
            cohort < SET_COUNT * GROUPS_PER_SET,
            views(pods@) == cohort_pods(cohort as int, member as int),
        decreases COHORT_SIZE - member,
    {
        let ghost before = pods@;
        let pod = agent_hostname(cohort * COHORT_SIZE + member);
        pods.push(pod);
        assert(views(pods@) =~= views(before).push(pod@));
        member = member + 1;
    }
    pods
}

/// Draws the pods to kill: in each set all those of one rolling cohort.
pub fn draw_victims(rolling: &Vec<String>, state: u64) -> (result: Vec<String>)
    ensures
        views(result@) == pods_of(drawn_cohorts(views(rolling@), SET_COUNT as int, state).0),
{
    let ghost names = views(rolling@);
    let mut drawn: u64 = state;
    let mut victims: Vec<String> = Vec::new();
    let mut set: usize = 0;
    assert(views(victims@) =~= Seq::<Seq<char>>::empty());
    while set < SET_COUNT
        invariant
            set <= SET_COUNT,
            names == views(rolling@),
            drawn == drawn_cohorts(names, set as int, state).1,
            views(victims@) == pods_of(drawn_cohorts(names, set as int, state).0),
        decreases SET_COUNT - set,
    {
        let ghost before = victims@;
        let candidates = list_rolling(rolling, set);
        let ghost all = rolling_cohorts(names, set as int, GROUPS_PER_SET as int);
        assert(all.len() == candidates@.len());
        if candidates.len() > 0 {
            let pick: usize = (splitmix64(&mut drawn) % candidates.len() as u64) as usize;
            assert(all[pick as int] == candidates@[pick as int] as int);
            let mut killed = list_pods(candidates[pick]);
            let ghost taken = killed@;
            victims.append(&mut killed);
            proof {
                let earlier = drawn_cohorts(names, set as int, state).0;
                assert(earlier.push(all[pick as int]).drop_last() =~= earlier);
                assert(views(victims@) =~= views(before) + views(taken));
            }
        }
        set = set + 1;
    }
    victims
}

proof fn lemma_rolling_cohorts(rolling: Seq<Seq<char>>, set: int, count: int)
    requires
        0 <= set,
        0 <= count <= GROUPS_PER_SET,
    ensures
        forall|i: int|
            0 <= i < rolling_cohorts(rolling, set, count).len() ==> {
                let cohort = #[trigger] rolling_cohorts(rolling, set, count)[i];
                &&& set * GROUPS_PER_SET <= cohort < (set + 1) * GROUPS_PER_SET
                &&& rolling.contains(cohort_group_text(cohort as nat))
            },
    decreases count,
{
    if count > 0 {
        lemma_rolling_cohorts(rolling, set, count - 1);
        let all = rolling_cohorts(rolling, set, count);
        let earlier = rolling_cohorts(rolling, set, count - 1);
        assert forall|i: int| 0 <= i < all.len() implies {
            let cohort = #[trigger] all[i];
            &&& set * GROUPS_PER_SET <= cohort < (set + 1) * GROUPS_PER_SET
            &&& rolling.contains(cohort_group_text(cohort as nat))
        } by {
            if i < earlier.len() {
                assert(all[i] == earlier[i]);
            }
        }
    }
}

/// A disruption only strikes cohorts that are rolling, and in each set at most one: every set keeps
/// a cohort that is not struck.
pub proof fn disruptions_strike_one_cohort_a_set(rolling: Seq<Seq<char>>, count: int, state: u64)
    requires
        0 <= count,
    ensures
        forall|i: int|
            0 <= i < drawn_cohorts(rolling, count, state).0.len() ==> {
                let cohort = #[trigger] drawn_cohorts(rolling, count, state).0[i];
                &&& 0 <= cohort < count * GROUPS_PER_SET
                &&& rolling.contains(cohort_group_text(cohort as nat))
            },
        forall|i: int, j: int|
            0 <= i < j < drawn_cohorts(rolling, count, state).0.len() ==> (
            #[trigger] drawn_cohorts(rolling, count, state).0[i]) / (GROUPS_PER_SET as int) < (
            #[trigger] drawn_cohorts(rolling, count, state).0[j]) / (GROUPS_PER_SET as int),
    decreases count,
{
    if count > 0 {
        disruptions_strike_one_cohort_a_set(rolling, count - 1, state);
        let (earlier, drawn) = drawn_cohorts(rolling, count - 1, state);
        let candidates = rolling_cohorts(rolling, count - 1, GROUPS_PER_SET as int);
        lemma_rolling_cohorts(rolling, count - 1, GROUPS_PER_SET as int);
        let all = drawn_cohorts(rolling, count, state).0;
        if candidates.len() > 0 {
            let next = splitmix_next(drawn);
            let pick = splitmix_mix(next) as int % candidates.len() as int;
            assert(0 <= pick < candidates.len()) by (nonlinear_arith)
                requires
                    pick == splitmix_mix(next) as int % candidates.len() as int,
                    candidates.len() > 0,
            ;
            assert(all == earlier.push(candidates[pick]));
        }
        assert forall|i: int| 0 <= i < all.len() implies {
            let cohort = #[trigger] all[i];
            &&& 0 <= cohort < count * GROUPS_PER_SET
            &&& rolling.contains(cohort_group_text(cohort as nat))
        } by {
            if i < earlier.len() {
                assert(all[i] == earlier[i]);
            }
        }
        assert forall|i: int, j: int| 0 <= i < j < all.len() implies (#[trigger] all[i]) / (
        GROUPS_PER_SET as int) < (#[trigger] all[j]) / (GROUPS_PER_SET as int) by {
            assert(all[i] == earlier[i]);
            if j < earlier.len() {
                assert(all[j] == earlier[j]);
            }
        }
    }
}

/// Every pod that is killed belongs to a cohort that was drawn.
pub proof fn victims_belong_to_drawn_cohorts(cohorts: Seq<int>, at: int)
    requires
        forall|i: int| 0 <= i < cohorts.len() ==> 0 <= #[trigger] cohorts[i],
        0 <= at < pods_of(cohorts).len(),
    ensures
        exists|ordinal: nat|
            #![trigger agent_name(ordinal)]
            pods_of(cohorts)[at] == agent_name(ordinal) && cohorts.contains(
                ordinal as int / COHORT_SIZE as int,
            ),
    decreases cohorts.len(),
{
    let earlier = pods_of(cohorts.drop_last());
    let added = cohort_pods(cohorts.last(), COHORT_SIZE as int);
    if at < earlier.len() {
        assert forall|i: int| 0 <= i < cohorts.drop_last().len() implies 0
            <= #[trigger] cohorts.drop_last()[i] by {
            assert(cohorts.drop_last()[i] == cohorts[i]);
        }
        victims_belong_to_drawn_cohorts(cohorts.drop_last(), at);
        let ordinal = choose|ordinal: nat|
            #![trigger agent_name(ordinal)]
            earlier[at] == agent_name(ordinal) && cohorts.drop_last().contains(
                ordinal as int / COHORT_SIZE as int,
            );
        let i = choose|i: int|
            0 <= i < cohorts.drop_last().len() && cohorts.drop_last()[i] == ordinal as int
                / COHORT_SIZE as int;
        assert(cohorts[i] == ordinal as int / COHORT_SIZE as int);
        assert(pods_of(cohorts)[at] == agent_name(ordinal));
    } else {
        lemma_cohort_pods(cohorts.last(), COHORT_SIZE as int);
        let member = at - earlier.len();
        let ordinal = (cohorts.last() * COHORT_SIZE + member) as nat;
        assert(cohorts[cohorts.len() - 1] == cohorts.last() && cohorts.last() >= 0);
        assert(pods_of(cohorts)[at] == added[member]);
        assert(added[member] == agent_name(ordinal));
        assert(ordinal as int / COHORT_SIZE as int == cohorts.last());
        assert(cohorts.contains(ordinal as int / COHORT_SIZE as int));
    }
}

proof fn lemma_cohort_pods(cohort: int, count: int)
    requires
        0 <= cohort,
        0 <= count,
    ensures
        cohort_pods(cohort, count).len() == count,
        forall|i: int|
            0 <= i < count ==> #[trigger] cohort_pods(cohort, count)[i] == agent_name(
                (cohort * COHORT_SIZE + i) as nat,
            ),
    decreases count,
{
    if count > 0 {
        lemma_cohort_pods(cohort, count - 1);
        assert forall|i: int| 0 <= i < count implies #[trigger] cohort_pods(cohort, count)[i]
            == agent_name((cohort * COHORT_SIZE + i) as nat) by {
            if i < count - 1 {
                assert(cohort_pods(cohort, count)[i] == cohort_pods(cohort, count - 1)[i]);
            }
        }
    }
}

/// Every set with a rolling cohort is struck: one of its rolling cohorts is drawn, the one that the set's
/// own draw names.
pub proof fn every_rolling_set_is_struck(rolling: Seq<Seq<char>>, count: int, state: u64, set: int)
    requires
        0 <= set < count,
        rolling_cohorts(rolling, set, 2).len() > 0,
    ensures
        exists|i: int|
            0 <= i < drawn_cohorts(rolling, count, state).0.len() && (#[trigger] drawn_cohorts(
                rolling,
                count,
                state,
            ).0[i]) / 2 == set,
        drawn_cohorts(rolling, set + 1, state).0.last() == rolling_cohorts(rolling, set, 2)[splitmix_mix(
            splitmix_next(drawn_cohorts(rolling, set, state).1),
        ) as int % rolling_cohorts(rolling, set, 2).len() as int],
    decreases count,
{
    let (earlier, drawn) = drawn_cohorts(rolling, count - 1, state);
    let all = drawn_cohorts(rolling, count, state).0;
    if set < count - 1 {
        every_rolling_set_is_struck(rolling, count - 1, state, set);
        let i = choose|i: int| 0 <= i < earlier.len() && (#[trigger] earlier[i]) / 2 == set;
        assert(all[i] == earlier[i]);
    } else {
        let candidates = rolling_cohorts(rolling, set, 2);
        let next = splitmix_next(drawn);
        let pick = splitmix_mix(next) as int % candidates.len() as int;
        assert(0 <= pick < candidates.len()) by (nonlinear_arith)
            requires
                pick == splitmix_mix(next) as int % candidates.len() as int,
                candidates.len() > 0,
        ;
        lemma_rolling_cohorts(rolling, set, 2);
        assert(all == earlier.push(candidates[pick]));
        assert(all[all.len() - 1] == candidates[pick]);
    }
}

/// The rolling cohorts of a set are those two of its own whose groups are rolling, in order.
pub proof fn a_set_rolls_two_cohorts_at_most(rolling: Seq<Seq<char>>, set: int, cohort: int)
    requires
        0 <= set,
    ensures
        rolling_cohorts(rolling, set, 2).contains(cohort) <==> (cohort == 2 * set || cohort == 2 * set
            + 1) && rolling.contains(cohort_group_text(cohort as nat)),
        rolling_cohorts(rolling, set, 2).len() <= 2,
        rolling_cohorts(rolling, set, 2).len() == 2 ==> rolling_cohorts(rolling, set, 2)[0] == 2 * set
            && rolling_cohorts(rolling, set, 2)[1] == 2 * set + 1,
{
    reveal_with_fuel(rolling_cohorts, 3);
    let all = rolling_cohorts(rolling, set, 2);
    let first = rolling_cohorts(rolling, set, 1);
    if rolling.contains(cohort_group_text((2 * set) as nat)) {
        assert(first =~= seq![2 * set]);
        assert(all[0] == 2 * set);
    } else {
        assert(first =~= Seq::<int>::empty());
    }
    if rolling.contains(cohort_group_text((2 * set + 1) as nat)) {
        assert(all == first.push(2 * set + 1));
        assert(all[first.len() as int] == 2 * set + 1);
    } else {
        assert(all == first);
    }
}

/// All pods of a cohort that is drawn are killed, and they are two.
pub proof fn drawn_cohorts_lose_both_pods(cohorts: Seq<int>, index: int)
    requires
        forall|i: int| 0 <= i < cohorts.len() ==> 0 <= #[trigger] cohorts[i],
        0 <= index < cohorts.len(),
    ensures
        pods_of(cohorts).len() == 2 * cohorts.len(),
        pods_of(cohorts)[2 * index] == agent_name((2 * cohorts[index]) as nat),
        pods_of(cohorts)[2 * index + 1] == agent_name((2 * cohorts[index] + 1) as nat),
    decreases cohorts.len(),
{
    let before = cohorts.drop_last();
    assert forall|i: int| 0 <= i < before.len() implies 0 <= #[trigger] before[i] by {
        assert(before[i] == cohorts[i]);
    }
    assert(cohorts.last() == cohorts[cohorts.len() - 1] && cohorts.last() >= 0);
    lemma_cohort_pods(cohorts.last(), COHORT_SIZE as int);
    let added = cohort_pods(cohorts.last(), COHORT_SIZE as int);
    assert(added[0] == agent_name((2 * cohorts.last()) as nat));
    assert(added[1] == agent_name((2 * cohorts.last() + 1) as nat));
    if before.len() > 0 {
        let place = if index < before.len() {
            index
        } else {
            0
        };
        drawn_cohorts_lose_both_pods(before, place);
    } else {
        assert(pods_of(before).len() == 0);
    }
}

} // verus!
