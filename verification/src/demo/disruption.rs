//! The disruption of a rollout: when it strikes, whether it hits the controller, and which pods
//! it kills.

use crate::demo::fleet::FleetNode;
use crate::demo::layout::{
    node_cohort, node_cohort_index, CHAOS_SEED_SPREAD, DEMO_GROUPS_PER_SET, DEMO_SET_COUNT,
};
use crate::random::{splitmix64, splitmix_mix, splitmix_next};
use crate::text::views;
use vstd::prelude::*;

verus! {

/// What a disruption draws before it looks at the fleet.
pub struct Disruption {
    pub delay_millis: u64,
    pub crashes_controller: bool,
    /// The generator's state, from which the victims are drawn.
    pub state: u64,
}

/// The generator's state before the first draw of the wave with this seed.
pub open spec fn disruption_state(seed: u64) -> u64 {
    seed ^ CHAOS_SEED_SPREAD
}

/// Draws when the disruption of the wave with this seed strikes, in its first five seconds, and
/// whether it crashes the controller.
pub fn draw_disruption(seed: u64) -> (result: Disruption)
    ensures
        ({
            let first = splitmix_next(disruption_state(seed));
            let second = splitmix_next(first);
            &&& result.delay_millis == splitmix_mix(first) % 5000
            &&& result.crashes_controller == (splitmix_mix(second) % 2 == 0)
            &&& result.state == second
        }),
        result.delay_millis < 5000,
{
    let mut state: u64 = seed ^ CHAOS_SEED_SPREAD;
    let delay_millis: u64 = splitmix64(&mut state) % 5000;
    let crashes_controller = splitmix64(&mut state) % 2 == 0;
    Disruption { delay_millis, crashes_controller, state }
}

/// Whether a node of this cohort is out of the load balancer.
pub open spec fn drains(node: FleetNode, cohort: nat) -> bool {
    !node.in_load_balancer && node_cohort(node.node@) == Some(cohort)
}

/// The nodes of a cohort that are out of the load balancer, in order.
pub open spec fn draining_nodes(fleet: Seq<FleetNode>, cohort: nat) -> Seq<Seq<char>>
    decreases fleet.len(),
{
    if fleet.len() == 0 {
        Seq::empty()
    } else if drains(fleet.last(), cohort) {
        draining_nodes(fleet.drop_last(), cohort).push(fleet.last().node@)
    } else {
        draining_nodes(fleet.drop_last(), cohort)
    }
}

/// The first `count` cohorts of a set that have a node out of the load balancer, in order.
pub open spec fn draining_cohorts(fleet: Seq<FleetNode>, set: int, count: int) -> Seq<int>
    decreases count,
{
    if count <= 0 {
        Seq::empty()
    } else {
        let cohort = set * DEMO_GROUPS_PER_SET + count - 1;
        if draining_nodes(fleet, cohort as nat).len() > 0 {
            draining_cohorts(fleet, set, count - 1).push(cohort)
        } else {
            draining_cohorts(fleet, set, count - 1)
        }
    }
}

/// The victims of the first `count` sets, and the generator's state after drawing them. In each
/// set with a cohort that drains, one such cohort is drawn and loses its draining nodes.
pub open spec fn drawn_victims(fleet: Seq<FleetNode>, count: int, state: u64) -> (
    Seq<Seq<char>>,
    u64,
)
    decreases count,
{
    if count <= 0 {
        (Seq::empty(), state)
    } else {
        let (victims, drawn) = drawn_victims(fleet, count - 1, state);
        let cohorts = draining_cohorts(fleet, count - 1, DEMO_GROUPS_PER_SET as int);
        if cohorts.len() == 0 {
            (victims, drawn)
        } else {
            let next = splitmix_next(drawn);
            let cohort = cohorts[splitmix_mix(next) as int % cohorts.len() as int];
            (victims + draining_nodes(fleet, cohort as nat), next)
        }
    }
}

fn list_draining(fleet: &Vec<FleetNode>, cohort: usize) -> (result: Vec<String>)
    ensures
        views(result@) == draining_nodes(fleet@, cohort as nat),
{
    let mut result: Vec<String> = Vec::new();
    let mut index: usize = 0;
    while index < fleet.len()
        invariant
            index <= fleet.len(),
            views(result@) == draining_nodes(fleet@.take(index as int), cohort as nat),
        decreases fleet.len() - index,
    {
        let ghost before = result@;
        assert(fleet@.take(index + 1).drop_last() =~= fleet@.take(index as int));
        let node = &fleet[index];
        let belongs = match node_cohort_index(node.node.as_str()) {
            Some(other) => other == cohort,
            None => false,
        };
        if !node.in_load_balancer && belongs {
            let name = node.node.clone();
            result.push(name);
            assert(views(result@) =~= views(before).push(name@));
        }
        index = index + 1;
    }
    assert(fleet@.take(fleet.len() as int) =~= fleet@);
    result
}

/// Draws the pods to kill: in each set at most one cohort, and of it only pods that are already
/// out of the load balancer.
pub fn draw_victims(fleet: &Vec<FleetNode>, state: u64) -> (result: Vec<String>)
    ensures
        views(result@) == drawn_victims(fleet@, DEMO_SET_COUNT as int, state).0,
{
    let mut drawn: u64 = state;
    let mut victims: Vec<String> = Vec::new();
    let mut set: usize = 0;
    while set < DEMO_SET_COUNT
        invariant
            set <= DEMO_SET_COUNT,
            (views(victims@), drawn) == drawn_victims(fleet@, set as int, state),
        decreases DEMO_SET_COUNT - set,
    {
        let ghost before = victims@;
        let first: usize = set * DEMO_GROUPS_PER_SET;
        let mut cohorts: Vec<usize> = Vec::new();
        let mut member: usize = 0;
        while member < DEMO_GROUPS_PER_SET
            invariant
                member <= DEMO_GROUPS_PER_SET,
                set < DEMO_SET_COUNT,
                first == set * DEMO_GROUPS_PER_SET,
                cohorts@.len() <= member,
                Seq::new(cohorts@.len(), |i: int| cohorts@[i] as int) == draining_cohorts(
                    fleet@,
                    set as int,
                    member as int,
                ),
            decreases DEMO_GROUPS_PER_SET - member,
        {
            let ghost earlier = cohorts@;
            if list_draining(fleet, first + member).len() > 0 {
                cohorts.push(first + member);
            }
            assert(Seq::new(cohorts@.len(), |i: int| cohorts@[i] as int) =~= draining_cohorts(
                fleet@,
                set as int,
                member + 1,
            )) by {
                let now = draining_cohorts(fleet@, set as int, member as int);
                assert(now.len() == earlier.len());
                assert forall|i: int| 0 <= i < earlier.len() implies now[i] == earlier[i] as int by {
                    assert(Seq::new(earlier.len(), |i: int| earlier[i] as int)[i] == earlier[i] as int);
                }
            }
            member = member + 1;
        }
        let ghost all = draining_cohorts(fleet@, set as int, DEMO_GROUPS_PER_SET as int);
        assert(all.len() == cohorts@.len());
        if cohorts.len() > 0 {
            let pick: usize = (splitmix64(&mut drawn) % cohorts.len() as u64) as usize;
            assert(all[pick as int] == cohorts@[pick as int] as int);
            let mut killed = list_draining(fleet, cohorts[pick]);
            let ghost taken = killed@;
            victims.append(&mut killed);
            assert(views(victims@) =~= views(before) + views(taken));
        }
        set = set + 1;
    }
    victims
}

/// Whether every one of some names is a node's that drains from a cohort of one of the first
/// `count` sets, and no set loses nodes of two cohorts.
pub open spec fn are_spared(fleet: Seq<FleetNode>, victims: Seq<Seq<char>>, count: int) -> bool {
    &&& forall|i: int| 0 <= i < victims.len() ==> #[trigger] is_draining(fleet, victims[i], count)
    &&& forall|i: int, j: int|
        0 <= i < victims.len() && 0 <= j < victims.len() ==> same_cohort_in_set(
            #[trigger] victims[i],
            #[trigger] victims[j],
        )
}

/// Whether a node of this name is out of the load balancer, in a cohort of one of the first `count`
/// sets.
pub open spec fn is_draining(fleet: Seq<FleetNode>, name: Seq<char>, count: int) -> bool {
    &&& node_cohort(name) is Some
    &&& node_cohort(name)->Some_0 / (DEMO_GROUPS_PER_SET as nat) < count
    &&& exists|k: int|
        0 <= k < fleet.len() && (#[trigger] fleet[k]).node@ == name && !fleet[k].in_load_balancer
}

/// Whether two nodes of the same set are of the same cohort.
pub open spec fn same_cohort_in_set(left: Seq<char>, right: Seq<char>) -> bool {
    let a = node_cohort(left)->Some_0;
    let b = node_cohort(right)->Some_0;
    a / (DEMO_GROUPS_PER_SET as nat) == b / (DEMO_GROUPS_PER_SET as nat) ==> a == b
}

proof fn lemma_draining_nodes(fleet: Seq<FleetNode>, cohort: nat)
    ensures
        forall|i: int|
            0 <= i < draining_nodes(fleet, cohort).len() ==> {
                let name = #[trigger] draining_nodes(fleet, cohort)[i];
                &&& node_cohort(name) == Some(cohort)
                &&& exists|k: int|
                    0 <= k < fleet.len() && (#[trigger] fleet[k]).node@ == name
                        && !fleet[k].in_load_balancer
            },
    decreases fleet.len(),
{
    if fleet.len() > 0 {
        let rest = fleet.drop_last();
        lemma_draining_nodes(rest, cohort);
        let names = draining_nodes(fleet, cohort);
        let earlier = draining_nodes(rest, cohort);
        assert forall|i: int| 0 <= i < names.len() implies {
            let name = #[trigger] names[i];
            &&& node_cohort(name) == Some(cohort)
            &&& exists|k: int|
                0 <= k < fleet.len() && (#[trigger] fleet[k]).node@ == name
                    && !fleet[k].in_load_balancer
        } by {
            if i < earlier.len() {
                assert(names[i] == earlier[i]);
                let k = choose|k: int|
                    0 <= k < rest.len() && (#[trigger] rest[k]).node@ == earlier[i]
                        && !rest[k].in_load_balancer;
                assert(fleet[k] == rest[k]);
            } else {
                assert(fleet[fleet.len() - 1].node@ == names[i]);
            }
        }
    }
}

proof fn lemma_draining_cohorts(fleet: Seq<FleetNode>, set: int, count: int)
    requires
        0 <= set,
        0 <= count <= DEMO_GROUPS_PER_SET,
    ensures
        forall|i: int|
            0 <= i < draining_cohorts(fleet, set, count).len() ==> set * DEMO_GROUPS_PER_SET
                <= #[trigger] draining_cohorts(fleet, set, count)[i] < (set + 1)
                * DEMO_GROUPS_PER_SET,
    decreases count,
{
    if count > 0 {
        lemma_draining_cohorts(fleet, set, count - 1);
        let all = draining_cohorts(fleet, set, count);
        let earlier = draining_cohorts(fleet, set, count - 1);
        assert forall|i: int| 0 <= i < all.len() implies set * DEMO_GROUPS_PER_SET
            <= #[trigger] all[i] < (set + 1) * DEMO_GROUPS_PER_SET by {
            if i < earlier.len() {
                assert(all[i] == earlier[i]);
            }
        }
    }
}

/// A disruption only kills pods that are already out of the load balancer, and in each set only
/// pods of one cohort: the rest of the set keeps serving.
pub proof fn disruptions_spare_every_set(fleet: Seq<FleetNode>, count: int, state: u64)
    requires
        0 <= count,
    ensures
        are_spared(fleet, drawn_victims(fleet, count, state).0, count),
    decreases count,
{
    if count > 0 {
        disruptions_spare_every_set(fleet, count - 1, state);
        let (earlier, drawn) = drawn_victims(fleet, count - 1, state);
        let cohorts = draining_cohorts(fleet, count - 1, DEMO_GROUPS_PER_SET as int);
        let victims = drawn_victims(fleet, count, state).0;
        lemma_draining_cohorts(fleet, count - 1, DEMO_GROUPS_PER_SET as int);
        if cohorts.len() > 0 {
            let next = splitmix_next(drawn);
            let pick = splitmix_mix(next) as int % cohorts.len() as int;
            assert(0 <= pick < cohorts.len()) by (nonlinear_arith)
                requires
                    pick == splitmix_mix(next) as int % cohorts.len() as int,
                    cohorts.len() > 0,
            ;
            let cohort = cohorts[pick] as nat;
            lemma_draining_nodes(fleet, cohort);
            let added = draining_nodes(fleet, cohort);
            assert(victims == earlier + added);
            assert forall|i: int| 0 <= i < victims.len() implies #[trigger] is_draining(
                fleet,
                victims[i],
                count,
            ) by {
                if i < earlier.len() {
                    assert(is_draining(fleet, earlier[i], count - 1));
                } else {
                    assert(victims[i] == added[i - earlier.len()]);
                }
            }
            assert forall|i: int, j: int|
                0 <= i < victims.len() && 0 <= j < victims.len() implies same_cohort_in_set(
                #[trigger] victims[i],
                #[trigger] victims[j],
            ) by {
                if i < earlier.len() {
                    assert(is_draining(fleet, earlier[i], count - 1));
                } else {
                    assert(victims[i] == added[i - earlier.len()]);
                }
                if j < earlier.len() {
                    assert(is_draining(fleet, earlier[j], count - 1));
                } else {
                    assert(victims[j] == added[j - earlier.len()]);
                }
            }
        } else {
            assert forall|i: int| 0 <= i < victims.len() implies #[trigger] is_draining(
                fleet,
                victims[i],
                count,
            ) by {
                assert(is_draining(fleet, earlier[i], count - 1));
            }
        }
    }
}

proof fn lemma_every_draining_node(fleet: Seq<FleetNode>, cohort: nat, index: int)
    requires
        0 <= index < fleet.len(),
        !fleet[index].in_load_balancer,
        node_cohort(fleet[index].node@) == Some(cohort),
    ensures
        draining_nodes(fleet, cohort).contains(fleet[index].node@),
    decreases fleet.len(),
{
    let before = fleet.drop_last();
    let all = draining_nodes(fleet, cohort);
    if index < before.len() {
        lemma_every_draining_node(before, cohort, index);
        let earlier = draining_nodes(before, cohort);
        let at = choose|at: int| 0 <= at < earlier.len() && earlier[at] == fleet[index].node@;
        assert(all[at] == fleet[index].node@);
    } else {
        assert(all[all.len() - 1] == fleet[index].node@);
    }
}

/// The draining nodes of a cohort are exactly its nodes that are out of the load balancer.
pub proof fn draining_nodes_are_out_of_the_load_balancer(
    fleet: Seq<FleetNode>,
    cohort: nat,
    name: Seq<char>,
)
    ensures
        draining_nodes(fleet, cohort).contains(name) <==> node_cohort(name) == Some(cohort) && (
        exists|k: int|
            0 <= k < fleet.len() && (#[trigger] fleet[k]).node@ == name
                && !fleet[k].in_load_balancer),
{
    let all = draining_nodes(fleet, cohort);
    lemma_draining_nodes(fleet, cohort);
    if all.contains(name) {
        let at = choose|at: int| 0 <= at < all.len() && all[at] == name;
        assert(node_cohort(all[at]) == Some(cohort));
    }
    if node_cohort(name) == Some(cohort) && exists|k: int|
        0 <= k < fleet.len() && (#[trigger] fleet[k]).node@ == name && !fleet[k].in_load_balancer {
        let k = choose|k: int|
            0 <= k < fleet.len() && (#[trigger] fleet[k]).node@ == name
                && !fleet[k].in_load_balancer;
        lemma_every_draining_node(fleet, cohort, k);
    }
}

proof fn lemma_every_draining_cohort(fleet: Seq<FleetNode>, set: int, count: int, cohort: int)
    requires
        0 <= set,
        0 <= count,
        set * DEMO_GROUPS_PER_SET <= cohort < set * DEMO_GROUPS_PER_SET + count,
        draining_nodes(fleet, cohort as nat).len() > 0,
    ensures
        draining_cohorts(fleet, set, count).len() > 0,
    decreases count,
{
    if cohort < set * DEMO_GROUPS_PER_SET + count - 1 {
        lemma_every_draining_cohort(fleet, set, count - 1, cohort);
    }
}

proof fn lemma_drawn_cohorts_drain(fleet: Seq<FleetNode>, set: int, count: int)
    ensures
        forall|i: int|
            0 <= i < draining_cohorts(fleet, set, count).len() ==> draining_nodes(
                fleet,
                #[trigger] draining_cohorts(fleet, set, count)[i] as nat,
            ).len() > 0,
    decreases count,
{
    if count > 0 {
        lemma_drawn_cohorts_drain(fleet, set, count - 1);
        let all = draining_cohorts(fleet, set, count);
        let earlier = draining_cohorts(fleet, set, count - 1);
        assert forall|i: int| 0 <= i < all.len() implies draining_nodes(
            fleet,
            #[trigger] all[i] as nat,
        ).len() > 0 by {
            if i < earlier.len() {
                assert(all[i] == earlier[i]);
            }
        }
    }
}

/// Every set with a node out of the load balancer loses pods.
pub proof fn every_draining_set_is_struck(
    fleet: Seq<FleetNode>,
    count: int,
    state: u64,
    index: int,
)
    requires
        0 <= count,
        0 <= index < fleet.len(),
        !fleet[index].in_load_balancer,
        node_cohort(fleet[index].node@) is Some,
        node_cohort(fleet[index].node@)->0 / (DEMO_GROUPS_PER_SET as nat) < count,
    ensures
        exists|i: int|
            0 <= i < drawn_victims(fleet, count, state).0.len() && node_cohort(
                #[trigger] drawn_victims(fleet, count, state).0[i],
            ) is Some && node_cohort(drawn_victims(fleet, count, state).0[i])->0 / (
            DEMO_GROUPS_PER_SET as nat) == node_cohort(fleet[index].node@)->0 / (
            DEMO_GROUPS_PER_SET as nat),
    decreases count,
{
    let cohort = node_cohort(fleet[index].node@)->0;
    let set = (cohort / (DEMO_GROUPS_PER_SET as nat)) as int;
    let all = drawn_victims(fleet, count, state).0;
    let (earlier, drawn) = drawn_victims(fleet, count - 1, state);
    if set < count - 1 {
        every_draining_set_is_struck(fleet, count - 1, state, index);
        let i = choose|i: int|
            0 <= i < earlier.len() && node_cohort(#[trigger] earlier[i]) is Some && node_cohort(
                earlier[i],
            )->0 / (DEMO_GROUPS_PER_SET as nat) == set;
        assert(all[i] == earlier[i]);
    } else {
        let size = DEMO_GROUPS_PER_SET as int;
        lemma_every_draining_node(fleet, cohort, index);
        assert(set * size <= cohort < set * size + size);
        lemma_every_draining_cohort(fleet, set, size, cohort as int);
        let cohorts = draining_cohorts(fleet, set, size);
        let next = splitmix_next(drawn);
        let pick = splitmix_mix(next) as int % cohorts.len() as int;
        assert(0 <= pick < cohorts.len()) by (nonlinear_arith)
            requires
                pick == splitmix_mix(next) as int % cohorts.len() as int,
                cohorts.len() > 0,
        ;
        lemma_draining_cohorts(fleet, set, size);
        lemma_drawn_cohorts_drain(fleet, set, size);
        let struck = cohorts[pick];
        let lost = draining_nodes(fleet, struck as nat);
        lemma_draining_nodes(fleet, struck as nat);
        assert(all == earlier + lost);
        assert(lost.len() > 0);
        assert(node_cohort(lost[0]) == Some(struck as nat));
        assert(all[earlier.len() as int] == lost[0]);
        assert(struck / size == set);
    }
}

/// A cohort that loses a pod loses every pod of it that is out of the load balancer.
pub proof fn a_struck_cohort_loses_all_its_draining_pods(
    fleet: Seq<FleetNode>,
    count: int,
    state: u64,
    victim: int,
    index: int,
)
    requires
        0 <= count,
        0 <= victim < drawn_victims(fleet, count, state).0.len(),
        0 <= index < fleet.len(),
        !fleet[index].in_load_balancer,
        node_cohort(fleet[index].node@) is Some,
        node_cohort(fleet[index].node@) == node_cohort(drawn_victims(fleet, count, state).0[victim]),
    ensures
        drawn_victims(fleet, count, state).0.contains(fleet[index].node@),
    decreases count,
{
    let all = drawn_victims(fleet, count, state).0;
    if count > 0 {
        let (earlier, drawn) = drawn_victims(fleet, count - 1, state);
        let cohorts = draining_cohorts(fleet, count - 1, DEMO_GROUPS_PER_SET as int);
        if victim < earlier.len() {
            assert(all[victim] == earlier[victim]);
            a_struck_cohort_loses_all_its_draining_pods(fleet, count - 1, state, victim, index);
            let at = choose|at: int| 0 <= at < earlier.len() && earlier[at] == fleet[index].node@;
            assert(all[at] == fleet[index].node@);
        } else {
            let next = splitmix_next(drawn);
            let struck = cohorts[splitmix_mix(next) as int % cohorts.len() as int];
            let lost = draining_nodes(fleet, struck as nat);
            lemma_draining_nodes(fleet, struck as nat);
            assert(all == earlier + lost);
            assert(all[victim] == lost[victim - earlier.len()]);
            lemma_every_draining_node(fleet, struck as nat, index);
            let at = choose|at: int| 0 <= at < lost.len() && lost[at] == fleet[index].node@;
            assert(all[earlier.len() + at] == fleet[index].node@);
        }
    }
}

} // verus!
