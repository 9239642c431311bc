//! The faults a soak round injects, and the schedule that draws them.

use crate::random::{splitmix64};
use crate::random::{splitmix_mix, splitmix_next};
use vstd::prelude::*;

verus! {

/// A bounded Chaos Mesh fault.
#[derive(Clone, Copy, Debug, PartialEq, Eq, Structural)]
pub enum FaultKind {
    NetworkPartition,
    IoError,
    AgentKill,
    ControllerKill,
}

/// How a fault is named in metrics and which Chaos Mesh resource carries it.
pub struct FaultDescriptor {
    pub metric_name: &'static str,
    pub resource_kind: &'static str,
    pub resource_plural: &'static str,
}

/// Every fault, in declaration order.
pub open spec fn every_fault() -> Seq<FaultKind> {
    seq![
        FaultKind::NetworkPartition,
        FaultKind::IoError,
        FaultKind::AgentKill,
        FaultKind::ControllerKill,
    ]
}

/// The name of a fault in metric labels.
pub open spec fn fault_metric_name(kind: FaultKind) -> Seq<char> {
    match kind {
        FaultKind::NetworkPartition => "network_partition"@,
        FaultKind::IoError => "io_error"@,
        FaultKind::AgentKill => "agent_kill"@,
        FaultKind::ControllerKill => "controller_kill"@,
    }
}

/// The kind and plural of the Chaos Mesh resource that carries a fault.
pub open spec fn fault_resource(kind: FaultKind) -> (Seq<char>, Seq<char>) {
    match kind {
        FaultKind::NetworkPartition => ("NetworkChaos"@, "networkchaos"@),
        FaultKind::IoError => ("IOChaos"@, "iochaos"@),
        FaultKind::AgentKill => ("PodChaos"@, "podchaos"@),
        FaultKind::ControllerKill => ("PodChaos"@, "podchaos"@),
    }
}

impl FaultKind {
    /// Every fault, in declaration order.
    pub fn all() -> (result: Vec<FaultKind>)
        ensures
            result@ == every_fault(),
    {
        let mut result: Vec<FaultKind> = Vec::new();
        result.push(FaultKind::NetworkPartition);
        result.push(FaultKind::IoError);
        result.push(FaultKind::AgentKill);
        result.push(FaultKind::ControllerKill);
        result
    }

    /// How the fault is named and carried.
    pub fn descriptor(self) -> (result: FaultDescriptor)
        ensures
            result.metric_name@ == fault_metric_name(self),
            (result.resource_kind@, result.resource_plural@) == fault_resource(self),
    {
        match self {
            FaultKind::NetworkPartition => FaultDescriptor {
                metric_name: "network_partition",
                resource_kind: "NetworkChaos",
                resource_plural: "networkchaos",
            },
            FaultKind::IoError => FaultDescriptor {
                metric_name: "io_error",
                resource_kind: "IOChaos",
                resource_plural: "iochaos",
            },
            FaultKind::AgentKill => FaultDescriptor {
                metric_name: "agent_kill",
                resource_kind: "PodChaos",
                resource_plural: "podchaos",
            },
            FaultKind::ControllerKill => FaultDescriptor {
                metric_name: "controller_kill",
                resource_kind: "PodChaos",
                resource_plural: "podchaos",
            },
        }
    }
}

/// `items` with the elements at two positions exchanged.
pub open spec fn exchanged<T>(items: Seq<T>, left: int, right: int) -> Seq<T> {
    items.update(left, items[right]).update(right, items[left])
}

/// The elements of `items` after the draws that place positions `last` down to 1, and the
/// generator's state after them. Each position receives one of the elements up to it.
pub open spec fn shuffled<T>(items: Seq<T>, last: int, state: u64) -> (Seq<T>, u64)
    decreases last,
{
    if last <= 0 {
        (items, state)
    } else {
        let next = splitmix_next(state);
        let selected = splitmix_mix(next) as int % (last + 1);
        shuffled(exchanged(items, last, selected), last - 1, next)
    }
}

/// Shuffles `items` in place, drawing from `state`.
pub fn shuffle<T: Copy>(items: &mut Vec<T>, state: &mut u64)
    ensures
        (final(items)@, *final(state)) == shuffled(old(items)@, old(items)@.len() - 1, *old(state)),
{
    if items.len() == 0 {
        return;
    }
    let ghost goal = shuffled(old(items)@, old(items)@.len() - 1, *old(state));
    let size: usize = items.len();
    let mut index: usize = size - 1;
    while index > 0
        invariant
            index < size,
            size == items@.len(),
            shuffled(items@, index as int, *state) == goal,
        decreases index,
    {
        let drawn: u64 = splitmix64(state);
        let selected: usize = (drawn % ((index + 1) as u64)) as usize;
        let moved = items[index];
        let other = items[selected];
        items.set(index, other);
        items.set(selected, moved);
        index = index - 1;
    }
}

/// Shuffling keeps the length, keeps elements distinct, and brings in no new element.
pub proof fn lemma_shuffle_permutes<T>(items: Seq<T>, last: int, state: u64)
    requires
        last < items.len(),
        items.no_duplicates(),
    ensures
        shuffled(items, last, state).0.len() == items.len(),
        shuffled(items, last, state).0.no_duplicates(),
        forall|i: int|
            0 <= i < items.len() ==> items.contains(#[trigger] shuffled(items, last, state).0[i]),
    decreases last,
{
    if last > 0 {
        let next = splitmix_next(state);
        let selected = splitmix_mix(next) as int % (last + 1);
        let moved = exchanged(items, last, selected);
        assert(moved.no_duplicates());
        lemma_shuffle_permutes(moved, last - 1, next);
        let result = shuffled(items, last, state).0;
        assert forall|i: int| 0 <= i < items.len() implies items.contains(#[trigger] result[i]) by {
            assert(moved.contains(result[i]));
            let at = choose|k: int| 0 <= k < moved.len() && moved[k] == result[i];
            let from = if at == last {
                selected
            } else if at == selected {
                last
            } else {
                at
            };
            assert(items[from] == result[i]);
        }
    }
}

/// The multiplier that spreads fault cycles over the generator's states.
pub const FAULT_CYCLE_SPREAD: u64 = 0xD6E8_FEB8_6659_FD93;

/// The order in which a cycle of four rounds takes the faults.
pub open spec fn fault_order(seed: u64, cycle: u64) -> Seq<FaultKind> {
    shuffled(every_fault(), 3, seed ^ cycle.wrapping_mul(FAULT_CYCLE_SPREAD)).0
}

/// The fault of a round: the rounds, counted from 1, run through cycles of four.
pub open spec fn scheduled_fault(seed: u64, round: u64) -> FaultKind {
    fault_order(seed, ((round - 1) / 4) as u64)[(round - 1) % 4]
}

/// The fault of round `round`, counted from 1.
pub fn fault_for_round(seed: u64, round: u64) -> (result: FaultKind)
    requires
        round > 0,
    ensures
        result == scheduled_fault(seed, round),
{
    let cycle: u64 = (round - 1) / 4;
    let offset: usize = ((round - 1) % 4) as usize;
    let mut state: u64 = seed ^ cycle.wrapping_mul(FAULT_CYCLE_SPREAD);
    let mut faults = FaultKind::all();
    proof {
        lemma_shuffle_permutes(every_fault(), 3, state);
    }
    shuffle(&mut faults, &mut state);
    faults[offset]
}

/// One if round `round` injects `kind`, zero otherwise.
pub open spec fn injections(seed: u64, round: u64, kind: FaultKind) -> int {
    if scheduled_fault(seed, round) == kind {
        1
    } else {
        0
    }
}

proof fn lemma_place_in_cycle(seed: u64, cycle: u64, offset: int)
    requires
        cycle * 4 + 4 <= u64::MAX,
        0 <= offset < 4,
    ensures
        scheduled_fault(seed, (cycle * 4 + offset + 1) as u64) == fault_order(seed, cycle)[offset],
{
    let round = (cycle * 4 + offset + 1) as u64;
    assert((round - 1) / 4 == cycle);
    assert((round - 1) % 4 == offset);
}

/// The four rounds of a cycle inject every fault exactly once, whatever the seed.
pub proof fn every_cycle_covers_every_fault_once(seed: u64, cycle: u64, kind: FaultKind)
    requires
        cycle * 4 + 4 <= u64::MAX,
    ensures
        injections(seed, (cycle * 4 + 1) as u64, kind) + injections(
            seed,
            (cycle * 4 + 2) as u64,
            kind,
        ) + injections(seed, (cycle * 4 + 3) as u64, kind) + injections(
            seed,
            (cycle * 4 + 4) as u64,
            kind,
        ) == 1,
{
    let order = fault_order(seed, cycle);
    lemma_shuffle_permutes(every_fault(), 3, seed ^ cycle.wrapping_mul(FAULT_CYCLE_SPREAD));
    lemma_place_in_cycle(seed, cycle, 0);
    lemma_place_in_cycle(seed, cycle, 1);
    lemma_place_in_cycle(seed, cycle, 2);
    lemma_place_in_cycle(seed, cycle, 3);
    assert(order[0] != order[1] && order[0] != order[2] && order[0] != order[3]);
    assert(order[1] != order[2] && order[1] != order[3] && order[2] != order[3]);
}

/// The distinct Chaos Mesh resources that carry faults, in name order.
pub open spec fn fault_resources() -> Seq<(Seq<char>, Seq<char>)> {
    seq![
        ("IOChaos"@, "iochaos"@),
        ("NetworkChaos"@, "networkchaos"@),
        ("PodChaos"@, "podchaos"@),
    ]
}

/// Cleanup walks every resource a fault can be carried by, each once.
pub proof fn cleanup_reaches_every_fault(kind: FaultKind)
    ensures
        fault_resources().contains(fault_resource(kind)),
        fault_resources().no_duplicates(),
{
    reveal_strlit("IOChaos");
    reveal_strlit("NetworkChaos");
    reveal_strlit("PodChaos");
    let all = fault_resources();
    assert(all[0] == fault_resource(FaultKind::IoError));
    assert(all[1] == fault_resource(FaultKind::NetworkPartition));
    assert(all[2] == fault_resource(FaultKind::AgentKill));
    assert(all[0].0[0] != all[1].0[0]);
    assert(all[0].0[0] != all[2].0[0]);
    assert(all[1].0[0] != all[2].0[0]);
}

/// The distinct resources to clean up, as kind and plural.
pub fn cleanup_resources() -> (result: Vec<(&'static str, &'static str)>)
    ensures
        result@.len() == fault_resources().len(),
        forall|i: int|
            0 <= i < result@.len() ==> (result@[i].0@, #[trigger] result@[i].1@)
                == fault_resources()[i],
{
    let mut result: Vec<(&'static str, &'static str)> = Vec::new();
    let io = FaultKind::IoError.descriptor();
    result.push((io.resource_kind, io.resource_plural));
    let network = FaultKind::NetworkPartition.descriptor();
    result.push((network.resource_kind, network.resource_plural));
    let pod = FaultKind::AgentKill.descriptor();
    result.push((pod.resource_kind, pod.resource_plural));
    result
}

} // verus!
