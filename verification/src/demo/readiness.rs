//! Load-balancer membership, as a watch on pod readiness reports it.

use crate::demo::layout::{
    node_set, node_set_index, LOAD_STEADY_GRACE_NANOS, READINESS_WATCH_STALE_NANOS,
};
use crate::text::{add_text, same, views, with_text};
use vstd::prelude::*;

verus! {

/// Whether a node was last seen ready.
pub struct NodeReadiness {
    pub node: String,
    pub ready: bool,
}

/// What was last seen of a node, if anything was.
pub open spec fn readiness_of(seen: Seq<NodeReadiness>, node: Seq<char>) -> Option<bool>
    decreases seen.len(),
{
    if seen.len() == 0 {
        None
    } else if seen.last().node@ == node {
        Some(seen.last().ready)
    } else {
        readiness_of(seen.drop_last(), node)
    }
}

/// Whether no node is listed twice.
pub open spec fn lists_once(seen: Seq<NodeReadiness>) -> bool {
    forall|i: int, j: int|
        0 <= i < j < seen.len() ==> (#[trigger] seen[i]).node@ != (#[trigger] seen[j]).node@
}

/// What was last seen of a node, if anything was.
pub fn look_up(seen: &Vec<NodeReadiness>, node: &str) -> (result: Option<bool>)
    ensures
        result == readiness_of(seen@, node@),
{
    let mut index: usize = seen.len();
    assert(seen@.take(seen@.len() as int) =~= seen@);
    while index > 0
        invariant
            index <= seen.len(),
            readiness_of(seen@.take(index as int), node@) == readiness_of(seen@, node@),
        decreases index,
    {
        let ghost first = seen@.take(index as int);
        assert(first.last() == seen@[index - 1]);
        assert(first.drop_last() =~= seen@.take(index - 1));
        if same(seen[index - 1].node.as_str(), node) {
            return Some(seen[index - 1].ready);
        }
        index = index - 1;
    }
    None
}

proof fn lemma_listed(seen: Seq<NodeReadiness>, node: Seq<char>)
    ensures
        readiness_of(seen, node) is Some <==> exists|i: int|
            0 <= i < seen.len() && (#[trigger] seen[i]).node@ == node,
        lists_once(seen) ==> forall|i: int|
            0 <= i < seen.len() && (#[trigger] seen[i]).node@ == node ==> readiness_of(seen, node)
                == Some(seen[i].ready),
    decreases seen.len(),
{
    if seen.len() > 0 {
        let before = seen.drop_last();
        lemma_listed(before, node);
        if seen.last().node@ == node {
            assert(seen[seen.len() - 1].node@ == node);
        } else if readiness_of(before, node) is Some {
            let i = choose|i: int| 0 <= i < before.len() && (#[trigger] before[i]).node@ == node;
            assert(seen[i].node@ == node);
        }
        if exists|i: int| 0 <= i < seen.len() && (#[trigger] seen[i]).node@ == node {
            let i = choose|i: int| 0 <= i < seen.len() && (#[trigger] seen[i]).node@ == node;
            if i < before.len() {
                assert(before[i].node@ == node);
            }
        }
        if lists_once(seen) {
            assert(lists_once(before)) by {
                assert forall|i: int, j: int| 0 <= i < j < before.len() implies (
                #[trigger] before[i]).node@ != (#[trigger] before[j]).node@ by {
                    assert(seen[i].node@ != seen[j].node@);
                }
            }
            assert forall|i: int|
                0 <= i < seen.len() && (#[trigger] seen[i]).node@ == node implies readiness_of(
                seen,
                node,
            ) == Some(seen[i].ready) by {
                if i < before.len() {
                    assert(before[i] == seen[i]);
                    assert(seen[i].node@ != seen[seen.len() - 1].node@);
                }
            }
        }
    }
}

fn set_readiness(seen: &mut Vec<NodeReadiness>, node: &str, ready: bool)
    requires
        lists_once(old(seen)@),
    ensures
        lists_once(final(seen)@),
        forall|other: Seq<char>|
            #[trigger] readiness_of(final(seen)@, other) == (if other == node@ {
                Some(ready)
            } else {
                readiness_of(old(seen)@, other)
            }),
{
    let ghost before = seen@;
    let size: usize = seen.len();
    let mut index: usize = 0;
    while index < size && !same(seen[index].node.as_str(), node)
        invariant
            index <= size,
            size == seen@.len(),
            seen@ == before,
            forall|i: int| 0 <= i < index ==> (#[trigger] seen@[i]).node@ != node@,
        decreases size - index,
    {
        index = index + 1;
    }
    if index < size {
        let name = seen[index].node.clone();
        seen.set(index, NodeReadiness { node: name, ready });
        proof {
            let after = seen@;
            assert forall|i: int, j: int| 0 <= i < j < after.len() implies (
            #[trigger] after[i]).node@ != (#[trigger] after[j]).node@ by {
                assert(before[i].node@ != before[j].node@);
            }
            assert forall|other: Seq<char>| #[trigger] readiness_of(after, other) == (if other
                == node@ {
                Some(ready)
            } else {
                readiness_of(before, other)
            }) by {
                lemma_listed(after, other);
                lemma_listed(before, other);
                if other == node@ {
                    assert(after[index as int].node@ == other);
                } else if readiness_of(before, other) is Some {
                    let i = choose|i: int|
                        0 <= i < before.len() && (#[trigger] before[i]).node@ == other;
                    assert(after[i] == before[i]);
                    assert(after[i].node@ == other);
                } else if readiness_of(after, other) is Some {
                    let i = choose|i: int|
                        0 <= i < after.len() && (#[trigger] after[i]).node@ == other;
                    assert(before[i].node@ == other);
                }
            }
        }
    } else {
        let entry = NodeReadiness { node: node.to_owned(), ready };
        seen.push(entry);
        proof {
            let after = seen@;
            assert forall|i: int, j: int| 0 <= i < j < after.len() implies (
            #[trigger] after[i]).node@ != (#[trigger] after[j]).node@ by {
                if j < before.len() {
                    assert(before[i].node@ != before[j].node@);
                } else {
                    assert(before[i].node@ != node@);
                }
            }
            assert forall|other: Seq<char>| #[trigger] readiness_of(after, other) == (if other
                == node@ {
                Some(ready)
            } else {
                readiness_of(before, other)
            }) by {
                assert(after.drop_last() =~= before);
            }
        }
    }
}

/// One thing that a watch on pods reports.
pub enum WatchEvent {
    /// A listing of all pods begins.
    ListBegins,
    /// A pod of the listing, and whether it is ready.
    Listed(String, bool),
    /// The listing is complete.
    ListEnds,
    /// A pod changed, and whether it is ready now.
    Changed(String, bool),
    /// A pod is gone.
    Gone(String),
}

/// Load-balancer membership, kept current by a watch.
pub struct ReadinessWatch {
    pub readiness: Vec<NodeReadiness>,
    /// The nodes seen leaving the load balancer in this generation.
    pub left: Vec<String>,
    /// The listing under way.
    pub listing: Option<Vec<NodeReadiness>>,
    /// When the watch last reported anything, in nanoseconds.
    pub fresh_at: u64,
}

/// Whether no node is listed twice, neither in the membership nor in a listing under way.
pub open spec fn watch_wf(watch: ReadinessWatch) -> bool {
    lists_once(watch.readiness@) && match watch.listing {
        Some(listing) => lists_once(listing@),
        None => true,
    }
}

/// Whether `after` is `before` with what was seen of one node changed.
pub open spec fn is_changed(
    before: Seq<NodeReadiness>,
    after: Seq<NodeReadiness>,
    node: Seq<char>,
    ready: bool,
) -> bool {
    forall|other: Seq<char>|
        #[trigger] readiness_of(after, other) == (if other == node {
            Some(ready)
        } else {
            readiness_of(before, other)
        })
}

/// Whether `after` is what an event makes of a watch.
pub open spec fn is_observed(
    before: ReadinessWatch,
    after: ReadinessWatch,
    event: WatchEvent,
) -> bool {
    match event {
        WatchEvent::ListBegins => {
            &&& after.readiness == before.readiness
            &&& after.left == before.left
            &&& after.listing is Some
            &&& after.listing->Some_0@.len() == 0
        },
        WatchEvent::Listed(node, ready) => {
            &&& after.readiness == before.readiness
            &&& after.left == before.left
            &&& match before.listing {
                Some(listing) => after.listing is Some && is_changed(
                    listing@,
                    after.listing->Some_0@,
                    node@,
                    ready,
                ),
                None => after.listing is None,
            }
        },
        WatchEvent::ListEnds => {
            &&& after.left == before.left
            &&& after.listing is None
            &&& match before.listing {
                Some(listing) => after.readiness == listing,
                None => after.readiness == before.readiness,
            }
        },
        WatchEvent::Changed(node, ready) => {
            &&& is_changed(before.readiness@, after.readiness@, node@, ready)
            &&& after.listing == before.listing
            &&& views(after.left@) == (if ready {
                views(before.left@)
            } else {
                with_text(views(before.left@), node@)
            })
        },
        WatchEvent::Gone(node) => {
            &&& is_changed(before.readiness@, after.readiness@, node@, false)
            &&& after.listing == before.listing
            &&& after.left == before.left
        },
    }
}

impl ReadinessWatch {
    /// A watch that has seen nothing.
    pub fn new(now: u64) -> (result: ReadinessWatch)
        ensures
            watch_wf(result),
            result.readiness@.len() == 0,
            result.left@.len() == 0,
            result.listing is None,
            result.fresh_at == now,
    {
        ReadinessWatch { readiness: Vec::new(), left: Vec::new(), listing: None, fresh_at: now }
    }

    /// Takes in one event at time `now`. A listing replaces the membership as a whole when it is
    /// complete, and is no evidence that a node left the load balancer; only a change is.
    pub fn observe(&mut self, event: WatchEvent, now: u64)
        requires
            watch_wf(*old(self)),
        ensures
            watch_wf(*final(self)),
            is_observed(*old(self), *final(self), event),
            final(self).fresh_at == now,
    {
        self.fresh_at = now;
        match event {
            WatchEvent::ListBegins => {
                self.listing = Some(Vec::new());
            },
            WatchEvent::Listed(node, ready) => {
                let taken = self.listing.take();
                self.listing = match taken {
                    Some(listing) => {
                        let mut listing = listing;
                        set_readiness(&mut listing, node.as_str(), ready);
                        Some(listing)
                    },
                    None => None,
                };
            },
            WatchEvent::ListEnds => {
                let taken = self.listing.take();
                if let Some(listing) = taken {
                    self.readiness = listing;
                }
            },
            WatchEvent::Changed(node, ready) => {
                set_readiness(&mut self.readiness, node.as_str(), ready);
                if !ready {
                    add_text(&mut self.left, node.as_str());
                }
            },
            WatchEvent::Gone(node) => {
                set_readiness(&mut self.readiness, node.as_str(), false);
            },
        }
    }

    /// Forgets a listing that the connection did not complete.
    pub fn reconnect(&mut self)
        requires
            watch_wf(*old(self)),
        ensures
            watch_wf(*final(self)),
            final(self).readiness == old(self).readiness,
            final(self).left == old(self).left,
            final(self).fresh_at == old(self).fresh_at,
            final(self).listing is None,
    {
        self.listing = None;
    }

    /// Forgets which nodes left the load balancer, as a generation begins.
    pub fn begin_generation(&mut self)
        requires
            watch_wf(*old(self)),
        ensures
            watch_wf(*final(self)),
            final(self).left@.len() == 0,
            final(self).readiness == old(self).readiness,
            final(self).listing == old(self).listing,
            final(self).fresh_at == old(self).fresh_at,
    {
        self.left = Vec::new();
    }

    /// Whether the watch has been silent for too long to be trusted.
    pub fn is_stale(&self, now: u64) -> (result: bool)
        ensures
            result == (now - self.fresh_at > READINESS_WATCH_STALE_NANOS),
    {
        now > self.fresh_at && now - self.fresh_at > READINESS_WATCH_STALE_NANOS
    }

    /// The nodes that may receive traffic: those seen ready, or none if the watch is stale.
    pub fn ready_endpoints(&self, now: u64) -> (result: Vec<String>)
        requires
            watch_wf(*self),
        ensures
            now - self.fresh_at > READINESS_WATCH_STALE_NANOS ==> result@.len() == 0,
            now - self.fresh_at <= READINESS_WATCH_STALE_NANOS ==> forall|node: Seq<char>|
                #[trigger] views(result@).contains(node) <==> readiness_of(self.readiness@, node)
                    == Some(true),
            views(result@).no_duplicates(),
    {
        let mut result: Vec<String> = Vec::new();
        if self.is_stale(now) {
            return result;
        }
        let mut index: usize = 0;
        while index < self.readiness.len()
            invariant
                index <= self.readiness.len(),
                watch_wf(*self),
                views(result@).no_duplicates(),
                forall|k: int|
                    0 <= k < result@.len() ==> is_listed_ready(
                        self.readiness@,
                        index as int,
                        #[trigger] views(result@)[k],
                    ),
                forall|i: int|
                    0 <= i < index && (#[trigger] self.readiness@[i]).ready ==> views(
                        result@,
                    ).contains(self.readiness@[i].node@),
            decreases self.readiness.len() - index,
        {
            let ghost before = result@;
            let ghost all = self.readiness@;
            proof {
                assert forall|k: int| 0 <= k < before.len() implies is_listed_ready(
                    all,
                    index + 1,
                    #[trigger] views(before)[k],
                ) by {
                    assert(is_listed_ready(all, index as int, views(before)[k]));
                }
            }
            if self.readiness[index].ready {
                let name = self.readiness[index].node.clone();
                result.push(name);
                proof {
                    assert(views(result@) =~= views(before).push(name@));
                    assert forall|k: int| 0 <= k < before.len() implies #[trigger] views(before)[k]
                        != name@ by {
                        assert(is_listed_ready(all, index as int, views(before)[k]));
                        let i = choose|i: int|
                            0 <= i < index && (#[trigger] all[i]).ready && all[i].node@ == views(
                                before,
                            )[k];
                        assert(all[i].node@ != all[index as int].node@);
                    }
                    assert(all[index as int].ready);
                    assert(is_listed_ready(all, index + 1, name@));
                    assert forall|i: int| 0 <= i < index + 1 && (#[trigger] all[i]).ready implies views(
                        result@,
                    ).contains(all[i].node@) by {
                        if i < index {
                            let text = all[i].node@;
                            let k = choose|k: int|
                                0 <= k < views(before).len() && views(before)[k] == text;
                            assert(views(result@)[k] == text);
                        } else {
                            assert(views(result@)[before.len() as int] == name@);
                        }
                    }
                }
            }
            index = index + 1;
        }
        proof {
            let all = self.readiness@;
            assert forall|node: Seq<char>| #[trigger]
                views(result@).contains(node) <==> readiness_of(all, node) == Some(true) by {
                lemma_listed(all, node);
                if views(result@).contains(node) {
                    let k = choose|k: int|
                        0 <= k < views(result@).len() && views(result@)[k] == node;
                    assert(is_listed_ready(all, all.len() as int, views(result@)[k]));
                }
                if readiness_of(all, node) == Some(true) {
                    let i = choose|i: int| 0 <= i < all.len() && (#[trigger] all[i]).node@ == node;
                    assert(all[i].ready);
                }
            }
        }
        result
    }
}

/// Whether one of the first `count` entries lists the node as ready.
pub open spec fn is_listed_ready(seen: Seq<NodeReadiness>, count: int, node: Seq<char>) -> bool {
    exists|i: int| 0 <= i < count && (#[trigger] seen[i]).ready && seen[i].node@ == node
}

/// A listing never counts as evidence that a node left the load balancer.
pub proof fn a_listing_forges_no_departure(
    before: ReadinessWatch,
    after: ReadinessWatch,
    event: WatchEvent,
)
    requires
        is_observed(before, after, event),
        !(event is Changed),
    ensures
        after.left == before.left,
{
}

/// A departure stays on record until the next generation begins.
pub proof fn departures_stay_on_record(
    before: ReadinessWatch,
    after: ReadinessWatch,
    event: WatchEvent,
    node: Seq<char>,
)
    requires
        is_observed(before, after, event),
        views(before.left@).contains(node),
    ensures
        views(after.left@).contains(node),
{
    if let WatchEvent::Changed(changed, ready) = event {
        if !ready && !views(before.left@).contains(changed@) {
            let at = choose|k: int|
                0 <= k < views(before.left@).len() && views(before.left@)[k] == node;
            assert(views(before.left@).push(changed@)[at] == node);
        }
    }
}

/// One condition that a pod reports.
pub struct PodCondition {
    pub kind: String,
    pub status: String,
}

/// Whether a condition says that the pod is ready.
pub open spec fn says_ready(condition: PodCondition) -> bool {
    condition.kind@ == "Ready"@ && condition.status@ == "True"@
}

/// Whether one of the conditions says that the pod is ready.
pub open spec fn reports_ready(conditions: Seq<PodCondition>) -> bool {
    exists|i: int| 0 <= i < conditions.len() && says_ready(#[trigger] conditions[i])
}

/// Whether a pod reports that it is ready. One that reports nothing is not.
pub fn pod_ready(conditions: &Option<Vec<PodCondition>>) -> (result: bool)
    ensures
        result == match *conditions {
            Some(list) => reports_ready(list@),
            None => false,
        },
{
    match conditions {
        None => false,
        Some(list) => {
            let mut index: usize = 0;
            while index < list.len()
                invariant
                    index <= list.len(),
                    *conditions == Some(*list),
                    forall|i: int| 0 <= i < index ==> !says_ready(#[trigger] list@[i]),
                decreases list.len() - index,
            {
                if same(list[index].kind.as_str(), "Ready") && same(
                    list[index].status.as_str(),
                    "True",
                ) {
                    assert(says_ready(list@[index as int]));
                    assert(reports_ready(list@));
                    return true;
                }
                index = index + 1;
            }
            false
        },
    }
}

// ----- when a set's load starts to count -----

/// The warm-up of one set: since when its pool has been full, in nanoseconds, and whether its load
/// counts.
#[derive(Clone, Copy)]
pub struct SetWarmup {
    pub full_since: Option<u64>,
    pub counting: bool,
}

/// The warm-up after a look at the set's pool at `now`: load counts from when the pool
/// has been full for the grace period, and from then on for good.
pub open spec fn warmed(warmup: SetWarmup, endpoints: nat, now: u64) -> SetWarmup {
    if endpoints >= pool_size() {
        let since = match warmup.full_since {
            Some(since) => since,
            None => now,
        };
        SetWarmup {
            full_since: Some(since),
            counting: warmup.counting || now - since >= LOAD_STEADY_GRACE_NANOS,
        }
    } else {
        SetWarmup { full_since: None, counting: warmup.counting }
    }
}

/// The pods of a full set.
pub open spec fn pool_size() -> nat {
    (crate::demo::layout::DEMO_GROUPS_PER_SET * crate::demo::layout::DEMO_COHORT_SIZE) as nat
}

impl SetWarmup {
    /// Looks at the set's pool at `now`.
    pub fn look(&mut self, endpoints: usize, now: u64)
        ensures
            *final(self) == warmed(*old(self), endpoints as nat, now),
    {
        if endpoints >= crate::demo::layout::DEMO_GROUPS_PER_SET
            * crate::demo::layout::DEMO_COHORT_SIZE {
            let since: u64 = match self.full_since {
                Some(since) => since,
                None => now,
            };
            self.full_since = Some(since);
            if now >= since && now - since >= LOAD_STEADY_GRACE_NANOS {
                self.counting = true;
            }
        } else {
            self.full_since = None;
        }
    }
}

/// A set that counts load goes on counting it.
pub proof fn counting_never_stops(warmup: SetWarmup, endpoints: nat, now: u64)
    requires
        warmup.counting,
    ensures
        warmed(warmup, endpoints, now).counting,
{
}

/// The nodes of one set among some nodes, in order.
pub open spec fn of_set(nodes: Seq<Seq<char>>, set: nat) -> Seq<Seq<char>>
    decreases nodes.len(),
{
    if nodes.len() == 0 {
        Seq::empty()
    } else if node_set(nodes.last()) == Some(set) {
        of_set(nodes.drop_last(), set).push(nodes.last())
    } else {
        of_set(nodes.drop_last(), set)
    }
}

/// The nodes of one set among some nodes, in order.
pub fn endpoints_of_set(nodes: &Vec<String>, set: usize) -> (result: Vec<String>)
    ensures
        views(result@) == of_set(views(nodes@), set as nat),
{
    let mut result: Vec<String> = Vec::new();
    let mut index: usize = 0;
    let ghost all = views(nodes@);
    while index < nodes.len()
        invariant
            index <= nodes.len(),
            all == views(nodes@),
            views(result@) == of_set(all.take(index as int), set as nat),
        decreases nodes.len() - index,
    {
        let ghost before = result@;
        assert(all.take(index + 1).drop_last() =~= all.take(index as int));
        let belongs = match node_set_index(nodes[index].as_str()) {
            Some(other) => other == set,
            None => false,
        };
        if belongs {
            let name = nodes[index].clone();
            result.push(name);
            assert(views(result@) =~= views(before).push(name@));
        }
        index = index + 1;
    }
    assert(all.take(nodes.len() as int) =~= all);
    result
}

// ----- what the watch shows -----

/// A node has left the load balancer exactly where it had left before, or a change shows it as not
/// ready: neither a listing nor the end of a pod shows that it left.
pub proof fn a_departure_is_a_change_to_not_ready(
    before: ReadinessWatch,
    after: ReadinessWatch,
    event: WatchEvent,
    node: Seq<char>,
)
    requires
        is_observed(before, after, event),
    ensures
        views(after.left@).contains(node) <==> views(before.left@).contains(node) || (event matches
            WatchEvent::Changed(changed, ready) && changed@ == node && !ready),
{
    match event {
        WatchEvent::Changed(changed, ready) => {
            crate::text::appending_adds_one_text(views(before.left@), changed@, node);
        },
        _ => {},
    }
}

/// A change is the last word on its node and on no other; a pod that is gone is not ready; a listing
/// counts once it is complete, and then as a whole.
pub proof fn the_last_word_counts(
    before: ReadinessWatch,
    after: ReadinessWatch,
    event: WatchEvent,
    node: Seq<char>,
)
    requires
        is_observed(before, after, event),
    ensures
        match event {
            WatchEvent::Changed(changed, ready) => readiness_of(after.readiness@, node) == (
            if node == changed@ {
                Some(ready)
            } else {
                readiness_of(before.readiness@, node)
            }),
            WatchEvent::Gone(gone) => readiness_of(after.readiness@, node) == (if node == gone@ {
                Some(false)
            } else {
                readiness_of(before.readiness@, node)
            }),
            WatchEvent::ListBegins => readiness_of(after.readiness@, node) == readiness_of(
                before.readiness@,
                node,
            ) && after.listing is Some && readiness_of(after.listing->Some_0@, node) is None,
            WatchEvent::Listed(listed, ready) => readiness_of(after.readiness@, node)
                == readiness_of(before.readiness@, node) && (before.listing is Some ==> (
            after.listing is Some && readiness_of(after.listing->Some_0@, node) == (if node
                == listed@ {
                Some(ready)
            } else {
                readiness_of(before.listing->Some_0@, node)
            }))),
            WatchEvent::ListEnds => readiness_of(after.readiness@, node) == (
            if before.listing is Some {
                readiness_of(before.listing->Some_0@, node)
            } else {
                readiness_of(before.readiness@, node)
            }),
        },
{
}

/// Where no node is listed twice, what was last seen of a node is what its entry says.
pub proof fn readiness_is_what_the_entry_says(seen: Seq<NodeReadiness>, node: Seq<char>, index: int)
    requires
        lists_once(seen),
        0 <= index < seen.len(),
    ensures
        readiness_of(seen, seen[index].node@) == Some(seen[index].ready),
        readiness_of(seen, node) is None <==> (forall|i: int|
            0 <= i < seen.len() ==> (#[trigger] seen[i]).node@ != node),
{
    lemma_listed(seen, seen[index].node@);
    lemma_listed(seen, node);
}

/// A pod is ready exactly where one of its conditions is `Ready` with the status `True`; one with any
/// other status does not count.
pub proof fn readiness_is_a_true_condition(conditions: Seq<PodCondition>)
    ensures
        reports_ready(conditions) <==> exists|i: int|
            0 <= i < conditions.len() && (#[trigger] conditions[i]).kind@ == "Ready"@
                && conditions[i].status@ == "True"@,
{
    if reports_ready(conditions) {
        let at = choose|i: int| 0 <= i < conditions.len() && says_ready(#[trigger] conditions[i]);
        assert(conditions[at].kind@ == "Ready"@);
    }
    if exists|i: int|
        0 <= i < conditions.len() && (#[trigger] conditions[i]).kind@ == "Ready"@
            && conditions[i].status@ == "True"@ {
        let at = choose|i: int|
            0 <= i < conditions.len() && (#[trigger] conditions[i]).kind@ == "Ready"@
                && conditions[i].status@ == "True"@;
        assert(says_ready(conditions[at]));
    }
}

/// Load counts once a pool has been full for the whole grace period without a break. A pool that is not
/// full starts its grace period over, and stops nothing that counts already.
pub proof fn load_counts_after_the_grace_period(warmup: SetWarmup, endpoints: nat, now: u64)
    ensures
        endpoints < pool_size() ==> warmed(warmup, endpoints, now).full_since is None
            && warmed(warmup, endpoints, now).counting == warmup.counting,
        endpoints >= pool_size() && warmup.full_since is None ==> warmed(
            warmup,
            endpoints,
            now,
        ).full_since == Some(now),
        endpoints >= pool_size() && warmup.full_since is Some ==> warmed(
            warmup,
            endpoints,
            now,
        ).full_since == warmup.full_since,
        !warmup.counting ==> (warmed(warmup, endpoints, now).counting <==> endpoints >= pool_size()
            && warmup.full_since is Some && now - warmup.full_since->0 >= LOAD_STEADY_GRACE_NANOS),
{
}

/// The endpoints of a set are the nodes that belong to it, in order, and no others.
pub proof fn endpoints_are_those_of_the_set(nodes: Seq<Seq<char>>, set: nat)
    ensures
        of_set(nodes, set) == nodes.filter(|node: Seq<char>| node_set(node) == Some(set)),
    decreases nodes.len(),
{
    let belongs = |node: Seq<char>| node_set(node) == Some(set);
    reveal(Seq::filter);
    if nodes.len() > 0 {
        endpoints_are_those_of_the_set(nodes.drop_last(), set);
        crate::demo::fleet::lemma_filter_push(nodes.drop_last(), nodes.last(), belongs);
        assert(nodes.drop_last().push(nodes.last()) =~= nodes);
    }
}

} // verus!
