//! The endpoints behind the load balancers' services, and what they must show.

use crate::demo;
use crate::e2e;
use crate::json::{
    is_true, item, item_count, items_of, member, member_of, said, said_of, text_in, text_of, Json,
    JsonView,
};
use crate::text::{decimal, decimal_digits, view_of, views};
use vstd::prelude::*;

verus! {

/// One endpoint behind a service.
pub struct ServiceEndpoint {
    /// The pod behind the endpoint; none for a machine that is no pod.
    pub pod: Option<String>,
    pub addresses: Vec<String>,
    pub ready: bool,
}

/// One endpoint behind a service.
#[verifier::ext_equal]
pub struct EndpointView {
    pub pod: Option<Seq<char>>,
    pub addresses: Seq<Seq<char>>,
    pub ready: bool,
}

/// What an endpoint says.
pub open spec fn endpoint_view(endpoint: ServiceEndpoint) -> EndpointView {
    EndpointView {
        pod: view_of(endpoint.pod),
        addresses: views(endpoint.addresses@),
        ready: endpoint.ready,
    }
}

/// What some endpoints say.
pub open spec fn endpoint_views(endpoints: Seq<ServiceEndpoint>) -> Seq<EndpointView> {
    Seq::new(endpoints.len(), |i: int| endpoint_view(endpoints[i]))
}

/// The texts among some JSON values, in order.
pub open spec fn texts_among(items: Seq<JsonView>) -> Seq<Seq<char>>
    decreases items.len(),
{
    if items.len() == 0 {
        Seq::empty()
    } else {
        match text_in(items.last()) {
            Some(text) => texts_among(items.drop_last()).push(text),
            None => texts_among(items.drop_last()),
        }
    }
}

fn list_texts(json: Option<&Json>) -> (result: Vec<String>)
    ensures
        views(result@) == texts_among(items_of(said_of(json))),
{
    let ghost all = items_of(said_of(json));
    let mut result: Vec<String> = Vec::new();
    let mut index: usize = 0;
    let count: usize = item_count(json);
    assert(views(result@) =~= texts_among(all.take(0)));
    while index < count
        invariant
            index <= count,
            count == all.len(),
            all == items_of(said_of(json)),
            views(result@) == texts_among(all.take(index as int)),
        decreases count - index,
    {
        assert(all.take(index + 1).drop_last() =~= all.take(index as int));
        let ghost before = result@;
        match text_of(item(json, index)) {
            Some(text) => {
                let text = text.to_owned();
                result.push(text);
                assert(views(result@) =~= views(before).push(text@));
            },
            None => {},
        }
        index = index + 1;
    }
    assert(all.take(count as int) =~= all);
    result
}

/// What a JSON document says of one endpoint.
pub open spec fn endpoint_said(endpoint: JsonView) -> EndpointView {
    EndpointView {
        pod: text_in(member_of(member_of(endpoint, "targetRef"@), "name"@)),
        addresses: texts_among(items_of(member_of(endpoint, "addresses"@))),
        ready: member_of(member_of(endpoint, "conditions"@), "ready"@) == JsonView::Bool(true),
    }
}

/// What a JSON document says of some endpoints.
pub open spec fn endpoints_said(endpoints: Seq<JsonView>) -> Seq<EndpointView> {
    Seq::new(endpoints.len(), |i: int| endpoint_said(endpoints[i]))
}

/// The endpoints of some slices, one slice after the other.
pub open spec fn slice_endpoints(slices: Seq<JsonView>) -> Seq<EndpointView>
    decreases slices.len(),
{
    if slices.len() == 0 {
        Seq::empty()
    } else {
        slice_endpoints(slices.drop_last()) + endpoints_said(
            items_of(member_of(slices.last(), "endpoints"@)),
        )
    }
}

/// Who manages a slice.
pub open spec fn slice_manager(slice: JsonView) -> Option<Seq<char>> {
    text_in(
        member_of(
            member_of(member_of(slice, "metadata"@), "labels"@),
            "endpointslice.kubernetes.io/managed-by"@,
        ),
    )
}

/// Who manages some slices, in order.
pub open spec fn slice_managers(slices: Seq<JsonView>) -> Seq<Seq<char>>
    decreases slices.len(),
{
    if slices.len() == 0 {
        Seq::empty()
    } else {
        match slice_manager(slices.last()) {
            Some(manager) => slice_managers(slices.drop_last()).push(manager),
            None => slice_managers(slices.drop_last()),
        }
    }
}

fn add_endpoints(endpoints: &mut Vec<ServiceEndpoint>, slice: Option<&Json>)
    ensures
        endpoint_views(final(endpoints)@) == endpoint_views(old(endpoints)@) + endpoints_said(
            items_of(member_of(said_of(slice), "endpoints"@)),
        ),
{
    let list = member(slice, "endpoints");
    let ghost all = endpoints_said(items_of(said_of(list)));
    let ghost before = endpoint_views(endpoints@);
    let count: usize = item_count(list);
    let mut index: usize = 0;
    assert(endpoint_views(endpoints@) =~= before + all.take(0));
    while index < count
        invariant
            index <= count,
            count == items_of(said_of(list)).len(),
            all == endpoints_said(items_of(said_of(list))),
            endpoint_views(endpoints@) == before + all.take(index as int),
        decreases count - index,
    {
        let ghost earlier = endpoints@;
        let endpoint = item(list, index);
        let pod = match text_of(member(member(endpoint, "targetRef"), "name")) {
            Some(pod) => Some(pod.to_owned()),
            None => None,
        };
        let found = ServiceEndpoint {
            pod,
            addresses: list_texts(member(endpoint, "addresses")),
            ready: is_true(member(member(endpoint, "conditions"), "ready")),
        };
        assert(endpoint_view(found) =~= all[index as int]);
        endpoints.push(found);
        assert(endpoint_views(endpoints@) =~= endpoint_views(earlier).push(endpoint_view(found)));
        assert(before + all.take(index + 1) =~= (before + all.take(index as int)).push(
            all[index as int],
        ));
        index = index + 1;
    }
    assert(all.take(count as int) =~= all);
}

/// The endpoints behind a service, and who manages their slices, as a listing of the service's
/// slices shows them.
pub fn service_endpoints(listing: &Json) -> (result: (Vec<String>, Vec<ServiceEndpoint>))
    ensures
        views(result.0@) == slice_managers(items_of(member_of(said(*listing), "items"@))),
        endpoint_views(result.1@) == slice_endpoints(
            items_of(member_of(said(*listing), "items"@)),
        ),
{
    let slices = member(Some(listing), "items");
    let ghost all = items_of(said_of(slices));
    let count: usize = item_count(slices);
    let mut managers: Vec<String> = Vec::new();
    let mut endpoints: Vec<ServiceEndpoint> = Vec::new();
    let mut index: usize = 0;
    assert(views(managers@) =~= slice_managers(all.take(0)));
    assert(endpoint_views(endpoints@) =~= slice_endpoints(all.take(0)));
    while index < count
        invariant
            index <= count,
            count == all.len(),
            all == items_of(said_of(slices)),
            views(managers@) == slice_managers(all.take(index as int)),
            endpoint_views(endpoints@) == slice_endpoints(all.take(index as int)),
        decreases count - index,
    {
        assert(all.take(index + 1).drop_last() =~= all.take(index as int));
        let ghost before = managers@;
        let slice = item(slices, index);
        let labels = member(member(slice, "metadata"), "labels");
        match text_of(member(labels, "endpointslice.kubernetes.io/managed-by")) {
            Some(manager) => {
                let manager = manager.to_owned();
                managers.push(manager);
                assert(views(managers@) =~= views(before).push(manager@));
            },
            None => {},
        }
        add_endpoints(&mut endpoints, slice);
        index = index + 1;
    }
    assert(all.take(count as int) =~= all);
    (managers, endpoints)
}

// ----- the isolation of the sets -----

/// A layout of sets of nodes.
pub trait SetLayout {
    /// The set that a node belongs to.
    spec fn set_of(&self, node: Seq<char>) -> Option<nat>;

    /// The set that a node belongs to.
    fn find_set(&self, node: &str) -> (result: Option<usize>)
        ensures
            match result {
                Some(set) => self.set_of(node@) == Some(set as nat),
                None => self.set_of(node@) is None,
            },
    ;
}

/// The layout of the demo's sets.
pub struct DemoSets;

/// The layout of the end-to-end fleet's sets.
pub struct FleetSets;

impl SetLayout for DemoSets {
    open spec fn set_of(&self, node: Seq<char>) -> Option<nat> {
        demo::layout::node_set(node)
    }

    fn find_set(&self, node: &str) -> (result: Option<usize>) {
        demo::layout::node_set_index(node)
    }
}

impl SetLayout for FleetSets {
    open spec fn set_of(&self, node: Seq<char>) -> Option<nat> {
        e2e::layout::node_set(node)
    }

    fn find_set(&self, node: &str) -> (result: Option<usize>) {
        e2e::layout::node_set_index(node)
    }
}

/// Whether an endpoint is backed by a pod that is not of the set.
pub open spec fn is_stray<L: SetLayout>(layout: L, endpoint: EndpointView, set: nat) -> bool {
    endpoint.pod is Some && layout.set_of(endpoint.pod->Some_0) != Some(set)
}

/// The first endpoint that is backed by a pod that is not of the set; as many as there are, where
/// none is.
pub open spec fn first_stray<L: SetLayout>(
    layout: L,
    endpoints: Seq<EndpointView>,
    set: nat,
) -> int
    decreases endpoints.len(),
{
    if endpoints.len() == 0 {
        0
    } else if is_stray(layout, endpoints[0], set) {
        0
    } else {
        1 + first_stray(layout, endpoints.skip(1), set)
    }
}

/// Whether some endpoint is backed by a ready pod.
pub open spec fn serves(endpoints: Seq<EndpointView>) -> bool {
    exists|i: int|
        0 <= i < endpoints.len() && (#[trigger] endpoints[i]).pod is Some && endpoints[i].ready
}

/// What the endpoints of a set's service show.
pub enum SetVerdict {
    /// A pod of another set, or of none, is behind the service.
    Violated(String),
    /// Nothing is ready behind the service.
    Unpopulated,
    /// Only pods of the set are behind the service, and one of them is ready.
    Isolated,
}

/// Whether a verdict is what the endpoints of a set's service show.
pub open spec fn is_set_verdict<L: SetLayout>(
    layout: L,
    endpoints: Seq<EndpointView>,
    set: nat,
    verdict: SetVerdict,
) -> bool {
    let stray = first_stray(layout, endpoints, set);
    if stray < endpoints.len() {
        verdict is Violated && Some(verdict->Violated_0@) == endpoints[stray].pod
    } else if serves(endpoints) {
        verdict is Isolated
    } else {
        verdict is Unpopulated
    }
}

proof fn lemma_first_stray<L: SetLayout>(
    layout: L,
    endpoints: Seq<EndpointView>,
    set: nat,
    at: int,
)
    requires
        0 <= at <= endpoints.len(),
        forall|i: int| 0 <= i < at ==> !is_stray(layout, #[trigger] endpoints[i], set),
        at < endpoints.len() ==> is_stray(layout, endpoints[at], set),
    ensures
        first_stray(layout, endpoints, set) == at,
    decreases endpoints.len(),
{
    if endpoints.len() > 0 && at > 0 {
        assert(!is_stray(layout, endpoints[0], set));
        let rest = endpoints.skip(1);
        assert forall|i: int| 0 <= i < at - 1 implies !is_stray(
            layout,
            #[trigger] rest[i],
            set,
        ) by {
            assert(rest[i] == endpoints[i + 1]);
        }
        lemma_first_stray(layout, rest, set, at - 1);
    }
}

/// What the endpoints of a set's service show. Every endpoint counts for whose pod it is, ready or
/// not; a ready one is needed to serve.
pub fn check_set<L: SetLayout>(
    layout: &L,
    endpoints: &Vec<ServiceEndpoint>,
    set: usize,
) -> (result: SetVerdict)
    ensures
        is_set_verdict(*layout, endpoint_views(endpoints@), set as nat, result),
{
    let ghost all = endpoint_views(endpoints@);
    let mut ready = false;
    let mut index: usize = 0;
    while index < endpoints.len()
        invariant
            index <= endpoints.len(),
            all == endpoint_views(endpoints@),
            forall|i: int| 0 <= i < index ==> !is_stray(*layout, #[trigger] all[i], set as nat),
            ready == exists|i: int|
                0 <= i < index && (#[trigger] all[i]).pod is Some && all[i].ready,
        decreases endpoints.len() - index,
    {
        assert(all[index as int] == endpoint_view(endpoints@[index as int]));
        match &endpoints[index].pod {
            Some(pod) => {
                let belongs = match layout.find_set(pod.as_str()) {
                    Some(found) => found == set,
                    None => false,
                };
                if !belongs {
                    proof {
                        assert(is_stray(*layout, all[index as int], set as nat));
                        lemma_first_stray(*layout, all, set as nat, index as int);
                    }
                    return SetVerdict::Violated(pod.clone());
                }
                if endpoints[index].ready {
                    ready = true;
                }
            },
            None => {},
        }
        index = index + 1;
    }
    proof {
        lemma_first_stray(*layout, all, set as nat, all.len() as int);
    }
    if ready {
        SetVerdict::Isolated
    } else {
        SetVerdict::Unpopulated
    }
}

/// Only pods of the set are behind a service that is found isolated: no pod of another set can
/// answer for it.
pub proof fn isolated_services_admit_only_their_own<L: SetLayout>(
    layout: L,
    endpoints: Seq<EndpointView>,
    set: nat,
    verdict: SetVerdict,
)
    requires
        is_set_verdict(layout, endpoints, set, verdict),
        verdict is Isolated,
    ensures
        forall|i: int|
            0 <= i < endpoints.len() && (#[trigger] endpoints[i]).pod is Some ==> layout.set_of(
                endpoints[i].pod->Some_0,
            ) == Some(set),
{
    lemma_no_stray(layout, endpoints, set);
}

proof fn lemma_no_stray<L: SetLayout>(layout: L, endpoints: Seq<EndpointView>, set: nat)
    ensures
        0 <= first_stray(layout, endpoints, set) <= endpoints.len(),
        first_stray(layout, endpoints, set) == endpoints.len() ==> forall|i: int|
            0 <= i < endpoints.len() ==> !is_stray(layout, #[trigger] endpoints[i], set),
    decreases endpoints.len(),
{
    if endpoints.len() > 0 && !is_stray(layout, endpoints[0], set) {
        let rest = endpoints.skip(1);
        lemma_no_stray(layout, rest, set);
        if first_stray(layout, endpoints, set) == endpoints.len() {
            assert forall|i: int| 0 <= i < endpoints.len() implies !is_stray(
                layout,
                #[trigger] endpoints[i],
                set,
            ) by {
                if i > 0 {
                    assert(endpoints[i] == rest[i - 1]);
                }
            }
        }
    }
}

/// What one listing of a set's service shows; nothing where it could not be read.
pub open spec fn listing_view(listing: Option<Vec<ServiceEndpoint>>) -> Option<Seq<EndpointView>> {
    match listing {
        Some(endpoints) => Some(endpoint_views(endpoints@)),
        None => None,
    }
}

/// Whether a set's service is known to admit a pod that is not of the set.
pub open spec fn is_violated<L: SetLayout>(
    layout: L,
    listing: Option<Seq<EndpointView>>,
    set: nat,
) -> bool {
    listing is Some && first_stray(layout, listing->Some_0, set) < listing->Some_0.len()
}

/// What the listings of every set's service show together.
pub enum RoundVerdict {
    /// This set's service is backed by this pod, which is not of the set.
    Violated(usize, String),
    /// Some service has not shown a ready endpoint.
    Waiting,
    /// Every service admits only its own pods, and one of them is ready.
    Isolated,
}

/// Whether a verdict is what the listings of every set's service show together. The first violation
/// decides; a listing that could not be read is waited for.
pub open spec fn is_round_verdict<L: SetLayout>(
    layout: L,
    listings: Seq<Option<Vec<ServiceEndpoint>>>,
    verdict: RoundVerdict,
) -> bool {
    match verdict {
        RoundVerdict::Violated(set, pod) => {
            &&& set < listings.len()
            &&& is_violated(layout, listing_view(listings[set as int]), set as nat)
            &&& Some(pod@) == endpoint_views(
                listings[set as int]->Some_0@,
            )[first_stray(layout, endpoint_views(listings[set as int]->Some_0@), set as nat)].pod
            &&& forall|earlier: int|
                0 <= earlier < set ==> !is_violated(
                    layout,
                    listing_view(#[trigger] listings[earlier]),
                    earlier as nat,
                )
        },
        RoundVerdict::Waiting => {
            &&& forall|set: int|
                0 <= set < listings.len() ==> !is_violated(
                    layout,
                    listing_view(#[trigger] listings[set]),
                    set as nat,
                )
            &&& exists|set: int|
                0 <= set < listings.len() && ((#[trigger] listings[set]) is None || !serves(
                    endpoint_views(listings[set]->Some_0@),
                ))
        },
        RoundVerdict::Isolated => forall|set: int|
            0 <= set < listings.len() ==> (#[trigger] listings[set]) is Some && !is_violated(
                layout,
                listing_view(listings[set]),
                set as nat,
            ) && serves(endpoint_views(listings[set]->Some_0@)),
    }
}

/// What the listings of every set's service show together.
pub fn check_isolation<L: SetLayout>(
    layout: &L,
    listings: &Vec<Option<Vec<ServiceEndpoint>>>,
) -> (result: RoundVerdict)
    ensures
        is_round_verdict(*layout, listings@, result),
{
    let mut populated = true;
    let mut set: usize = 0;
    while set < listings.len()
        invariant
            set <= listings.len(),
            forall|earlier: int|
                0 <= earlier < set ==> !is_violated(
                    *layout,
                    listing_view(#[trigger] listings@[earlier]),
                    earlier as nat,
                ),
            populated ==> forall|earlier: int|
                0 <= earlier < set ==> (#[trigger] listings@[earlier]) is Some && serves(
                    endpoint_views(listings@[earlier]->Some_0@),
                ),
            !populated ==> exists|earlier: int|
                0 <= earlier < set && ((#[trigger] listings@[earlier]) is None || !serves(
                    endpoint_views(listings@[earlier]->Some_0@),
                )),
        decreases listings.len() - set,
    {
        match &listings[set] {
            Some(endpoints) => {
                assert(listings@[set as int] == Some(*endpoints));
                match check_set(layout, endpoints, set) {
                    SetVerdict::Violated(pod) => {
                        return RoundVerdict::Violated(set, pod);
                    },
                    SetVerdict::Unpopulated => {
                        proof {
                            lemma_no_stray(*layout, endpoint_views(endpoints@), set as nat);
                        }
                        populated = false;
                    },
                    SetVerdict::Isolated => {
                        proof {
                            lemma_no_stray(*layout, endpoint_views(endpoints@), set as nat);
                        }
                    },
                }
            },
            None => {
                assert(listings@[set as int] is None);
                populated = false;
            },
        }
        set = set + 1;
    }
    if populated {
        RoundVerdict::Isolated
    } else {
        RoundVerdict::Waiting
    }
}

/// The message of a violation.
pub open spec fn violation_text(
    subject: Seq<char>,
    set: nat,
    service: Seq<char>,
    pod: Seq<char>,
) -> Seq<char> {
    subject + " violated: set "@ + decimal_digits(set) + "'s Service "@ + service
        + " is backed by "@ + pod + ", which is not in set "@ + decimal_digits(set)
}

/// The message of a violation.
pub fn write_violation(subject: &str, set: usize, service: &str, pod: &str) -> (result: String)
    ensures
        result@ == violation_text(subject@, set as nat, service@, pod@),
{
    let mut message = String::from_str(subject);
    message.append(" violated: set ");
    message.append(decimal(set as u64).as_str());
    message.append("'s Service ");
    message.append(service);
    message.append(" is backed by ");
    message.append(pod);
    message.append(", which is not in set ");
    message.append(decimal(set as u64).as_str());
    message
}

// ----- the endpoints outside the cluster -----

/// How many endpoints are ready.
pub open spec fn ready_count(endpoints: Seq<EndpointView>) -> nat
    decreases endpoints.len(),
{
    if endpoints.len() == 0 {
        0
    } else {
        ready_count(endpoints.drop_last()) + (if endpoints.last().ready {
            1nat
        } else {
            0
        })
    }
}

/// Whether the reconciler manages a slice, and enough endpoints are ready.
pub open spec fn is_reconciled(
    managers: Seq<Seq<char>>,
    endpoints: Seq<EndpointView>,
    needed: nat,
) -> bool {
    managers.contains("updated-healthproxy"@) && ready_count(endpoints) >= needed
}

/// Whether the reconciler manages a slice, and enough endpoints are ready.
pub fn check_reconciled(
    managers: &Vec<String>,
    endpoints: &Vec<ServiceEndpoint>,
    needed: usize,
) -> (result: bool)
    ensures
        result == is_reconciled(views(managers@), endpoint_views(endpoints@), needed as nat),
{
    let ghost all = endpoint_views(endpoints@);
    let mut ready: usize = 0;
    let mut index: usize = 0;
    while index < endpoints.len()
        invariant
            index <= endpoints.len(),
            all == endpoint_views(endpoints@),
            ready == ready_count(all.take(index as int)),
            ready <= index,
        decreases endpoints.len() - index,
    {
        assert(all.take(index + 1).drop_last() =~= all.take(index as int));
        if endpoints[index].ready {
            ready = ready + 1;
        }
        index = index + 1;
    }
    assert(all.take(endpoints.len() as int) =~= all);
    crate::text::holds(managers, "updated-healthproxy") && ready >= needed
}

/// The addresses of the ready endpoints, in order.
pub open spec fn ready_addresses(endpoints: Seq<EndpointView>) -> Seq<Seq<char>>
    decreases endpoints.len(),
{
    if endpoints.len() == 0 {
        Seq::empty()
    } else if endpoints.last().ready {
        ready_addresses(endpoints.drop_last()) + endpoints.last().addresses
    } else {
        ready_addresses(endpoints.drop_last())
    }
}

/// The addresses of the ready endpoints, in order.
pub fn ready_external_addresses(endpoints: &Vec<ServiceEndpoint>) -> (result: Vec<String>)
    ensures
        views(result@) == ready_addresses(endpoint_views(endpoints@)),
{
    let ghost all = endpoint_views(endpoints@);
    let mut result: Vec<String> = Vec::new();
    let mut index: usize = 0;
    assert(views(result@) =~= ready_addresses(all.take(0)));
    while index < endpoints.len()
        invariant
            index <= endpoints.len(),
            all == endpoint_views(endpoints@),
            views(result@) == ready_addresses(all.take(index as int)),
        decreases endpoints.len() - index,
    {
        assert(all.take(index + 1).drop_last() =~= all.take(index as int));
        if endpoints[index].ready {
            let ghost before = result@;
            let mut addresses = crate::text::copied(&endpoints[index].addresses);
            let ghost added = addresses@;
            result.append(&mut addresses);
            assert(views(result@) =~= views(before) + views(added));
        }
        index = index + 1;
    }
    assert(all.take(endpoints.len() as int) =~= all);
    result
}

// ----- what the verdicts rest on -----

/// A set's service is isolated exactly when every pod behind it is of the set, ready or not, and one of
/// them is ready; it is violated exactly when a pod behind it is not of the set.
pub proof fn isolation_is_every_pod_and_one_ready<L: SetLayout>(
    layout: L,
    endpoints: Seq<EndpointView>,
    set: nat,
    verdict: SetVerdict,
)
    requires
        is_set_verdict(layout, endpoints, set, verdict),
    ensures
        verdict is Violated <==> exists|i: int|
            0 <= i < endpoints.len() && (#[trigger] endpoints[i]).pod is Some && layout.set_of(
                endpoints[i].pod->Some_0,
            ) != Some(set),
        verdict is Isolated <==> (forall|i: int|
            0 <= i < endpoints.len() && (#[trigger] endpoints[i]).pod is Some ==> layout.set_of(
                endpoints[i].pod->Some_0,
            ) == Some(set)) && exists|i: int|
            0 <= i < endpoints.len() && (#[trigger] endpoints[i]).pod is Some && endpoints[i].ready,
        verdict is Violated ==> layout.set_of(verdict->Violated_0@) != Some(set),
{
    lemma_no_stray(layout, endpoints, set);
    lemma_stray_found(layout, endpoints, set);
    let stray = first_stray(layout, endpoints, set);
    if stray < endpoints.len() {
        assert(is_stray(layout, endpoints[stray], set));
    } else {
        assert forall|i: int| 0 <= i < endpoints.len() && (
        #[trigger] endpoints[i]).pod is Some implies layout.set_of(endpoints[i].pod->Some_0) == Some(
            set,
        ) by {
            assert(!is_stray(layout, endpoints[i], set));
        }
    }
}

proof fn lemma_stray_found<L: SetLayout>(layout: L, endpoints: Seq<EndpointView>, set: nat)
    ensures
        0 <= first_stray(layout, endpoints, set) <= endpoints.len(),
        first_stray(layout, endpoints, set) < endpoints.len() ==> is_stray(
            layout,
            endpoints[first_stray(layout, endpoints, set)],
            set,
        ),
    decreases endpoints.len(),
{
    if endpoints.len() > 0 && !is_stray(layout, endpoints[0], set) {
        lemma_stray_found(layout, endpoints.skip(1), set);
    }
}

/// As many endpoints count as ready as are, and enough are ready exactly when that is as many as needed;
/// the reconciler must manage a slice besides.
pub proof fn ready_endpoints_are_counted(
    managers: Seq<Seq<char>>,
    endpoints: Seq<EndpointView>,
    needed: nat,
)
    ensures
        ready_count(endpoints) == endpoints.filter(|endpoint: EndpointView| endpoint.ready).len(),
        is_reconciled(managers, endpoints, needed) <==> managers.contains("updated-healthproxy"@)
            && endpoints.filter(|endpoint: EndpointView| endpoint.ready).len() >= needed,
    decreases endpoints.len(),
{
    reveal(Seq::filter);
    if endpoints.len() > 0 {
        let before = endpoints.drop_last();
        ready_endpoints_are_counted(managers, before, needed);
        crate::demo::fleet::lemma_filter_push(
            before,
            endpoints.last(),
            |endpoint: EndpointView| endpoint.ready,
        );
        assert(before.push(endpoints.last()) =~= endpoints);
    }
}

/// The ready addresses are those of the ready endpoints, all of them and no other.
pub proof fn only_ready_endpoints_lend_their_addresses(
    endpoints: Seq<EndpointView>,
    address: Seq<char>,
)
    ensures
        ready_addresses(endpoints).contains(address) <==> exists|i: int|
            0 <= i < endpoints.len() && (#[trigger] endpoints[i]).ready
                && endpoints[i].addresses.contains(address),
    decreases endpoints.len(),
{
    if endpoints.len() > 0 {
        let before = endpoints.drop_last();
        let last = endpoints.last();
        only_ready_endpoints_lend_their_addresses(before, address);
        assert(last == endpoints[endpoints.len() - 1]);
        let earlier = ready_addresses(before);
        let all = ready_addresses(endpoints);
        if all.contains(address) {
            let k = choose|k: int| 0 <= k < all.len() && all[k] == address;
            if k < earlier.len() {
                assert(earlier[k] == address);
                let i = choose|i: int|
                    0 <= i < before.len() && (#[trigger] before[i]).ready
                        && before[i].addresses.contains(address);
                assert(endpoints[i] == before[i]);
            } else {
                assert(last.addresses[k - earlier.len()] == address);
            }
        }
        if exists|i: int|
            0 <= i < endpoints.len() && (#[trigger] endpoints[i]).ready
                && endpoints[i].addresses.contains(address) {
            let i = choose|i: int|
                0 <= i < endpoints.len() && (#[trigger] endpoints[i]).ready
                    && endpoints[i].addresses.contains(address);
            if i < before.len() {
                assert(before[i] == endpoints[i]);
                let k = choose|k: int| 0 <= k < earlier.len() && earlier[k] == address;
                assert(all[k] == address);
            } else {
                let k = choose|k: int| 0 <= k < last.addresses.len() && last.addresses[k] == address;
                assert(all[earlier.len() + k] == address);
            }
        }
    }
}

/// An endpoint counts as ready only where its conditions say so outright: one that says nothing, or
/// anything else, does not. Its pod and addresses are those that it names.
pub proof fn endpoints_are_ready_only_where_they_say_so(endpoint: JsonView)
    ensures
        endpoint_said(endpoint).ready <==> member_of(member_of(endpoint, "conditions"@), "ready"@)
            == JsonView::Bool(true),
        endpoint_said(endpoint).pod == text_in(member_of(member_of(endpoint, "targetRef"@), "name"@)),
        endpoint_said(endpoint).addresses == texts_among(
            items_of(member_of(endpoint, "addresses"@)),
        ),
{
}

/// The endpoints of slices are those of each slice, one slice after the other, and the managers those of
/// the slices that name one.
pub proof fn slices_add_up(slices: Seq<JsonView>, slice: JsonView)
    ensures
        slice_endpoints(slices.push(slice)) == slice_endpoints(slices) + endpoints_said(
            items_of(member_of(slice, "endpoints"@)),
        ),
        slice_manager(slice) is None ==> slice_managers(slices.push(slice)) == slice_managers(slices),
        slice_manager(slice) is Some ==> slice_managers(slices.push(slice)) == slice_managers(
            slices,
        ).push(slice_manager(slice)->Some_0),
{
    assert(slices.push(slice).drop_last() =~= slices);
}

/// A look at every set finds the first service with a pod that is not of its set; or else waits where a
/// listing is missing, or nothing is ready behind a service; or else finds every set isolated.
pub proof fn rounds_find_the_first_violation<L: SetLayout>(
    layout: L,
    listings: Seq<Option<Vec<ServiceEndpoint>>>,
    verdict: RoundVerdict,
)
    requires
        is_round_verdict(layout, listings, verdict),
    ensures
        verdict is Violated <==> exists|set: int|
            0 <= set < listings.len() && #[trigger] admits_a_stranger(layout, listings[set], set),
        verdict matches RoundVerdict::Violated(set, pod) ==> {
            &&& set < listings.len()
            &&& admits_a_stranger(layout, listings[set as int], set as int)
            &&& layout.set_of(pod@) != Some(set as nat)
            &&& forall|earlier: int|
                0 <= earlier < set ==> !#[trigger] admits_a_stranger(
                    layout,
                    listings[earlier],
                    earlier,
                )
        },
        verdict is Isolated <==> forall|set: int|
            0 <= set < listings.len() ==> !admits_a_stranger(
                layout,
                #[trigger] listings[set],
                set,
            ) && listings[set] is Some && exists|i: int|
                0 <= i < listings[set]->0@.len() && (#[trigger] endpoint_views(
                    listings[set]->0@,
                )[i]).pod is Some && endpoint_views(listings[set]->0@)[i].ready,
{
    assert forall|set: int| 0 <= set < listings.len() implies #[trigger] admits_a_stranger(
        layout,
        listings[set],
        set,
    ) == is_violated(layout, listing_view(listings[set]), set as nat) by {
        if listings[set] is Some {
            let endpoints = endpoint_views(listings[set]->0@);
            lemma_no_stray(layout, endpoints, set as nat);
            lemma_stray_found(layout, endpoints, set as nat);
            let stray = first_stray(layout, endpoints, set as nat);
            if admits_a_stranger(layout, listings[set], set) {
                let at = choose|i: int|
                    0 <= i < endpoints.len() && (#[trigger] endpoints[i]).pod is Some
                        && layout.set_of(endpoints[i].pod->0) != Some(set as nat);
                assert(is_stray(layout, endpoints[at], set as nat));
            }
            if stray < endpoints.len() {
                assert(is_stray(layout, endpoints[stray], set as nat));
            }
        }
    }
    match verdict {
        RoundVerdict::Violated(set, _) => {
            let endpoints = endpoint_views(listings[set as int]->0@);
            lemma_stray_found(layout, endpoints, set as nat);
            assert(is_violated(layout, listing_view(listings[set as int]), set as nat));
            assert(admits_a_stranger(layout, listings[set as int], set as int));
            assert(is_stray(
                layout,
                endpoints[first_stray(layout, endpoints, set as nat)],
                set as nat,
            ));
        },
        RoundVerdict::Waiting => {
            let set = choose|set: int|
                0 <= set < listings.len() && ((#[trigger] listings[set]) is None || !serves(
                    endpoint_views(listings[set]->Some_0@),
                ));
            assert(listings[set] is None || !serves(endpoint_views(listings[set]->Some_0@)));
        },
        RoundVerdict::Isolated => {
            assert forall|set: int| 0 <= set < listings.len() implies !admits_a_stranger(
                layout,
                #[trigger] listings[set],
                set,
            ) && listings[set] is Some && exists|i: int|
                0 <= i < listings[set]->0@.len() && (#[trigger] endpoint_views(
                    listings[set]->0@,
                )[i]).pod is Some && endpoint_views(listings[set]->0@)[i].ready by {
                assert(serves(endpoint_views(listings[set]->0@)));
            }
        },
    }
}

/// Whether a set's service is known to be backed by a pod that is not of the set.
pub open spec fn admits_a_stranger<L: SetLayout>(
    layout: L,
    listing: Option<Vec<ServiceEndpoint>>,
    set: int,
) -> bool {
    listing is Some && exists|i: int|
        0 <= i < listing->0@.len() && (#[trigger] endpoint_views(listing->0@)[i]).pod is Some
            && layout.set_of(endpoint_views(listing->0@)[i].pod->0) != Some(set as nat)
}

/// Each layout knows the sets of its own nodes.
pub proof fn layouts_know_their_own_sets(node: Seq<char>)
    ensures
        DemoSets.set_of(node) == demo::layout::node_set(node),
        FleetSets.set_of(node) == e2e::layout::node_set(node),
{
}

/// The texts of a list are its items that are texts, in order; no other item counts.
pub proof fn only_texts_are_listed(items: Seq<JsonView>, item: JsonView, text: Seq<char>)
    ensures
        texts_among(Seq::empty()) == Seq::<Seq<char>>::empty(),
        texts_among(items.push(JsonView::Text(text))) == texts_among(items).push(text),
        !(item is Text) ==> texts_among(items.push(item)) == texts_among(items),
{
    assert(items.push(JsonView::Text(text)).drop_last() =~= items);
    assert(items.push(item).drop_last() =~= items);
}

} // verus!
