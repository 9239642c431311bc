//! The resources of the demo: its groups, throttle sets, services and routes.

use crate::demo::layout::{
    cohort_group, cohort_group_text, cohort_label, cohort_label_text, cohort_set_index,
    magnolia_cohorts, magnolia_row, magnolia_table, names_are_distinct, set_name, set_name_text,
    set_service_name, set_service_text, DEMO_COHORT_COUNT, DEMO_EXTERNAL_COHORT,
    DEMO_EXTERNAL_SERVICE, DEMO_EXTERNAL_VM_COHORT, DEMO_FLEET_CONCURRENCY, DEMO_FLEET_LABEL,
    DEMO_FLEET_SET, DEMO_FLEET_VALUE, DEMO_GROUPS_PER_SET, DEMO_HAPROXY_COHORT,
    DEMO_HAPROXY_GROUP, DEMO_HAPROXY_V1, DEMO_REPORT_URL, DEMO_SET_COUNT, MAGNOLIA_MANUAL_GROUP,
    SET_LABEL,
};
use crate::demo::haproxy::HaproxyRelease;
use crate::demo::releases::{deployment_identity, write_identity, ReleaseBootstrap};
use crate::labels::Label;
use crate::resources::{
    is_selected, label, pairs, plan_bare_service, plan_service, plan_set, service_plan_view,
    service_plan_views, set_plan_view, set_plan_views, target, target_view, ServicePlan, SetPlan,
    SetPlanView, TargetReference, Timeouts,
};
use crate::text::{decimal, decimal_digits, trim, trimmed, view_of, views};
use vstd::prelude::*;

verus! {

/// The cadence of the cohorts: fast, with a drain held until the endpoint is gone.
pub open spec fn fast_cadence() -> Timeouts {
    Timeouts {
        check_interval: 1,
        health_grace: 8,
        health_successes: 1,
        health_interval: 1,
        retry_after: None,
        refresh_retry: 1,
        confirmation_window: 3,
        supervisor_check_interval: Some(3600),
        drain_hold: Some(4),
    }
}

fn use_fast_cadence() -> (result: Timeouts)
    ensures
        result == fast_cadence(),
{
    Timeouts {
        check_interval: 1,
        health_grace: 8,
        health_successes: 1,
        health_interval: 1,
        retry_after: None,
        refresh_retry: 1,
        confirmation_window: 3,
        supervisor_check_interval: Some(3600),
        drain_hold: Some(4),
    }
}

/// The cadence of the Magnolia nodes, whose installation takes minutes.
pub open spec fn magnolia_cadence() -> Timeouts {
    Timeouts {
        check_interval: 5,
        health_grace: 360,
        health_successes: 1,
        health_interval: 3,
        retry_after: None,
        refresh_retry: 5,
        confirmation_window: 10,
        supervisor_check_interval: Some(3600),
        drain_hold: None,
    }
}

fn use_magnolia_cadence() -> (result: Timeouts)
    ensures
        result == magnolia_cadence(),
{
    Timeouts {
        check_interval: 5,
        health_grace: 360,
        health_successes: 1,
        health_interval: 3,
        retry_after: None,
        refresh_retry: 5,
        confirmation_window: 10,
        supervisor_check_interval: Some(3600),
        drain_hold: None,
    }
}

/// The cadence of the load balancers.
pub open spec fn haproxy_cadence() -> Timeouts {
    Timeouts {
        check_interval: 1,
        health_grace: 12,
        health_successes: 1,
        health_interval: 1,
        retry_after: Some(2),
        refresh_retry: 1,
        confirmation_window: 3,
        supervisor_check_interval: Some(3600),
        drain_hold: None,
    }
}

fn use_haproxy_cadence() -> (result: Timeouts)
    ensures
        result == haproxy_cadence(),
{
    Timeouts {
        check_interval: 1,
        health_grace: 12,
        health_successes: 1,
        health_interval: 1,
        retry_after: Some(2),
        refresh_retry: 1,
        confirmation_window: 3,
        supervisor_check_interval: Some(3600),
        drain_hold: None,
    }
}

/// A rollout group: what it selects, and what it has a node run.
pub struct GroupPlan {
    pub name: String,
    /// The group's own labels; none where it is in no set.
    pub labels: Vec<Label>,
    pub selector: Vec<Label>,
    pub deployment: String,
    pub application: TargetReference,
    pub provider_set: TargetReference,
    /// The root of the repository that releases are rolled from, where that is not the template's.
    pub release_root: Option<String>,
    /// Where the nodes report what they are at.
    pub report_url: &'static str,
    pub ordered_install_fallback: bool,
    /// The product, where it is not the template's.
    pub product: Option<&'static str>,
    /// How the product is run, where that is not the template's.
    pub mode: Option<&'static str>,
    /// The arguments that it is run with, where they are not the template's.
    pub arguments: Option<Vec<String>>,
    /// Where the product is installed, where that is not the template's.
    pub install_root: Option<&'static str>,
    pub timeouts: Timeouts,
}

/// A rollout group.
#[verifier::ext_equal]
pub struct GroupPlanView {
    pub name: Seq<char>,
    pub labels: Seq<(Seq<char>, Seq<char>)>,
    pub selector: Seq<(Seq<char>, Seq<char>)>,
    pub deployment: Seq<char>,
    pub application: (Seq<char>, Seq<char>),
    pub provider_set: (Seq<char>, Seq<char>),
    pub release_root: Option<Seq<char>>,
    pub report_url: Seq<char>,
    pub ordered_install_fallback: bool,
    pub product: Option<Seq<char>>,
    pub mode: Option<Seq<char>>,
    pub arguments: Option<Seq<Seq<char>>>,
    pub install_root: Option<Seq<char>>,
    pub timeouts: Timeouts,
}

/// What an optional literal says.
pub open spec fn literal_of(item: Option<&'static str>) -> Option<Seq<char>> {
    match item {
        Some(text) => Some(text@),
        None => None,
    }
}

/// What optional arguments say.
pub open spec fn arguments_of(arguments: Option<Vec<String>>) -> Option<Seq<Seq<char>>> {
    match arguments {
        Some(given) => Some(views(given@)),
        None => None,
    }
}

/// What a planned group says.
pub open spec fn group_plan_view(plan: GroupPlan) -> GroupPlanView {
    GroupPlanView {
        name: plan.name@,
        labels: pairs(plan.labels@),
        selector: pairs(plan.selector@),
        deployment: plan.deployment@,
        application: target_view(plan.application),
        provider_set: target_view(plan.provider_set),
        release_root: view_of(plan.release_root),
        report_url: plan.report_url@,
        ordered_install_fallback: plan.ordered_install_fallback,
        product: literal_of(plan.product),
        mode: literal_of(plan.mode),
        arguments: arguments_of(plan.arguments),
        install_root: literal_of(plan.install_root),
        timeouts: plan.timeouts,
    }
}

/// What some planned groups say.
pub open spec fn group_plan_views(plans: Seq<GroupPlan>) -> Seq<GroupPlanView> {
    Seq::new(plans.len(), |i: int| group_plan_view(plans[i]))
}

/// Where the cohorts' applications come from.
pub struct FleetSource {
    pub bootstrap: ReleaseBootstrap,
    pub provider_path: String,
}

/// A group that runs the sample application.
pub open spec fn sample_group(
    name: Seq<char>,
    labels: Seq<(Seq<char>, Seq<char>)>,
    cohort: Seq<char>,
    source: FleetSource,
) -> GroupPlanView {
    GroupPlanView {
        name,
        labels,
        selector: seq![("demo.updated.dev/cohort"@, cohort)],
        deployment: name,
        application: (source.bootstrap.baseline_path@, source.bootstrap.baseline_sha@),
        provider_set: (source.provider_path@, source.bootstrap.provider_sha@),
        release_root: Some(source.bootstrap.release_root@),
        report_url: DEMO_REPORT_URL@,
        ordered_install_fallback: true,
        product: None,
        mode: None,
        arguments: None,
        install_root: None,
        timeouts: fast_cadence(),
    }
}

fn plan_sample_group(name: &str, labels: Vec<Label>, cohort: &str, source: &FleetSource) -> (result:
    GroupPlan)
    ensures
        group_plan_view(result) == sample_group(name@, pairs(labels@), cohort@, *source),
{
    let plan = GroupPlan {
        name: name.to_owned(),
        labels,
        selector: vec![label("demo.updated.dev/cohort", cohort)],
        deployment: name.to_owned(),
        application: target(
            source.bootstrap.baseline_path.as_str(),
            source.bootstrap.baseline_sha.as_str(),
        ),
        provider_set: target(
            source.provider_path.as_str(),
            source.bootstrap.provider_sha.as_str(),
        ),
        release_root: Some(source.bootstrap.release_root.clone()),
        report_url: DEMO_REPORT_URL,
        ordered_install_fallback: true,
        product: None,
        mode: None,
        arguments: None,
        install_root: None,
        timeouts: use_fast_cadence(),
    };
    assert(group_plan_view(plan).selector =~= seq![("demo.updated.dev/cohort"@, cohort@)]);
    plan
}

/// The labels of a cohort's group: the fleet's, and its set's.
pub open spec fn cohort_group_labels(index: nat) -> Seq<(Seq<char>, Seq<char>)> {
    seq![
        (DEMO_FLEET_LABEL@, DEMO_FLEET_VALUE@),
        (SET_LABEL@, set_name_text(index / DEMO_GROUPS_PER_SET as nat)),
    ]
}

/// The group of a cohort.
pub open spec fn cohort_plan(index: nat, source: FleetSource) -> GroupPlanView {
    sample_group(
        cohort_group_text(index),
        cohort_group_labels(index),
        cohort_label_text(index),
        source,
    )
}

/// The groups of every cohort, in order.
pub fn plan_cohort_groups(source: &FleetSource) -> (result: Vec<GroupPlan>)
    ensures
        group_plan_views(result@) == Seq::new(
            DEMO_COHORT_COUNT as nat,
            |i: int| cohort_plan(i as nat, *source),
        ),
{
    let mut result: Vec<GroupPlan> = Vec::new();
    let mut index: usize = 0;
    while index < DEMO_COHORT_COUNT
        invariant
            index <= DEMO_COHORT_COUNT,
            result@.len() == index,
            forall|i: int|
                0 <= i < index ==> group_plan_view(#[trigger] result@[i]) == cohort_plan(
                    i as nat,
                    *source,
                ),
        decreases DEMO_COHORT_COUNT - index,
    {
        let set = set_name(cohort_set_index(index));
        let labels = vec![label(DEMO_FLEET_LABEL, DEMO_FLEET_VALUE), label(SET_LABEL, set.as_str())];
        assert(pairs(labels@) =~= cohort_group_labels(index as nat));
        let group = cohort_group(index);
        let cohort = cohort_label(index);
        result.push(plan_sample_group(group.as_str(), labels, cohort.as_str(), source));
        index = index + 1;
    }
    assert(group_plan_views(result@) =~= Seq::new(
        DEMO_COHORT_COUNT as nat,
        |i: int| cohort_plan(i as nat, *source),
    ));
    result
}

/// The group of the agents outside the sets: as a cohort's, but in no set.
pub fn plan_external_group(source: &FleetSource) -> (result: GroupPlan)
    ensures
        group_plan_view(result) == sample_group(
            DEMO_EXTERNAL_COHORT@,
            Seq::empty(),
            DEMO_EXTERNAL_COHORT@,
            *source,
        ),
{
    let labels: Vec<Label> = Vec::new();
    assert(pairs(labels@) =~= Seq::<(Seq<char>, Seq<char>)>::empty());
    plan_sample_group(DEMO_EXTERNAL_COHORT, labels, DEMO_EXTERNAL_COHORT, source)
}

/// The signed Magnolia release and its reconciler.
pub struct MagnoliaSource {
    pub application: TargetReference,
    pub provider_set: TargetReference,
}

/// The signed Magnolia release and its reconciler, from the digests as they were printed.
pub fn magnolia_source(path: &str, sha: &str, provider_path: &str, provider_sha: &str) -> (result:
    MagnoliaSource)
    ensures
        target_view(result.application) == (path@, trimmed(sha@)),
        target_view(result.provider_set) == (provider_path@, trimmed(provider_sha@)),
{
    MagnoliaSource {
        application: target(path, trim(sha)),
        provider_set: target(provider_path, trim(provider_sha)),
    }
}

/// A group that runs Magnolia. It is in no set, and keeps the template's repository.
pub open spec fn magnolia_plan(
    name: Seq<char>,
    selector: Seq<(Seq<char>, Seq<char>)>,
    source: MagnoliaSource,
) -> GroupPlanView {
    GroupPlanView {
        name,
        labels: Seq::empty(),
        selector,
        deployment: name,
        application: target_view(source.application),
        provider_set: target_view(source.provider_set),
        release_root: None,
        report_url: DEMO_REPORT_URL@,
        ordered_install_fallback: false,
        product: Some("magnolia"@),
        mode: Some("managed"@),
        arguments: Some(Seq::empty()),
        install_root: None,
        timeouts: magnolia_cadence(),
    }
}

fn plan_magnolia_group(name: &str, selector: Vec<Label>, source: &MagnoliaSource) -> (result:
    GroupPlan)
    ensures
        group_plan_view(result) == magnolia_plan(name@, pairs(selector@), *source),
{
    let plan = GroupPlan {
        name: name.to_owned(),
        labels: Vec::new(),
        selector,
        deployment: name.to_owned(),
        application: target(source.application.path.as_str(), source.application.sha256.as_str()),
        provider_set: target(source.provider_set.path.as_str(), source.provider_set.sha256.as_str()),
        release_root: None,
        report_url: DEMO_REPORT_URL,
        ordered_install_fallback: false,
        product: Some("magnolia"),
        mode: Some("managed"),
        arguments: Some(Vec::new()),
        install_root: None,
        timeouts: use_magnolia_cadence(),
    };
    assert(group_plan_view(plan).labels =~= Seq::<(Seq<char>, Seq<char>)>::empty());
    assert(views(plan.arguments->Some_0@) =~= Seq::<Seq<char>>::empty());
    plan
}

/// The group of a Magnolia cohort.
pub open spec fn magnolia_cohort_plan(role: Seq<char>, source: MagnoliaSource) -> GroupPlanView {
    magnolia_plan(
        "magnolia-"@ + role,
        seq![("demo.updated.dev/kind"@, "magnolia"@), ("demo.updated.dev/role"@, role)],
        source,
    )
}

/// The group of the machine outside the cluster.
pub open spec fn manual_plan(source: MagnoliaSource) -> GroupPlanView {
    magnolia_plan(
        MAGNOLIA_MANUAL_GROUP@,
        seq![("demo.updated.dev/cohort"@, DEMO_EXTERNAL_VM_COHORT@)],
        source,
    )
}

/// The groups of the Magnolia cohorts, and of the machine outside the cluster; none where Magnolia
/// is not published.
pub open spec fn magnolia_plans(source: Option<MagnoliaSource>) -> Seq<GroupPlanView> {
    match source {
        Some(source) => Seq::new(
            magnolia_table().len(),
            |i: int| magnolia_cohort_plan(magnolia_table()[i].0, source),
        ).push(manual_plan(source)),
        None => Seq::empty(),
    }
}

/// The groups of the Magnolia cohorts, and of the machine outside the cluster; none where Magnolia
/// is not published.
pub fn plan_magnolia_groups(source: &Option<MagnoliaSource>) -> (result: Vec<GroupPlan>)
    ensures
        group_plan_views(result@) == magnolia_plans(*source),
{
    let mut result: Vec<GroupPlan> = Vec::new();
    match source {
        Some(source) => {
            let cohorts = magnolia_cohorts();
            let mut index: usize = 0;
            while index < cohorts.len()
                invariant
                    index <= cohorts.len(),
                    cohorts@.len() == magnolia_table().len(),
                    forall|i: int|
                        0 <= i < cohorts@.len() ==> magnolia_row(#[trigger] cohorts@[i])
                            == magnolia_table()[i],
                    result@.len() == index,
                    forall|i: int|
                        0 <= i < index ==> group_plan_view(#[trigger] result@[i])
                            == magnolia_cohort_plan(magnolia_table()[i].0, *source),
                decreases cohorts.len() - index,
            {
                assert(magnolia_row(cohorts@[index as int]) == magnolia_table()[index as int]);
                let role = cohorts[index].role;
                let mut name = String::from_str("magnolia-");
                name.append(role);
                let selector = vec![
                    label("demo.updated.dev/kind", "magnolia"),
                    label("demo.updated.dev/role", role),
                ];
                assert(pairs(selector@) =~= seq![
                    ("demo.updated.dev/kind"@, "magnolia"@),
                    ("demo.updated.dev/role"@, role@),
                ]);
                result.push(plan_magnolia_group(name.as_str(), selector, source));
                index = index + 1;
            }
            let selector = vec![label("demo.updated.dev/cohort", DEMO_EXTERNAL_VM_COHORT)];
            assert(pairs(selector@) =~= seq![
                ("demo.updated.dev/cohort"@, DEMO_EXTERNAL_VM_COHORT@),
            ]);
            result.push(plan_magnolia_group(MAGNOLIA_MANUAL_GROUP, selector, source));
        },
        None => {},
    }
    assert(group_plan_views(result@) =~= magnolia_plans(*source));
    result
}

/// The group of the load balancers, at their first version.
pub open spec fn haproxy_plan(root: Seq<char>, release: HaproxyRelease) -> GroupPlanView {
    GroupPlanView {
        name: DEMO_HAPROXY_GROUP@,
        labels: Seq::empty(),
        selector: seq![("demo.updated.dev/cohort"@, DEMO_HAPROXY_COHORT@)],
        deployment: deployment_identity(DEMO_HAPROXY_GROUP@, DEMO_HAPROXY_V1@),
        application: (release.v1_path@, release.v1_sha@),
        provider_set: (release.provider_path@, release.provider_sha@),
        release_root: Some(root),
        report_url: DEMO_REPORT_URL@,
        ordered_install_fallback: false,
        product: Some("haproxy"@),
        mode: Some("managed"@),
        arguments: Some(Seq::empty()),
        install_root: Some("/var/lib/updated/haproxy"@),
        timeouts: haproxy_cadence(),
    }
}

/// The group of the load balancers, at their first version.
pub fn plan_haproxy_group(root: &str, release: &HaproxyRelease) -> (result: GroupPlan)
    ensures
        group_plan_view(result) == haproxy_plan(root@, *release),
{
    let plan = GroupPlan {
        name: DEMO_HAPROXY_GROUP.to_owned(),
        labels: Vec::new(),
        selector: vec![label("demo.updated.dev/cohort", DEMO_HAPROXY_COHORT)],
        deployment: write_identity(DEMO_HAPROXY_GROUP, DEMO_HAPROXY_V1),
        application: target(release.v1_path.as_str(), release.v1_sha.as_str()),
        provider_set: target(release.provider_path.as_str(), release.provider_sha.as_str()),
        release_root: Some(root.to_owned()),
        report_url: DEMO_REPORT_URL,
        ordered_install_fallback: false,
        product: Some("haproxy"),
        mode: Some("managed"),
        arguments: Some(Vec::new()),
        install_root: Some("/var/lib/updated/haproxy"),
        timeouts: use_haproxy_cadence(),
    };
    assert(group_plan_view(plan).labels =~= Seq::<(Seq<char>, Seq<char>)>::empty());
    assert(views(plan.arguments->Some_0@) =~= Seq::<Seq<char>>::empty());
    assert(group_plan_view(plan).selector =~= seq![
        ("demo.updated.dev/cohort"@, DEMO_HAPROXY_COHORT@),
    ]);
    plan
}

// ----- throttle sets -----

/// The throttle set of a display set.
pub open spec fn display_set_plan(set: nat) -> SetPlanView {
    SetPlanView {
        name: set_name_text(set),
        selector: seq![(SET_LABEL@, set_name_text(set))],
        max_concurrent: None,
    }
}

/// The throttle set over the whole fleet.
pub open spec fn fleet_set_plan() -> SetPlanView {
    SetPlanView {
        name: DEMO_FLEET_SET@,
        selector: seq![(DEMO_FLEET_LABEL@, DEMO_FLEET_VALUE@)],
        max_concurrent: Some(DEMO_FLEET_CONCURRENCY),
    }
}

/// The throttle sets: one for each display set, and one over the whole fleet.
pub fn plan_sets() -> (result: Vec<SetPlan>)
    ensures
        set_plan_views(result@) == Seq::new(
            DEMO_SET_COUNT as nat,
            |i: int| display_set_plan(i as nat),
        ).push(fleet_set_plan()),
{
    let mut result: Vec<SetPlan> = Vec::new();
    let mut set: usize = 0;
    while set < DEMO_SET_COUNT
        invariant
            set <= DEMO_SET_COUNT,
            result@.len() == set,
            forall|i: int|
                0 <= i < set ==> set_plan_view(#[trigger] result@[i]) == display_set_plan(i as nat),
        decreases DEMO_SET_COUNT - set,
    {
        let name = set_name(set);
        result.push(plan_set(name.as_str(), SET_LABEL, name.as_str(), None));
        set = set + 1;
    }
    result.push(
        plan_set(DEMO_FLEET_SET, DEMO_FLEET_LABEL, DEMO_FLEET_VALUE, Some(DEMO_FLEET_CONCURRENCY)),
    );
    assert(set_plan_views(result@) =~= Seq::new(
        DEMO_SET_COUNT as nat,
        |i: int| display_set_plan(i as nat),
    ).push(fleet_set_plan()));
    result
}

/// Every cohort's group is in exactly one display set, and in the fleet's set.
pub proof fn cohort_groups_are_throttled_twice(index: nat, set: nat)
    ensures
        is_selected(cohort_group_labels(index), display_set_plan(set).selector) <==> set == index
            / DEMO_GROUPS_PER_SET as nat,
        is_selected(cohort_group_labels(index), fleet_set_plan().selector),
{
    let labels = cohort_group_labels(index);
    let own = index / DEMO_GROUPS_PER_SET as nat;
    let selector = display_set_plan(set).selector;
    reveal_strlit("demo.updated.dev/fleet");
    reveal_strlit("demo.updated.dev/set");
    assert(DEMO_FLEET_LABEL@.len() == 22);
    assert(SET_LABEL@.len() == 20);
    assert(labels[0] == (DEMO_FLEET_LABEL@, DEMO_FLEET_VALUE@));
    assert(labels[1] == (SET_LABEL@, set_name_text(own)));
    if set == own {
        assert(labels.contains(selector[0]));
    } else {
        names_are_distinct(set, own);
        assert(selector[0] == (SET_LABEL@, set_name_text(set)));
        assert(!labels.contains(selector[0]));
    }
}

/// A group without labels is in no throttle set.
pub proof fn unlabelled_groups_are_not_throttled(set: nat)
    ensures
        !is_selected(Seq::empty(), display_set_plan(set).selector),
        !is_selected(Seq::empty(), fleet_set_plan().selector),
{
    let none = Seq::<(Seq<char>, Seq<char>)>::empty();
    let first = display_set_plan(set).selector;
    let second = fleet_set_plan().selector;
    assert(!none.contains(first[0]));
    assert(!none.contains(second[0]));
}

// ----- services and routes -----

/// The service in front of a display set's pods.
pub open spec fn set_service_plan(set: nat) -> (Seq<char>, Seq<(Seq<char>, Seq<char>)>) {
    (set_service_text(set), seq![("app"@, "updated-agent"@), (SET_LABEL@, set_name_text(set))])
}

/// The service in front of the agents outside the sets: it selects nothing.
pub open spec fn external_service_plan() -> (Seq<char>, Seq<(Seq<char>, Seq<char>)>) {
    (DEMO_EXTERNAL_SERVICE@, Seq::empty())
}

/// The services: one for each display set, and one for the agents outside them.
pub fn plan_services() -> (result: Vec<ServicePlan>)
    ensures
        service_plan_views(result@) == Seq::new(
            DEMO_SET_COUNT as nat,
            |i: int| set_service_plan(i as nat),
        ).push(external_service_plan()),
{
    let mut result: Vec<ServicePlan> = Vec::new();
    let mut set: usize = 0;
    while set < DEMO_SET_COUNT
        invariant
            set <= DEMO_SET_COUNT,
            result@.len() == set,
            forall|i: int|
                0 <= i < set ==> service_plan_view(#[trigger] result@[i]) == set_service_plan(
                    i as nat,
                ),
        decreases DEMO_SET_COUNT - set,
    {
        let name = set_service_name(set);
        let value = set_name(set);
        result.push(plan_service(name.as_str(), SET_LABEL, value.as_str()));
        set = set + 1;
    }
    result.push(plan_bare_service(DEMO_EXTERNAL_SERVICE));
    assert(service_plan_views(result@) =~= Seq::new(
        DEMO_SET_COUNT as nat,
        |i: int| set_service_plan(i as nat),
    ).push(external_service_plan()));
    result
}

/// A route into the cluster: a path, and the service that answers for it.
pub struct Route {
    pub path: String,
    pub service: String,
}

/// A route as its path and service.
pub open spec fn route_view(route: Route) -> (Seq<char>, Seq<char>) {
    (route.path@, route.service@)
}

/// Some routes as their paths and services.
pub open spec fn route_views(routes: Seq<Route>) -> Seq<(Seq<char>, Seq<char>)> {
    Seq::new(routes.len(), |i: int| route_view(routes[i]))
}

/// The route to a display set.
pub open spec fn set_route(set: nat) -> (Seq<char>, Seq<char>) {
    ("/set-"@ + decimal_digits(set) + "(/|$)(.*)"@, set_service_text(set))
}

/// The route to the agents outside the sets.
pub open spec fn external_route() -> (Seq<char>, Seq<char>) {
    ("/external(/|$)(.*)"@, DEMO_EXTERNAL_SERVICE@)
}

/// The routes: one to each display set, and one to the agents outside them.
pub fn plan_routes() -> (result: Vec<Route>)
    ensures
        route_views(result@) == Seq::new(DEMO_SET_COUNT as nat, |i: int| set_route(i as nat)).push(
            external_route(),
        ),
{
    let mut result: Vec<Route> = Vec::new();
    let mut set: usize = 0;
    while set < DEMO_SET_COUNT
        invariant
            set <= DEMO_SET_COUNT,
            result@.len() == set,
            forall|i: int|
                0 <= i < set ==> route_view(#[trigger] result@[i]) == set_route(i as nat),
        decreases DEMO_SET_COUNT - set,
    {
        let mut path = String::from_str("/set-");
        path.append(decimal(set as u64).as_str());
        path.append("(/|$)(.*)");
        result.push(Route { path, service: set_service_name(set) });
        set = set + 1;
    }
    result.push(
        Route {
            path: "/external(/|$)(.*)".to_owned(),
            service: DEMO_EXTERNAL_SERVICE.to_owned(),
        },
    );
    assert(route_views(result@) =~= Seq::new(
        DEMO_SET_COUNT as nat,
        |i: int| set_route(i as nat),
    ).push(external_route()));
    result
}

/// Every route leads to a service that is there.
pub proof fn routes_lead_to_services(place: int)
    requires
        0 <= place <= DEMO_SET_COUNT,
    ensures
        ({
            let routes = Seq::new(DEMO_SET_COUNT as nat, |i: int| set_route(i as nat)).push(
                external_route(),
            );
            let services = Seq::new(DEMO_SET_COUNT as nat, |i: int| set_service_plan(i as nat)).push(
                external_service_plan(),
            );
            routes[place].1 == services[place].0
        }),
{
}

/// The address that a display set is loaded through.
pub fn load_url(ingress: &str, set: usize) -> (result: String)
    ensures
        result@ == ingress@ + "/set-"@ + decimal_digits(set as nat) + "/version"@,
{
    let mut url = String::from_str(ingress);
    url.append("/set-");
    url.append(decimal(set as u64).as_str());
    url.append("/version");
    url
}

// ----- what the groups run -----

/// A cohort's group selects the nodes of the cohort, and rolls the release that was published for the
/// fleet, with its reconciler, from its repository.
pub proof fn cohort_groups_roll_what_was_published(index: nat, source: FleetSource)
    ensures
        ({
            let plan = cohort_plan(index, source);
            &&& plan.name == cohort_group_text(index)
            &&& plan.deployment == cohort_group_text(index)
            &&& plan.selector == seq![("demo.updated.dev/cohort"@, cohort_label_text(index))]
            &&& plan.application == (source.bootstrap.baseline_path@, source.bootstrap.baseline_sha@)
            &&& plan.provider_set == (source.provider_path@, source.bootstrap.provider_sha@)
            &&& plan.release_root == Some(source.bootstrap.release_root@)
            &&& plan.report_url == DEMO_REPORT_URL@
            &&& plan.ordered_install_fallback
            &&& plan.product is None && plan.mode is None && plan.arguments is None
            &&& plan.install_root is None
            &&& plan.timeouts.check_interval == 1 && plan.timeouts.health_grace == 8
            &&& plan.timeouts.confirmation_window == 3
            &&& plan.timeouts.drain_hold == Some(4u64)
            &&& plan.timeouts.supervisor_check_interval == Some(3600u64)
        }),
{
}

/// A Magnolia group selects the nodes of its role only, is in no set and keeps the repository of the
/// template; its nodes are given minutes to install. The machine's group selects the machine only.
pub proof fn magnolia_groups_select_their_role(
    role: Seq<char>,
    other: Seq<char>,
    ordinal: nat,
    source: MagnoliaSource,
)
    ensures
        ({
            let plan = magnolia_cohort_plan(role, source);
            let manual = manual_plan(source);
            let labels = crate::demo::enrollment::magnolia_labels(other, ordinal).changes;
            &&& plan.name == "magnolia-"@ + role
            &&& plan.deployment == plan.name
            &&& plan.labels.len() == 0 && manual.labels.len() == 0
            &&& plan.release_root is None && manual.release_root is None
            &&& plan.application == target_view(source.application)
            &&& plan.provider_set == target_view(source.provider_set)
            &&& manual.application == target_view(source.application)
            &&& plan.product == Some("magnolia"@) && plan.mode == Some("managed"@)
            &&& plan.timeouts.health_grace == 360 && plan.timeouts.check_interval == 5
            &&& plan.timeouts.drain_hold is None
            &&& !plan.ordered_install_fallback && !manual.ordered_install_fallback
            &&& plan.report_url == DEMO_REPORT_URL@ && manual.report_url == DEMO_REPORT_URL@
            &&& plan.arguments == Some(Seq::<Seq<char>>::empty())
            &&& plan.install_root is None && manual.install_root is None
            &&& (forall|i: int|
                0 <= i < plan.selector.len() ==> crate::enrollment::patched_label(
                    labels,
                    (#[trigger] plan.selector[i]).0,
                ) == Some(plan.selector[i].1)) <==> role == other
            &&& manual.selector == seq![("demo.updated.dev/cohort"@, DEMO_EXTERNAL_VM_COHORT@)]
        }),
{
    let plan = magnolia_cohort_plan(role, source);
    let labels = crate::demo::enrollment::magnolia_labels(other, ordinal).changes;
    crate::demo::enrollment::labels_say_what_a_node_is(ordinal, Seq::empty(), other);
    assert(plan.selector[0] == ("demo.updated.dev/kind"@, "magnolia"@));
    assert(plan.selector[1] == ("demo.updated.dev/role"@, role));
    assert(crate::enrollment::patched_label(labels, plan.selector[1].0) == Some(other));
    assert(crate::enrollment::patched_label(labels, plan.selector[0].0) == Some("magnolia"@));
}

/// The groups of Magnolia are those of its cohorts, in order, and the machine's; there is none where
/// Magnolia is not published.
pub proof fn magnolia_is_planned_where_it_is_published(source: MagnoliaSource, place: int)
    requires
        0 <= place < magnolia_table().len(),
    ensures
        magnolia_plans(None).len() == 0,
        magnolia_plans(Some(source)).len() == magnolia_table().len() + 1,
        magnolia_plans(Some(source))[place] == magnolia_cohort_plan(
            magnolia_table()[place].0,
            source,
        ),
        magnolia_plans(Some(source)).last() == manual_plan(source),
{
}

/// The load balancers are planned at their first release, under the identity of that release.
pub proof fn load_balancers_start_at_their_first_release(root: Seq<char>, release: HaproxyRelease)
    ensures
        ({
            let plan = haproxy_plan(root, release);
            &&& plan.name == DEMO_HAPROXY_GROUP@
            &&& plan.deployment == DEMO_HAPROXY_GROUP@ + "@"@ + DEMO_HAPROXY_V1@
            &&& plan.application == (release.v1_path@, release.v1_sha@)
            &&& plan.provider_set == (release.provider_path@, release.provider_sha@)
            &&& plan.release_root == Some(root)
            &&& plan.selector == seq![("demo.updated.dev/cohort"@, DEMO_HAPROXY_COHORT@)]
            &&& plan.labels.len() == 0
            &&& plan.product == Some("haproxy"@) && plan.mode == Some("managed"@)
            &&& plan.install_root == Some("/var/lib/updated/haproxy"@)
            &&& plan.arguments == Some(Seq::<Seq<char>>::empty())
            &&& plan.report_url == DEMO_REPORT_URL@
            &&& !plan.ordered_install_fallback
            &&& plan.timeouts.retry_after == Some(2u64) && plan.timeouts.health_grace == 12
        }),
{
}

/// Different display sets have different routes and services, and a set's service selects the pods of
/// that set.
pub proof fn routes_tell_sets_apart(left: nat, right: nat)
    requires
        left != right,
    ensures
        set_route(left).0 != set_route(right).0,
        set_route(left).1 != set_route(right).1,
        set_service_plan(left).0 != set_service_plan(right).0,
        set_service_plan(left).1 == seq![
            ("app"@, "updated-agent"@),
            (SET_LABEL@, set_name_text(left)),
        ],
        external_service_plan().1.len() == 0,
        display_set_plan(left).max_concurrent is None,
        fleet_set_plan().max_concurrent == Some(DEMO_FLEET_CONCURRENCY),
{
    names_are_distinct(left, right);
    let first = set_route(left).0;
    let second = set_route(right).0;
    if first == second {
        let a = decimal_digits(left);
        let b = decimal_digits(right);
        reveal_strlit("/set-");
        reveal_strlit("(/|$)(.*)");
        assert("/set-"@.len() == 5 && "(/|$)(.*)"@.len() == 9);
        assert(first.len() == 14 + a.len() && second.len() == 14 + b.len());
        assert(a =~= first.subrange(5, 5 + a.len() as int));
        assert(b =~= second.subrange(5, 5 + b.len() as int));
        crate::text::decimal_is_injective(left, right);
    }
}

/// Cohorts and load balancers ask every second what to run and whether it is healthy, and an upgrade
/// is confirmed after three. Magnolia nodes ask every five seconds, and have six minutes to become
/// healthy. One success makes a node healthy, and a supervisor looks after itself once an hour. Only
/// a cohort holds a drain, and only a load balancer has its own time to try again.
pub proof fn cadences_fit_what_is_installed()
    ensures
        fast_cadence().check_interval == fast_cadence().health_interval
            == fast_cadence().refresh_retry == 1,
        haproxy_cadence().check_interval == haproxy_cadence().health_interval
            == haproxy_cadence().refresh_retry == 1,
        magnolia_cadence().check_interval == magnolia_cadence().refresh_retry == 5,
        magnolia_cadence().health_interval == 3,
        fast_cadence().confirmation_window == haproxy_cadence().confirmation_window == 3,
        magnolia_cadence().confirmation_window == 2 * magnolia_cadence().check_interval,
        fast_cadence().health_grace == 8,
        haproxy_cadence().health_grace == 12,
        magnolia_cadence().health_grace == 6 * 60,
        fast_cadence().health_successes == magnolia_cadence().health_successes
            == haproxy_cadence().health_successes == 1,
        fast_cadence().supervisor_check_interval == Some(3600u64),
        magnolia_cadence().supervisor_check_interval == fast_cadence().supervisor_check_interval,
        haproxy_cadence().supervisor_check_interval == fast_cadence().supervisor_check_interval,
        fast_cadence().drain_hold == Some(4u64),
        magnolia_cadence().drain_hold is None && haproxy_cadence().drain_hold is None,
        haproxy_cadence().retry_after == Some(2u64),
        magnolia_cadence().retry_after is None && fast_cadence().retry_after is None,
{
}

} // verus!
