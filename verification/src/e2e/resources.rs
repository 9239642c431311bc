//! The resources that the end-to-end fleet is made of: its groups, throttle sets and services.

use crate::documents::{
    add_resource, add_resources, read_group, service_documents, service_values, template_fault,
};
use crate::e2e::deployment::{
    group_set_of, group_set_resource, group_set_views, is_scoped, GroupSetSpec, GroupSetView,
    RegressionResponse,
};
use crate::e2e::enrollment::{jenkins_group, write_jenkins_group};
use crate::e2e::fixture::{fleet_baseline_graph, is_graph, rebased, ReleaseGraph};
use crate::e2e::groups::{
    fleet_document, fleet_documents, fleet_group_on, fleet_groups_on, fleet_source, set_documents,
    set_values, FleetSourceView,
};
use crate::e2e::layout::{
    cohort_group, cohort_group_text, cohort_label, cohort_label_text, cohort_set_index,
    jenkins_cohorts, jenkins_table, names_are_distinct, set_name, set_name_text,
    set_service_name, set_service_text, COHORT_COUNT, COHORT_LABEL, EXTERNAL_COHORT,
    EXTERNAL_SERVICE, FLEET_CONCURRENCY, FLEET_LABEL, FLEET_SET, FLEET_VALUE, GROUPS_PER_SET,
    KIND_LABEL, ROLE_LABEL, SET_COUNT, SET_LABEL,
};
use crate::json::{parsed_json, value_contents, JsonView};
use crate::labels::Label;
use crate::resources::{
    is_selected, label, pairs, plan_bare_service, plan_service, service_plan_view,
    service_plan_views, target, target_view, ServicePlan, TargetReference, Timeouts,
};
use crate::text::{trim, trimmed};
use serde_json::Value;
use vstd::prelude::*;

verus! {

// ----- groups -----

/// The cadence of the cohorts: fast, so that the fleet reacts within a second or two.
pub open spec fn fleet_cadence() -> Timeouts {
    Timeouts {
        check_interval: 1,
        health_grace: 8,
        health_successes: 1,
        health_interval: 1,
        retry_after: None,
        refresh_retry: 1,
        confirmation_window: 3,
        supervisor_check_interval: None,
        drain_hold: None,
    }
}

fn use_fleet_cadence() -> (result: Timeouts)
    ensures
        result == fleet_cadence(),
{
    Timeouts {
        check_interval: 1,
        health_grace: 8,
        health_successes: 1,
        health_interval: 1,
        retry_after: None,
        refresh_retry: 1,
        confirmation_window: 3,
        supervisor_check_interval: None,
        drain_hold: None,
    }
}

/// The cadence of the Jenkins nodes, whose first installation takes minutes.
pub open spec fn jenkins_cadence() -> Timeouts {
    Timeouts {
        check_interval: 5,
        health_grace: 360,
        health_successes: 1,
        health_interval: 3,
        retry_after: None,
        refresh_retry: 5,
        confirmation_window: 10,
        supervisor_check_interval: None,
        drain_hold: None,
    }
}

fn use_jenkins_cadence() -> (result: Timeouts)
    ensures
        result == jenkins_cadence(),
{
    Timeouts {
        check_interval: 5,
        health_grace: 360,
        health_successes: 1,
        health_interval: 3,
        retry_after: None,
        refresh_retry: 5,
        confirmation_window: 10,
        supervisor_check_interval: None,
        drain_hold: None,
    }
}

/// What a group runs.
pub enum Application {
    /// The sample application, from the fleet's own repository, as the baseline graph says.
    Baseline,
    /// One release of a product, from the repository that the small fleet uses.
    Sole(SoleRelease),
}

/// A graph of one release, which is its target, and the product that it is a release of.
pub struct SoleRelease {
    pub product: &'static str,
    pub version: &'static str,
    pub package: TargetReference,
    pub installable: bool,
}

/// What a group runs.
pub enum ApplicationView {
    Baseline,
    Sole { product: Seq<char>, version: Seq<char>, package: (Seq<char>, Seq<char>), installable: bool },
}

/// What a group runs.
pub open spec fn application_view(application: Application) -> ApplicationView {
    match application {
        Application::Baseline => ApplicationView::Baseline,
        Application::Sole(release) => ApplicationView::Sole {
            product: release.product@,
            version: release.version@,
            package: target_view(release.package),
            installable: release.installable,
        },
    }
}

/// A group: the labels it carries, the nodes it selects, and what they run how often.
pub struct FleetGroup {
    pub name: String,
    pub labels: Vec<Label>,
    pub selector: Vec<Label>,
    pub application: Application,
    pub timeouts: Timeouts,
}

/// A group.
#[verifier::ext_equal]
pub struct FleetGroupView {
    pub name: Seq<char>,
    pub labels: Seq<(Seq<char>, Seq<char>)>,
    pub selector: Seq<(Seq<char>, Seq<char>)>,
    pub application: ApplicationView,
    pub timeouts: Timeouts,
}

/// What a group says.
pub open spec fn fleet_group_view(group: FleetGroup) -> FleetGroupView {
    FleetGroupView {
        name: group.name@,
        labels: pairs(group.labels@),
        selector: pairs(group.selector@),
        application: application_view(group.application),
        timeouts: group.timeouts,
    }
}

/// What some groups say.
pub open spec fn fleet_group_views(groups: Seq<FleetGroup>) -> Seq<FleetGroupView> {
    Seq::new(groups.len(), |i: int| fleet_group_view(groups[i]))
}

/// The labels of a cohort's group: the fleet's, and its set's.
pub open spec fn cohort_group_labels(index: nat) -> Seq<(Seq<char>, Seq<char>)> {
    seq![
        (FLEET_LABEL@, FLEET_VALUE@),
        (SET_LABEL@, set_name_text(index / GROUPS_PER_SET as nat)),
    ]
}

/// A group of the sample application.
pub open spec fn sample_group(
    name: Seq<char>,
    labels: Seq<(Seq<char>, Seq<char>)>,
    cohort: Seq<char>,
) -> FleetGroupView {
    FleetGroupView {
        name,
        labels,
        selector: seq![(COHORT_LABEL@, cohort)],
        application: ApplicationView::Baseline,
        timeouts: fleet_cadence(),
    }
}

/// A cohort's group.
pub open spec fn cohort_plan(index: nat) -> FleetGroupView {
    sample_group(cohort_group_text(index), cohort_group_labels(index), cohort_label_text(index))
}

/// The group outside the sets. It carries no labels, and so is throttled by nothing.
pub open spec fn external_plan() -> FleetGroupView {
    sample_group(EXTERNAL_COHORT@, Seq::empty(), EXTERNAL_COHORT@)
}

fn plan_sample_group(name: &str, labels: Vec<Label>, cohort: &str) -> (result: FleetGroup)
    ensures
        fleet_group_view(result) == sample_group(name@, pairs(labels@), cohort@),
{
    let group = FleetGroup {
        name: name.to_owned(),
        labels,
        selector: vec![label(COHORT_LABEL, cohort)],
        application: Application::Baseline,
        timeouts: use_fleet_cadence(),
    };
    assert(pairs(group.selector@) =~= seq![(COHORT_LABEL@, cohort@)]);
    group
}

fn plan_cohort_group(index: usize) -> (result: FleetGroup)
    ensures
        fleet_group_view(result) == cohort_plan(index as nat),
{
    let set = set_name(cohort_set_index(index));
    let labels: Vec<Label> = vec![
        label(FLEET_LABEL, FLEET_VALUE),
        label(SET_LABEL, set.as_str()),
    ];
    assert(pairs(labels@) =~= cohort_group_labels(index as nat));
    plan_sample_group(cohort_group(index).as_str(), labels, cohort_label(index).as_str())
}

/// The group of a Jenkins role.
pub open spec fn jenkins_plan(role: Seq<char>, package: (Seq<char>, Seq<char>)) -> FleetGroupView {
    FleetGroupView {
        name: jenkins_group(role),
        labels: Seq::empty(),
        selector: seq![(KIND_LABEL@, "jenkins"@), (ROLE_LABEL@, role)],
        application: ApplicationView::Sole {
            product: "jenkins"@,
            version: "1.0.0"@,
            package,
            installable: true,
        },
        timeouts: jenkins_cadence(),
    }
}

fn plan_jenkins_group(role: &str, package: TargetReference) -> (result: FleetGroup)
    ensures
        fleet_group_view(result) == jenkins_plan(role@, target_view(package)),
{
    let group = FleetGroup {
        name: write_jenkins_group(role),
        labels: Vec::new(),
        selector: vec![label(KIND_LABEL, "jenkins"), label(ROLE_LABEL, role)],
        application: Application::Sole(
            SoleRelease { product: "jenkins", version: "1.0.0", package, installable: true },
        ),
        timeouts: use_jenkins_cadence(),
    };
    assert(pairs(group.labels@) =~= Seq::<(Seq<char>, Seq<char>)>::empty());
    assert(pairs(group.selector@) =~= seq![(KIND_LABEL@, "jenkins"@), (ROLE_LABEL@, role@)]);
    group
}

/// The groups: one for each cohort, and one for each Jenkins role.
pub open spec fn group_plans(jenkins: (Seq<char>, Seq<char>)) -> Seq<FleetGroupView> {
    Seq::new(COHORT_COUNT as nat, |i: int| cohort_plan(i as nat)) + Seq::new(
        jenkins_table().len(),
        |i: int| jenkins_plan(jenkins_table()[i].0, jenkins),
    )
}

fn plan_groups(path: &str, sha: &str) -> (result: Vec<FleetGroup>)
    ensures
        fleet_group_views(result@) == group_plans((path@, trimmed(sha@))),
{
    let digest = trim(sha);
    let cohorts = jenkins_cohorts();
    let ghost table = jenkins_table();
    let mut result: Vec<FleetGroup> = Vec::new();
    let mut index: usize = 0;
    while index < COHORT_COUNT
        invariant
            index <= COHORT_COUNT,
            result@.len() == index,
            forall|i: int|
                0 <= i < index ==> fleet_group_view(#[trigger] result@[i]) == cohort_plan(i as nat),
        decreases COHORT_COUNT - index,
    {
        result.push(plan_cohort_group(index));
        index = index + 1;
    }
    let mut role: usize = 0;
    while role < cohorts.len()
        invariant
            role <= cohorts.len(),
            cohorts@.len() == table.len(),
            table == jenkins_table(),
            digest@ == trimmed(sha@),
            forall|i: int|
                0 <= i < cohorts@.len() ==> (cohorts@[i].0@, (#[trigger] cohorts@[i]).1 as int)
                    == table[i],
            result@.len() == COHORT_COUNT + role,
            forall|i: int|
                0 <= i < COHORT_COUNT ==> fleet_group_view(#[trigger] result@[i]) == cohort_plan(
                    i as nat,
                ),
            forall|i: int|
                COHORT_COUNT <= i < COHORT_COUNT + role ==> fleet_group_view(#[trigger] result@[i])
                    == jenkins_plan(table[i - COHORT_COUNT].0, (path@, digest@)),
        decreases cohorts.len() - role,
    {
        assert((cohorts@[role as int].0@, cohorts@[role as int].1 as int) == table[role as int]);
        let (name, _) = cohorts[role];
        result.push(plan_jenkins_group(name, target(path, digest)));
        role = role + 1;
    }
    assert(fleet_group_views(result@) =~= group_plans((path@, trimmed(sha@))));
    result
}

// ----- throttle sets and services -----

/// The throttle set of a set: it never lets all its groups roll at once.
pub open spec fn throttle_plan(set: nat) -> GroupSetView {
    group_set_of(set_name_text(set), seq![(SET_LABEL@, set_name_text(set))], None)
}

/// The throttle set over the whole fleet.
pub open spec fn fleet_throttle_plan() -> GroupSetView {
    group_set_of(FLEET_SET@, seq![(FLEET_LABEL@, FLEET_VALUE@)], Some(FLEET_CONCURRENCY))
}

/// The throttle sets: one for each set, and one over the whole fleet.
pub open spec fn throttle_plans() -> Seq<GroupSetView> {
    Seq::new(SET_COUNT as nat, |i: int| throttle_plan(i as nat)).push(fleet_throttle_plan())
}

/// The throttle set of what carries one label.
fn plan_set(name: &str, key: &str, value: &str, max_concurrent: Option<u32>) -> (result: GroupSetSpec)
    ensures
        result@ == group_set_of(name@, seq![(key@, value@)], max_concurrent),
{
    let selector = vec![label(key, value)];
    assert(pairs(selector@) =~= seq![(key@, value@)]);
    group_set_resource(name, selector, max_concurrent)
}

fn plan_sets() -> (result: Vec<GroupSetSpec>)
    ensures
        group_set_views(result@) == throttle_plans(),
{
    let mut result: Vec<GroupSetSpec> = Vec::new();
    let mut set: usize = 0;
    while set < SET_COUNT
        invariant
            set <= SET_COUNT,
            result@.len() == set,
            forall|i: int| 0 <= i < set ==> (#[trigger] result@[i])@ == throttle_plan(i as nat),
        decreases SET_COUNT - set,
    {
        let name = set_name(set);
        result.push(plan_set(name.as_str(), SET_LABEL, name.as_str(), None));
        set = set + 1;
    }
    result.push(plan_set(FLEET_SET, FLEET_LABEL, FLEET_VALUE, Some(FLEET_CONCURRENCY)));
    assert(group_set_views(result@) =~= throttle_plans());
    result
}

/// Every throttle set belongs to the repository that the fleet is assigned from, and halts at a
/// regression.
pub proof fn every_set_is_scoped(place: int)
    requires
        0 <= place < throttle_plans().len(),
    ensures
        is_scoped(throttle_plans()[place]),
        throttle_plans()[place].on_regression == RegressionResponse::Halt,
{
}

/// The services: one in front of each set's pods, and one that selects nothing.
pub open spec fn service_plans() -> Seq<(Seq<char>, Seq<(Seq<char>, Seq<char>)>)> {
    Seq::new(
        SET_COUNT as nat,
        |i: int|
            (
                set_service_text(i as nat),
                seq![("app"@, "updated-agent"@), (SET_LABEL@, set_name_text(i as nat))],
            ),
    ).push((EXTERNAL_SERVICE@, Seq::empty()))
}

fn plan_services() -> (result: Vec<ServicePlan>)
    ensures
        service_plan_views(result@) == service_plans(),
{
    let mut result: Vec<ServicePlan> = Vec::new();
    let mut set: usize = 0;
    while set < SET_COUNT
        invariant
            set <= SET_COUNT,
            result@.len() == set,
            forall|i: int|
                0 <= i < set ==> service_plan_view(#[trigger] result@[i]) == (
                    set_service_text(i as nat),
                    seq![("app"@, "updated-agent"@), (SET_LABEL@, set_name_text(i as nat))],
                ),
        decreases SET_COUNT - set,
    {
        let name = set_service_name(set);
        let value = set_name(set);
        result.push(plan_service(name.as_str(), SET_LABEL, value.as_str()));
        set = set + 1;
    }
    result.push(plan_bare_service(EXTERNAL_SERVICE));
    assert(service_plan_views(result@) =~= service_plans());
    result
}

// ----- everything -----

/// Everything that the fleet is made of.
pub struct FleetResources {
    /// What the sample application's groups run.
    pub baseline: ReleaseGraph,
    /// What is applied, in order.
    pub items: Vec<Value>,
}

/// Everything that the fleet is made of, in the order in which it is applied, on the template of a
/// group.
pub open spec fn fleet_items(
    group: JsonView,
    source: FleetSourceView,
    jenkins: (Seq<char>, Seq<char>),
) -> Seq<JsonView> {
    (fleet_documents(group, source, group_plans(jenkins)) + set_documents(throttle_plans())).push(
        fleet_document(group, source, external_plan()),
    ) + service_documents(service_plans())
}

/// Plans everything that the fleet is made of, from a printed group that serves as the template, the
/// releases that the small fleet runs, the published baseline and its repository's root, and the
/// package of Jenkins.
pub fn apply_resources(
    edge: &str,
    bootstrap: &ReleaseGraph,
    baseline: TargetReference,
    release_root: &str,
    jenkins_path: &str,
    jenkins_sha: &str,
) -> (result: Result<FleetResources, String>)
    requires
        is_graph(*bootstrap),
    ensures
        match (result, parsed_json(edge@)) {
            (Ok(found), Ok(group)) => template_fault(group) is None && is_graph(found.baseline)
                && found.baseline@ == rebased(bootstrap@, target_view(baseline)) && value_contents(
                found.items@,
            ) == fleet_items(
                group,
                fleet_source(found.baseline, release_root@),
                (jenkins_path@, trimmed(jenkins_sha@)),
            ),
            (Err(message), Ok(group)) => template_fault(group) == Some(message@),
            (Err(message), Err(fault)) => message@ == fault,
            (Ok(_), Err(_)) => false,
        },
{
    let group = match read_group(edge) {
        Ok(group) => group,
        Err(message) => {
            return Err(message);
        },
    };
    let graph = fleet_baseline_graph(bootstrap, baseline);
    let plans = plan_groups(jenkins_path, jenkins_sha);
    let mut items = match fleet_groups_on(&group, &graph, release_root, &plans) {
        Ok(groups) => groups,
        Err(message) => {
            return Err(message);
        },
    };
    let none: Vec<Label> = Vec::new();
    assert(pairs(none@) =~= Seq::<(Seq<char>, Seq<char>)>::empty());
    let outside = plan_sample_group(EXTERNAL_COHORT, none, EXTERNAL_COHORT);
    let external = match fleet_group_on(&group, &graph, release_root, &outside) {
        Ok(external) => external,
        Err(message) => {
            return Err(message);
        },
    };
    add_resources(&mut items, set_values(&plan_sets()));
    add_resource(&mut items, external);
    add_resources(&mut items, service_values(&plan_services()));
    Ok(FleetResources { baseline: graph, items })
}

/// Every cohort's group is in exactly one throttle set besides the fleet's.
pub proof fn cohort_groups_are_throttled_twice(index: nat, set: nat)
    ensures
        is_selected(cohort_plan(index).labels, throttle_plan(set).selector) <==> set == index
            / GROUPS_PER_SET as nat,
        is_selected(cohort_plan(index).labels, fleet_throttle_plan().selector),
{
    let labels = cohort_group_labels(index);
    let own = index / GROUPS_PER_SET as nat;
    let selector = throttle_plan(set).selector;
    reveal_strlit("e2e.updated.dev/fleet");
    reveal_strlit("e2e.updated.dev/set");
    assert(FLEET_LABEL@.len() == 21);
    assert(SET_LABEL@.len() == 19);
    assert(labels[0] == (FLEET_LABEL@, FLEET_VALUE@));
    assert(labels[1] == (SET_LABEL@, set_name_text(own)));
    if set == own {
        assert(labels.contains(selector[0]));
    } else {
        names_are_distinct(set, own);
        assert(selector[0] == (SET_LABEL@, set_name_text(set)));
        assert(!labels.contains(selector[0]));
    }
}

/// The group outside the sets and the Jenkins groups are in no throttle set.
pub proof fn other_groups_are_not_throttled(
    role: Seq<char>,
    package: (Seq<char>, Seq<char>),
    set: nat,
)
    ensures
        !is_selected(external_plan().labels, throttle_plan(set).selector),
        !is_selected(external_plan().labels, fleet_throttle_plan().selector),
        !is_selected(jenkins_plan(role, package).labels, throttle_plan(set).selector),
        !is_selected(jenkins_plan(role, package).labels, fleet_throttle_plan().selector),
{
    let none = Seq::<(Seq<char>, Seq<char>)>::empty();
    let first = throttle_plan(set).selector;
    let second = fleet_throttle_plan().selector;
    assert(!none.contains(first[0]));
    assert(!none.contains(second[0]));
}

// ----- what the groups run -----

/// A cohort's group selects the nodes of the cohort and runs the baseline, at a cadence at which it reacts
/// within seconds. A Jenkins group selects the nodes of its role, installs the published package, and is
/// given minutes.
pub proof fn groups_select_their_nodes(
    index: nat,
    ordinal: nat,
    role: Seq<char>,
    other: Seq<char>,
    package: (Seq<char>, Seq<char>),
)
    ensures
        ({
            let cohort = cohort_plan(index);
            let jenkins = jenkins_plan(role, package);
            let reserved = crate::e2e::enrollment::jenkins_reservation(other, ordinal).labels;
            &&& cohort.name == cohort_group_text(index)
            &&& cohort.selector == seq![(COHORT_LABEL@, cohort_label_text(index))]
            &&& cohort.application is Baseline
            &&& cohort.timeouts.check_interval == 1 && cohort.timeouts.health_grace == 8
            &&& cohort.timeouts.confirmation_window == 3
            &&& external_plan().labels.len() == 0
            &&& external_plan().selector == seq![(COHORT_LABEL@, EXTERNAL_COHORT@)]
            &&& external_plan().application is Baseline
            &&& jenkins.name == "jenkins-"@ + role
            &&& jenkins.labels.len() == 0
            &&& jenkins.application == (ApplicationView::Sole {
                product: "jenkins"@,
                version: "1.0.0"@,
                package,
                installable: true,
            })
            &&& jenkins.timeouts.health_grace == 360 && jenkins.timeouts.check_interval == 5
            &&& is_selected(reserved, jenkins.selector) <==> role == other
        }),
{
    let jenkins = jenkins_plan(role, package);
    let reserved = crate::e2e::enrollment::jenkins_reservation(other, ordinal).labels;
    assert(jenkins.selector[0] == (KIND_LABEL@, "jenkins"@));
    assert(jenkins.selector[1] == (ROLE_LABEL@, role));
    assert(reserved[1] == (KIND_LABEL@, "jenkins"@));
    assert(reserved[2] == (ROLE_LABEL@, other));
    assert(reserved.contains(reserved[1]) && reserved.contains(reserved[2]));
    reveal_strlit("e2e.updated.dev/node");
    reveal_strlit("e2e.updated.dev/kind");
    reveal_strlit("e2e.updated.dev/role");
    assert(ROLE_LABEL@[16] == 'r' && KIND_LABEL@[16] == 'k' && crate::e2e::layout::NODE_LABEL@[16]
        == 'n');
    if is_selected(reserved, jenkins.selector) {
        assert(reserved.contains(jenkins.selector[1]));
        let at = choose|i: int| 0 <= i < reserved.len() && reserved[i] == jenkins.selector[1];
        assert(at == 2);
    }
    if role == other {
        assert forall|i: int| 0 <= i < jenkins.selector.len() implies reserved.contains(
            #[trigger] jenkins.selector[i],
        ) by {
            assert(jenkins.selector[i] == reserved[i + 1]);
        }
    }
}

/// Everything is applied once and in order: the groups of every cohort and of Jenkins, the throttle sets,
/// the group outside them, and the services.
pub proof fn everything_is_applied_in_order(
    group: JsonView,
    source: FleetSourceView,
    jenkins: (Seq<char>, Seq<char>),
    cohort: int,
    role: int,
    set: int,
)
    requires
        0 <= cohort < COHORT_COUNT,
        0 <= role < jenkins_table().len(),
        0 <= set < SET_COUNT,
    ensures
        ({
            let all = fleet_items(group, source, jenkins);
            let groups = COHORT_COUNT + jenkins_table().len();
            let sets = groups + SET_COUNT + 1;
            &&& all.len() == sets + 1 + SET_COUNT + 1
            &&& all[cohort] == fleet_document(group, source, cohort_plan(cohort as nat))
            &&& all[COHORT_COUNT + role] == fleet_document(
                group,
                source,
                jenkins_plan(jenkins_table()[role].0, jenkins),
            )
            &&& all[groups + set] == crate::e2e::groups::set_document(throttle_plan(set as nat))
            &&& all[groups + SET_COUNT] == crate::e2e::groups::set_document(fleet_throttle_plan())
            &&& all[sets] == fleet_document(group, source, external_plan())
            &&& all[sets + 1 + set] == crate::documents::service_document(
                (
                    set_service_text(set as nat),
                    seq![("app"@, "updated-agent"@), (SET_LABEL@, set_name_text(set as nat))],
                ),
            )
            &&& all[sets + 1 + SET_COUNT] == crate::documents::service_document(
                (EXTERNAL_SERVICE@, Seq::empty()),
            )
        }),
{
    let plans = group_plans(jenkins);
    assert(plans.len() == COHORT_COUNT + jenkins_table().len());
    assert(plans[cohort] == cohort_plan(cohort as nat));
    assert(plans[COHORT_COUNT + role] == jenkins_plan(jenkins_table()[role].0, jenkins));
    assert(throttle_plans().len() == SET_COUNT + 1);
    assert(service_plans().len() == SET_COUNT + 1);
}

/// A set of one display set bounds nothing of its own; the fleet's bounds how many groups roll at once.
pub proof fn the_fleet_is_paced_as_a_whole(set: nat)
    ensures
        throttle_plan(set).name == set_name_text(set),
        throttle_plan(set).max_concurrent is None,
        throttle_plan(set).max_regressions is None,
        fleet_throttle_plan().max_concurrent == Some(FLEET_CONCURRENCY),
        fleet_throttle_plan().selector == seq![(FLEET_LABEL@, FLEET_VALUE@)],
{
}

/// Cohorts ask every second what to run and whether it is healthy; Jenkins nodes ask every five, and
/// have six minutes to become healthy. One success makes a node healthy, and neither holds a drain
/// nor has a time of its own to try again.
pub proof fn cadences_fit_what_is_installed()
    ensures
        fleet_cadence().check_interval == fleet_cadence().health_interval
            == fleet_cadence().refresh_retry == 1,
        fleet_cadence().confirmation_window == 3 && fleet_cadence().health_grace == 8,
        jenkins_cadence().check_interval == jenkins_cadence().refresh_retry == 5,
        jenkins_cadence().health_interval == 3,
        jenkins_cadence().confirmation_window == 2 * jenkins_cadence().check_interval,
        jenkins_cadence().health_grace == 6 * 60,
        fleet_cadence().health_successes == jenkins_cadence().health_successes == 1,
        fleet_cadence().retry_after is None && jenkins_cadence().retry_after is None,
        fleet_cadence().drain_hold is None && jenkins_cadence().drain_hold is None,
        fleet_cadence().supervisor_check_interval is None
            && jenkins_cadence().supervisor_check_interval is None,
{
}

} // verus!
