//! The fleet's resources as documents, its groups on the template of one that is known to be complete.

use crate::documents::{
    copy_template, group_document, group_value, is_kept, labels_document, labels_value, outcome,
    place_document, place_value, read_group, reference_document, reference_value, repository_document, repository_value,
    resource_document, resource_value, resourced, set_natural,
    set_resource_document, set_resource_value, set_runtime, target_document, target_value,
    template_fault, template_in, texts_document, texts_value, tier_document, tier_value,
    timeouts_document, timeouts_value, with_natural, with_runtime, API_VERSION, REPOSITORY,
};
use crate::e2e::deployment::{group_set_views, GroupSetSpec, GroupSetView, RegressionResponse};
use crate::e2e::enrollment::{reserved_view, ReservedAgent, ReservedView};
use crate::e2e::fixture::{install, is_install, Release, ReleaseGraph};
use crate::e2e::haproxy::{haproxy_cadence, use_haproxy_cadence, HaproxyRelease};
use crate::e2e::layout::{
    release_repository_url, repository_url_text, versioned_deployment_name, COHORT_LABEL,
    EXTERNAL_COHORT, EXTERNAL_SERVICE, HAPROXY_ADMIN_PORT, HAPROXY_BACKEND, HAPROXY_COHORT,
    HAPROXY_GROUP, HAPROXY_NEXT_PATH_ANNOTATION, HAPROXY_NEXT_SHA_ANNOTATION, HAPROXY_REPLICAS,
    HAPROXY_V1, HEALTH_CDN,
};
use crate::e2e::resources::{
    fleet_group_view, fleet_group_views, Application, ApplicationView, FleetGroup, FleetGroupView,
    SoleRelease,
};
use crate::haproxy::{admin_endpoint, admin_endpoints};
use crate::json::{
    bare, flag_value, member_of, member_value, natural, number_value, object_value, parsed_json,
    set_member, takes_members, text_value, value_content, value_contents, JsonView,
};
use crate::resources::{label, pairs, target, target_view};
use crate::text::views;
use serde_json::Value;
use vstd::prelude::*;

verus! {

// ----- release graphs -----

/// A release.
pub open spec fn release_document(
    package: (Seq<char>, Seq<char>),
    installable: bool,
    upgrade_from: Seq<Seq<char>>,
    rollback_from: Seq<Seq<char>>,
) -> JsonView {
    bare().with("package"@, target_document(package)).with(
        "installable"@,
        JsonView::Bool(installable),
    ).with("upgradeFrom"@, texts_document(upgrade_from)).with(
        "rollbackFrom"@,
        texts_document(rollback_from),
    )
}

fn release_value(release: &Release) -> (result: Value)
    ensures
        value_content(result) == release_document(
            target_view(release.package),
            release.installable,
            views(release.upgrade_from@),
            views(release.rollback_from@),
        ),
{
    let mut document = object_value();
    set_member(&mut document, "package", target_value(&release.package));
    set_member(&mut document, "installable", flag_value(release.installable));
    set_member(&mut document, "upgradeFrom", texts_value(&release.upgrade_from));
    set_member(&mut document, "rollbackFrom", texts_value(&release.rollback_from));
    document
}

/// Releases by their versions.
pub open spec fn releases_document(releases: Seq<Release>) -> JsonView
    decreases releases.len(),
{
    if releases.len() == 0 {
        bare()
    } else {
        let last = releases.last();
        releases_document(releases.drop_last()).with(
            last.version@,
            release_document(
                target_view(last.package),
                last.installable,
                views(last.upgrade_from@),
                views(last.rollback_from@),
            ),
        )
    }
}

/// Releases and the one that a node is to run.
pub open spec fn graph_document(graph: ReleaseGraph) -> JsonView {
    bare().with("target"@, JsonView::Text(graph.target@)).with(
        "releases"@,
        releases_document(graph.releases@),
    )
}

/// Releases and the one that a node is to run.
pub fn graph_value(graph: &ReleaseGraph) -> (result: Value)
    ensures
        value_content(result) == graph_document(*graph),
{
    let ghost all = graph.releases@;
    let mut releases = object_value();
    let mut index: usize = 0;
    assert(all.take(0) =~= Seq::<Release>::empty());
    while index < graph.releases.len()
        invariant
            index <= graph.releases.len(),
            all == graph.releases@,
            value_content(releases) == releases_document(all.take(index as int)),
        decreases graph.releases.len() - index,
    {
        proof {
            let next = all.take(index + 1);
            assert(next.drop_last() =~= all.take(index as int));
            assert(next.last() == all[index as int]);
            assert(takes_members(releases_document(all.take(index as int))));
        }
        set_member(
            &mut releases,
            graph.releases[index].version.as_str(),
            release_value(&graph.releases[index]),
        );
        index = index + 1;
    }
    assert(all.take(all.len() as int) =~= all);
    let mut document = object_value();
    set_member(&mut document, "target", text_value(graph.target.as_str()));
    set_member(&mut document, "releases", releases);
    document
}

/// A graph of one release, which is its target.
pub open spec fn sole_document(
    version: Seq<char>,
    package: (Seq<char>, Seq<char>),
    installable: bool,
) -> JsonView {
    let release = bare().with("package"@, target_document(package)).with(
        "installable"@,
        JsonView::Bool(installable),
    );
    bare().with("target"@, JsonView::Text(version)).with("releases"@, bare().with(version, release))
}

fn sole_value(release: &SoleRelease) -> (result: Value)
    ensures
        value_content(result) == sole_document(
            release.version@,
            target_view(release.package),
            release.installable,
        ),
{
    let mut entry = object_value();
    set_member(&mut entry, "package", target_value(&release.package));
    set_member(&mut entry, "installable", flag_value(release.installable));
    let mut releases = object_value();
    set_member(&mut releases, release.version, entry);
    let mut document = object_value();
    set_member(&mut document, "target", text_value(release.version));
    set_member(&mut document, "releases", releases);
    document
}

/// What the nodes of a printed group run, as it is printed.
pub fn template_application(edge: &str) -> (result: Result<Value, String>)
    ensures
        outcome(result) == match parsed_json(edge@) {
            Ok(group) => Ok::<JsonView, Seq<char>>(member_of(template_in(group), "application"@)),
            Err(message) => Err(message),
        },
{
    match read_group(edge) {
        Ok(group) => {
            let deployment = member_value(&member_value(&group, "spec"), "deployment");
            Ok(member_value(&deployment, "application"))
        },
        Err(message) => Err(message),
    }
}

// ----- groups -----

/// Where the cohorts' releases come from: the graph that they run, and its repository.
pub struct FleetSourceView {
    pub baseline: JsonView,
    pub repository: JsonView,
}

/// The repository that the cohorts resolve their releases from.
pub open spec fn release_repository(root: Seq<char>) -> JsonView {
    repository_document(repository_url_text("metadata"@), repository_url_text("targets"@), root)
}

/// Where the cohorts' releases come from.
pub open spec fn fleet_source(baseline: ReleaseGraph, root: Seq<char>) -> FleetSourceView {
    FleetSourceView {
        baseline: graph_document(baseline),
        repository: release_repository(root),
    }
}

/// The repository that the cohorts resolve their releases from.
pub fn minio_release_repository(release_root: &str) -> (result: Value)
    ensures
        value_content(result) == release_repository(release_root@),
{
    repository_value(
        release_repository_url("metadata").as_str(),
        release_repository_url("targets").as_str(),
        release_root,
    )
}

/// What the nodes of a group run, and how: as the template says, but for what is the group's own.
pub open spec fn fleet_deployment(
    template: JsonView,
    source: FleetSourceView,
    group: FleetGroupView,
) -> JsonView {
    let named = template.with("name"@, JsonView::Text(group.name));
    let applied = match group.application {
        ApplicationView::Baseline => resourced(
            named.with("application"@, source.baseline),
            source.repository,
        ),
        ApplicationView::Sole { product, version, package, installable } => with_runtime(
            named.with("application"@, sole_document(version, package, installable)),
            "product"@,
            JsonView::Text(product),
        ),
    };
    with_runtime(applied, "timeouts"@, timeouts_document(group.timeouts))
}

/// A group, on the template of a group.
pub open spec fn fleet_document(
    group: JsonView,
    source: FleetSourceView,
    plan: FleetGroupView,
) -> JsonView {
    group_document(
        plan.name,
        plan.labels,
        plan.selector,
        fleet_deployment(template_in(group), source, plan),
    )
}

/// Groups, in order, on the template of a group.
pub open spec fn fleet_documents(
    group: JsonView,
    source: FleetSourceView,
    plans: Seq<FleetGroupView>,
) -> Seq<JsonView> {
    Seq::new(plans.len(), |i: int| fleet_document(group, source, plans[i]))
}

proof fn lemma_names_differ()
    ensures
        "runtime"@ != "name"@,
        "runtime"@ != "application"@,
        "runtime"@ != "releaseRepository"@,
{
    reveal_strlit("runtime");
    reveal_strlit("name");
    reveal_strlit("application");
    reveal_strlit("releaseRepository");
    assert("runtime"@.len() == 7 && "name"@.len() == 4);
    assert("application"@.len() == 11 && "releaseRepository"@.len() == 17);
}

/// A group, on the template of a group.
pub fn fleet_group_on(
    group: &Value,
    baseline: &ReleaseGraph,
    release_root: &str,
    plan: &FleetGroup,
) -> (result: Result<Value, String>)
    ensures
        outcome(result) == match template_fault(value_content(*group)) {
            Some(message) => Err::<JsonView, Seq<char>>(message),
            None => Ok::<JsonView, Seq<char>>(
                fleet_document(
                    value_content(*group),
                    fleet_source(*baseline, release_root@),
                    fleet_group_view(*plan),
                ),
            ),
        },
{
    let mut deployment = match copy_template(group) {
        Ok(copy) => copy,
        Err(message) => {
            return Err(message);
        },
    };
    proof {
        lemma_names_differ();
    }
    set_member(&mut deployment, "name", text_value(plan.name.as_str()));
    match &plan.application {
        Application::Baseline => {
            set_member(&mut deployment, "application", graph_value(baseline));
            set_member(
                &mut deployment,
                "releaseRepository",
                minio_release_repository(release_root),
            );
        },
        Application::Sole(release) => {
            set_member(&mut deployment, "application", sole_value(release));
            set_runtime(&mut deployment, "product", text_value(release.product));
        },
    }
    set_runtime(&mut deployment, "timeouts", timeouts_value(&plan.timeouts));
    Ok(group_value(plan.name.as_str(), &plan.labels, &plan.selector, deployment))
}

/// A group, on the template of a printed group.
pub fn fleet_group(
    edge: &str,
    baseline: &ReleaseGraph,
    release_root: &str,
    plan: &FleetGroup,
) -> (result: Result<Value, String>)
    ensures
        outcome(result) == match parsed_json(edge@) {
            Ok(group) => match template_fault(group) {
                Some(message) => Err::<JsonView, Seq<char>>(message),
                None => Ok(
                    fleet_document(
                        group,
                        fleet_source(*baseline, release_root@),
                        fleet_group_view(*plan),
                    ),
                ),
            },
            Err(message) => Err(message),
        },
{
    match read_group(edge) {
        Ok(group) => fleet_group_on(&group, baseline, release_root, plan),
        Err(message) => Err(message),
    }
}

/// Groups, in order, on the template of a group.
pub fn fleet_groups_on(
    group: &Value,
    baseline: &ReleaseGraph,
    release_root: &str,
    plans: &Vec<FleetGroup>,
) -> (result: Result<Vec<Value>, String>)
    ensures
        match result {
            Ok(found) => template_fault(value_content(*group)) is None && value_contents(found@)
                == fleet_documents(
                value_content(*group),
                fleet_source(*baseline, release_root@),
                fleet_group_views(plans@),
            ),
            Err(message) => template_fault(value_content(*group)) == Some(message@),
        },
{
    let ghost content = value_content(*group);
    let ghost source = fleet_source(*baseline, release_root@);
    match copy_template(group) {
        Ok(_) => {},
        Err(message) => {
            return Err(message);
        },
    }
    let mut found: Vec<Value> = Vec::new();
    let mut index: usize = 0;
    while index < plans.len()
        invariant
            index <= plans.len(),
            content == value_content(*group),
            source == fleet_source(*baseline, release_root@),
            template_fault(content) is None,
            found@.len() == index,
            forall|i: int|
                0 <= i < index ==> value_content(#[trigger] found@[i]) == fleet_document(
                    content,
                    source,
                    fleet_group_view(plans@[i]),
                ),
        decreases plans.len() - index,
    {
        match fleet_group_on(group, baseline, release_root, &plans[index]) {
            Ok(document) => {
                found.push(document);
            },
            Err(message) => {
                return Err(message);
            },
        }
        index = index + 1;
    }
    assert(value_contents(found@) =~= fleet_documents(content, source, fleet_group_views(plans@)));
    Ok(found)
}

/// The members of a deployment that a group replaces.
pub open spec fn replaces(group: FleetGroupView, name: Seq<char>) -> bool {
    name == "name"@ || name == "application"@ || name == "runtime"@ || (name
        == "releaseRepository"@ && group.application is Baseline)
}

/// The members of how it is run that a group replaces.
pub open spec fn replaces_runtime(group: FleetGroupView, name: Seq<char>) -> bool {
    name == "timeouts"@ || (name == "product"@ && group.application is Sole)
}

/// A group has its nodes run everything as the template says, and in the way the template says, but
/// for what is the group's own.
pub proof fn what_is_not_the_groups_own_stays(
    template: JsonView,
    source: FleetSourceView,
    group: FleetGroupView,
    name: Seq<char>,
)
    ensures
        !replaces(group, name) ==> is_kept(
            template,
            fleet_deployment(template, source, group),
            name,
        ),
        !replaces_runtime(group, name) ==> is_kept(
            member_of(template, "runtime"@),
            member_of(fleet_deployment(template, source, group), "runtime"@),
            name,
        ),
{
    lemma_names_differ();
}

// ----- throttle sets -----

/// What a set does about a regression.
pub open spec fn response_text(response: RegressionResponse) -> Seq<char> {
    match response {
        RegressionResponse::Halt => "halt"@,
        RegressionResponse::Rollback => "rollback"@,
    }
}

fn response_word(response: RegressionResponse) -> (result: &'static str)
    ensures
        result@ == response_text(response),
{
    match response {
        RegressionResponse::Halt => "halt",
        RegressionResponse::Rollback => "rollback",
    }
}

/// A small number, where there is one.
pub open spec fn widened(number: Option<u32>) -> Option<u64> {
    match number {
        Some(number) => Some(number as u64),
        None => None,
    }
}

fn widen(number: Option<u32>) -> (result: Option<u64>)
    ensures
        result == widened(number),
{
    match number {
        Some(number) => Some(number as u64),
        None => None,
    }
}

/// A throttle set, with the repository that it belongs to.
pub open spec fn set_document(set: GroupSetView) -> JsonView {
    let always = bare().with(
        "repositoryRef"@,
        reference_document(set.repository),
    ).with("selector"@, bare().with("matchLabels"@, labels_document(set.selector))).with(
        "onRegression"@,
        JsonView::Text(response_text(set.on_regression)),
    );
    let throttled = with_natural(always, "maxConcurrent"@, widened(set.max_concurrent));
    let bounded = with_natural(throttled, "maxRegressions"@, widened(set.max_regressions));
    set_resource_document(
        bare().with("name"@, JsonView::Text(set.name)).with(
            "namespace"@,
            JsonView::Text(set.namespace),
        ),
        with_natural(bounded, "stuckAfterSeconds"@, set.stuck_after_seconds),
    )
}

/// A throttle set, with the repository that it belongs to.
pub fn set_value(set: &GroupSetSpec) -> (result: Value)
    ensures
        value_content(result) == set_document(set@),
{
    let mut selector = object_value();
    set_member(&mut selector, "matchLabels", labels_value(&set.selector));
    let mut spec_part = object_value();
    set_member(&mut spec_part, "repositoryRef", reference_value(set.repository));
    set_member(&mut spec_part, "selector", selector);
    set_member(&mut spec_part, "onRegression", text_value(response_word(set.on_regression)));
    set_natural(&mut spec_part, "maxConcurrent", widen(set.max_concurrent));
    set_natural(&mut spec_part, "maxRegressions", widen(set.max_regressions));
    set_natural(&mut spec_part, "stuckAfterSeconds", set.stuck_after_seconds);
    let mut metadata = object_value();
    set_member(&mut metadata, "name", text_value(set.name.as_str()));
    set_member(&mut metadata, "namespace", text_value(set.namespace));
    set_resource_value(metadata, spec_part)
}

/// Throttle sets, in order.
pub open spec fn set_documents(sets: Seq<GroupSetView>) -> Seq<JsonView> {
    Seq::new(sets.len(), |i: int| set_document(sets[i]))
}

/// Throttle sets, in order.
pub fn set_values(sets: &Vec<GroupSetSpec>) -> (result: Vec<Value>)
    ensures
        value_contents(result@) == set_documents(group_set_views(sets@)),
{
    let mut result: Vec<Value> = Vec::new();
    let mut index: usize = 0;
    while index < sets.len()
        invariant
            index <= sets.len(),
            result@.len() == index,
            forall|i: int|
                0 <= i < index ==> value_content(#[trigger] result@[i]) == set_document(sets@[i]@),
        decreases sets.len() - index,
    {
        result.push(set_value(&sets[index]));
        index = index + 1;
    }
    assert(value_contents(result@) =~= set_documents(group_set_views(sets@)));
    result
}

/// A throttle set is applied with the repository that it belongs to.
pub proof fn sets_name_their_repository(set: GroupSetView)
    ensures
        member_of(member_of(member_of(set_document(set), "spec"@), "repositoryRef"@), "name"@)
            == JsonView::Text(set.repository),
{
    reveal_strlit("repositoryRef");
    reveal_strlit("selector");
    reveal_strlit("onRegression");
    reveal_strlit("maxConcurrent");
    reveal_strlit("maxRegressions");
    reveal_strlit("stuckAfterSeconds");
    let name = "repositoryRef"@;
    assert(name.len() == 13 && name[0] == 'r');
    assert("selector"@.len() == 8 && "onRegression"@.len() == 12 && "maxConcurrent"@[0] == 'm');
    assert("maxRegressions"@.len() == 14 && "stuckAfterSeconds"@.len() == 17);
}

// ----- the load balancers -----

/// A graph of one release, which a node may install from nothing.
pub open spec fn install_document(version: Seq<char>, package: (Seq<char>, Seq<char>)) -> JsonView {
    bare().with("target"@, JsonView::Text(version)).with(
        "releases"@,
        bare().with(version, release_document(package, true, Seq::empty(), Seq::empty())),
    )
}

proof fn lemma_install_document(
    graph: ReleaseGraph,
    version: Seq<char>,
    package: (Seq<char>, Seq<char>),
)
    requires
        is_install(graph, version, package),
    ensures
        graph_document(graph) == install_document(version, package),
{
    let all = graph.releases@;
    reveal_with_fuel(releases_document, 2);
    assert(all.drop_last() =~= Seq::<Release>::empty());
    assert(all.last() == all[0]);
}

/// What the load balancers run at first, and how: as the template says, but for what is particular to
/// them.
pub open spec fn haproxy_deployment(
    template: JsonView,
    root: Seq<char>,
    release: HaproxyRelease,
) -> JsonView {
    let own = resourced(
        template.with("name"@, JsonView::Text(HAPROXY_GROUP@ + "-"@ + HAPROXY_V1@)).with(
            "application"@,
            install_document(HAPROXY_V1@, (release.v1_path@, release.v1_sha@)),
        ),
        release_repository(root),
    );
    with_runtime(
        with_runtime(own, "product"@, JsonView::Text("haproxy"@)),
        "timeouts"@,
        timeouts_document(haproxy_cadence()),
    )
}

/// What the load balancers run at first, on the template of a group.
pub fn haproxy_deployment_on(group: &Value, release_root: &str, release: &HaproxyRelease) -> (result:
    Result<Value, String>)
    ensures
        outcome(result) == match template_fault(value_content(*group)) {
            Some(message) => Err::<JsonView, Seq<char>>(message),
            None => Ok::<JsonView, Seq<char>>(
                haproxy_deployment(
                    template_in(value_content(*group)),
                    release_root@,
                    *release,
                ),
            ),
        },
{
    let mut deployment = match copy_template(group) {
        Ok(copy) => copy,
        Err(message) => {
            return Err(message);
        },
    };
    let graph = install(
        HAPROXY_V1,
        target(release.v1_path.as_str(), release.v1_sha.as_str()),
    );
    proof {
        lemma_names_differ();
        lemma_install_document(graph, HAPROXY_V1@, (release.v1_path@, release.v1_sha@));
    }
    let name = versioned_deployment_name(HAPROXY_GROUP, HAPROXY_V1);
    set_member(&mut deployment, "name", text_value(name.as_str()));
    set_member(&mut deployment, "application", graph_value(&graph));
    set_member(&mut deployment, "releaseRepository", minio_release_repository(release_root));
    set_runtime(&mut deployment, "product", text_value("haproxy"));
    set_runtime(&mut deployment, "timeouts", timeouts_value(&use_haproxy_cadence()));
    Ok(deployment)
}

/// What the load balancers run at first, on the template of a printed group.
pub fn haproxy_group_deployment(edge: &str, release_root: &str, release: &HaproxyRelease) -> (result:
    Result<Value, String>)
    ensures
        outcome(result) == match parsed_json(edge@) {
            Ok(group) => match template_fault(group) {
                Some(message) => Err::<JsonView, Seq<char>>(message),
                None => Ok(haproxy_deployment(template_in(group), release_root@, *release)),
            },
            Err(message) => Err(message),
        },
{
    match read_group(edge) {
        Ok(group) => haproxy_deployment_on(&group, release_root, release),
        Err(message) => Err(message),
    }
}

/// The load balancers run everything as the template says, and in the way the template says, but for
/// their name, application, repository, product and cadence. Where they are installed stays as it
/// was pinned.
pub proof fn load_balancers_stay_on_the_template(
    template: JsonView,
    root: Seq<char>,
    release: HaproxyRelease,
    name: Seq<char>,
)
    ensures
        name != "name"@ && name != "application"@ && name != "releaseRepository"@ && name
            != "runtime"@ ==> is_kept(template, haproxy_deployment(template, root, release), name),
        name != "product"@ && name != "timeouts"@ ==> is_kept(
            member_of(template, "runtime"@),
            member_of(haproxy_deployment(template, root, release), "runtime"@),
            name,
        ),
        is_kept(
            member_of(template, "runtime"@),
            member_of(haproxy_deployment(template, root, release), "runtime"@),
            "installRoot"@,
        ),
{
    lemma_names_differ();
    reveal_strlit("installRoot");
    reveal_strlit("product");
    reveal_strlit("timeouts");
    assert("installRoot"@.len() == 11 && "product"@.len() == 7 && "timeouts"@.len() == 8);
}

/// The group of the load balancers, with the release that they are to be upgraded to noted on it.
pub open spec fn haproxy_document(deployment: JsonView, release: HaproxyRelease) -> JsonView {
    tier_document(
        HAPROXY_GROUP@,
        seq![
            (HAPROXY_NEXT_PATH_ANNOTATION@, release.v2_path@),
            (HAPROXY_NEXT_SHA_ANNOTATION@, release.v2_sha@),
        ],
        seq![(COHORT_LABEL@, HAPROXY_COHORT@)],
        deployment,
    )
}

/// The group of the load balancers, on the template of a printed group.
pub fn prepare_haproxy_tier(edge: &str, release_root: &str, release: &HaproxyRelease) -> (result:
    Result<Value, String>)
    ensures
        outcome(result) == match parsed_json(edge@) {
            Ok(group) => match template_fault(group) {
                Some(message) => Err::<JsonView, Seq<char>>(message),
                None => Ok(
                    haproxy_document(
                        haproxy_deployment(template_in(group), release_root@, *release),
                        *release,
                    ),
                ),
            },
            Err(message) => Err(message),
        },
{
    let deployment = match haproxy_group_deployment(edge, release_root, release) {
        Ok(deployment) => deployment,
        Err(message) => {
            return Err(message);
        },
    };
    let notes = vec![
        label(HAPROXY_NEXT_PATH_ANNOTATION, release.v2_path.as_str()),
        label(HAPROXY_NEXT_SHA_ANNOTATION, release.v2_sha.as_str()),
    ];
    let selector = vec![label(COHORT_LABEL, HAPROXY_COHORT)];
    assert(pairs(notes@) =~= seq![
        (HAPROXY_NEXT_PATH_ANNOTATION@, release.v2_path@),
        (HAPROXY_NEXT_SHA_ANNOTATION@, release.v2_sha@),
    ]);
    assert(pairs(selector@) =~= seq![(COHORT_LABEL@, HAPROXY_COHORT@)]);
    Ok(tier_value(HAPROXY_GROUP, &notes, &selector, deployment))
}

// ----- reserved agents and backends -----

/// An agent whose identity is held for it, with its labels, until it enrolls.
pub open spec fn reserved_document(agent: ReservedView) -> JsonView {
    resource_document(API_VERSION@, "UpdateAgent"@, place_document(agent.resource)).with(
        "spec"@,
        bare().with("repositoryRef"@, reference_document(REPOSITORY@)).with(
            "identity"@,
            bare().with("kind"@, JsonView::Text("reserved"@)),
        ).with("labels"@, labels_document(agent.labels)),
    )
}

/// An agent whose identity is held for it, with its labels, until it enrolls.
pub fn reserved_agent(agent: &ReservedAgent) -> (result: Value)
    ensures
        value_content(result) == reserved_document(reserved_view(*agent)),
{
    let mut identity = object_value();
    set_member(&mut identity, "kind", text_value("reserved"));
    let mut spec_part = object_value();
    set_member(&mut spec_part, "repositoryRef", reference_value(REPOSITORY));
    set_member(&mut spec_part, "identity", identity);
    set_member(&mut spec_part, "labels", labels_value(&agent.labels));
    let mut document = resource_value(
        API_VERSION,
        "UpdateAgent",
        place_value(agent.resource.as_str()),
    );
    set_member(&mut document, "spec", spec_part);
    document
}

/// A backend over the agents outside the sets: where their health is read, and what it is programmed
/// into.
pub open spec fn backend_document(name: Seq<char>, programmed: JsonView) -> JsonView {
    resource_document(API_VERSION@, "UpdateBackend"@, place_document(name)).with(
        "spec"@,
        bare().with("repositoryRef"@, reference_document(REPOSITORY@)).with(
            "selector"@,
            bare().with("matchLabels"@, labels_document(seq![(COHORT_LABEL@, EXTERNAL_COHORT@)])),
        ).with("healthBase"@, JsonView::Text(HEALTH_CDN@)).with("target"@, programmed),
    )
}

fn backend_value(name: &str, programmed: Value) -> (result: Value)
    ensures
        value_content(result) == backend_document(name@, value_content(programmed)),
{
    let outside = vec![label(COHORT_LABEL, EXTERNAL_COHORT)];
    assert(pairs(outside@) =~= seq![(COHORT_LABEL@, EXTERNAL_COHORT@)]);
    let mut selector = object_value();
    set_member(&mut selector, "matchLabels", labels_value(&outside));
    let mut spec_part = object_value();
    set_member(&mut spec_part, "repositoryRef", reference_value(REPOSITORY));
    set_member(&mut spec_part, "selector", selector);
    set_member(&mut spec_part, "healthBase", text_value(HEALTH_CDN));
    set_member(&mut spec_part, "target", programmed);
    let mut document = resource_value(API_VERSION, "UpdateBackend", place_value(name));
    set_member(&mut document, "spec", spec_part);
    document
}

/// The backend that programs the load balancers.
pub open spec fn haproxy_backend_document() -> JsonView {
    backend_document(
        "haproxy"@,
        bare().with("kind"@, JsonView::Text("haProxy"@)).with(
            "endpoints"@,
            texts_document(
                Seq::new(
                    HAPROXY_REPLICAS as nat,
                    |i: int| admin_endpoint(i as nat, HAPROXY_ADMIN_PORT as nat),
                ),
            ),
        ).with("backend"@, JsonView::Text(HAPROXY_BACKEND@)),
    )
}

/// The backend that programs the load balancers.
pub fn haproxy_backend() -> (result: Value)
    ensures
        value_content(result) == haproxy_backend_document(),
{
    let endpoints = admin_endpoints(HAPROXY_REPLICAS, HAPROXY_ADMIN_PORT);
    let mut programmed = object_value();
    set_member(&mut programmed, "kind", text_value("haProxy"));
    set_member(&mut programmed, "endpoints", texts_value(&endpoints));
    set_member(&mut programmed, "backend", text_value(HAPROXY_BACKEND));
    backend_value("haproxy", programmed)
}

/// The backend that programs the endpoints of the agents outside the sets.
pub open spec fn external_backend_document() -> JsonView {
    backend_document(
        "external"@,
        bare().with("kind"@, JsonView::Text("endpointSlice"@)).with(
            "service"@,
            JsonView::Text(EXTERNAL_SERVICE@),
        ).with("port"@, natural(8080)).with("portName"@, JsonView::Text("http"@)),
    )
}

/// The backend that programs the endpoints of the agents outside the sets.
pub fn external_backend() -> (result: Value)
    ensures
        value_content(result) == external_backend_document(),
{
    let mut programmed = object_value();
    set_member(&mut programmed, "kind", text_value("endpointSlice"));
    set_member(&mut programmed, "service", text_value(EXTERNAL_SERVICE));
    set_member(&mut programmed, "port", number_value(8080));
    set_member(&mut programmed, "portName", text_value("http"));
    backend_value("external", programmed)
}

// ----- what the documents say -----

/// A release says what it is made of and what it may be reached from; a graph says its target and lists
/// its releases by their versions, the last where a version comes twice.
pub proof fn graphs_say_what_they_list(
    graph: ReleaseGraph,
    package: (Seq<char>, Seq<char>),
    installable: bool,
    upgrade_from: Seq<Seq<char>>,
    rollback_from: Seq<Seq<char>>,
)
    ensures
        ({
            let said = release_document(package, installable, upgrade_from, rollback_from);
            &&& member_of(said, "package"@) == target_document(package)
            &&& member_of(said, "installable"@) == JsonView::Bool(installable)
            &&& member_of(said, "upgradeFrom"@) == texts_document(upgrade_from)
            &&& member_of(said, "rollbackFrom"@) == texts_document(rollback_from)
        }),
        member_of(graph_document(graph), "target"@) == JsonView::Text(graph.target@),
        member_of(graph_document(graph), "releases"@) == releases_document(graph.releases@),
{
    reveal_strlit("package");
    reveal_strlit("installable");
    reveal_strlit("upgradeFrom");
    reveal_strlit("rollbackFrom");
    assert("package"@.len() == 7 && "installable"@.len() == 11 && "upgradeFrom"@.len() == 11);
    assert("rollbackFrom"@.len() == 12 && "installable"@[0] == 'i' && "upgradeFrom"@[0] == 'u');
    reveal_strlit("target");
    reveal_strlit("releases");
    assert("target"@.len() == 6 && "releases"@.len() == 8);
}

/// A listed release is written under its version, as it is listed.
pub proof fn releases_are_written_under_their_versions(releases: Seq<Release>, index: int)
    requires
        0 <= index < releases.len(),
        forall|i: int|
            index < i < releases.len() ==> (#[trigger] releases[i]).version@
                != releases[index].version@,
    ensures
        member_of(releases_document(releases), releases[index].version@) == release_document(
            target_view(releases[index].package),
            releases[index].installable,
            views(releases[index].upgrade_from@),
            views(releases[index].rollback_from@),
        ),
    decreases releases.len(),
{
    let before = releases.drop_last();
    if index < before.len() {
        releases_are_written_under_their_versions(before, index);
        assert(releases[releases.len() - 1].version@ != releases[index].version@);
    }
}

/// A graph of one release has it as its target, and says whether it may be installed from nothing; one
/// that may be installed is reached from no other release.
pub proof fn a_sole_release_is_its_target(
    version: Seq<char>,
    package: (Seq<char>, Seq<char>),
    installable: bool,
)
    ensures
        ({
            let sole = sole_document(version, package, installable);
            let only = member_of(member_of(sole, "releases"@), version);
            let installs = install_document(version, package);
            &&& member_of(sole, "target"@) == JsonView::Text(version)
            &&& member_of(only, "package"@) == target_document(package)
            &&& member_of(only, "installable"@) == JsonView::Bool(installable)
            &&& member_of(installs, "target"@) == JsonView::Text(version)
            &&& member_of(member_of(installs, "releases"@), version) == release_document(
                package,
                true,
                Seq::empty(),
                Seq::empty(),
            )
        }),
{
    reveal_strlit("target");
    reveal_strlit("releases");
    assert("target"@.len() == 6 && "releases"@.len() == 8);
    reveal_strlit("package");
    reveal_strlit("installable");
    assert("package"@.len() == 7 && "installable"@.len() == 11);
}

/// A group has its nodes run the baseline from the fleet's repository, or one release of a product, under
/// the group's name and at its cadence.
pub proof fn groups_run_what_is_their_own(
    template: JsonView,
    source: FleetSourceView,
    group: FleetGroupView,
)
    ensures
        ({
            let said = fleet_deployment(template, source, group);
            let how = member_of(said, "runtime"@);
            &&& member_of(said, "name"@) == JsonView::Text(group.name)
            &&& member_of(how, "timeouts"@) == timeouts_document(group.timeouts)
            &&& match group.application {
                ApplicationView::Baseline => member_of(said, "application"@) == source.baseline
                    && member_of(said, "releaseRepository"@) == source.repository,
                ApplicationView::Sole { product, version, package, installable } => member_of(
                    said,
                    "application"@,
                ) == sole_document(version, package, installable) && member_of(how, "product"@)
                    == JsonView::Text(product),
            }
        }),
{
    lemma_names_differ();
    reveal_strlit("name");
    reveal_strlit("application");
    reveal_strlit("releaseRepository");
    assert("name"@.len() == 4 && "application"@.len() == 11 && "releaseRepository"@.len() == 17);
    reveal_strlit("product");
    reveal_strlit("timeouts");
    assert("product"@.len() == 7 && "timeouts"@.len() == 8);
}

/// Every planned group becomes a document, in order; the repository is the one that releases are
/// published to.
pub proof fn every_group_becomes_a_document(
    group: JsonView,
    source: FleetSourceView,
    plans: Seq<FleetGroupView>,
    place: int,
    baseline: ReleaseGraph,
    root: Seq<char>,
)
    requires
        0 <= place < plans.len(),
    ensures
        fleet_documents(group, source, plans).len() == plans.len(),
        fleet_documents(group, source, plans)[place] == group_document(
            plans[place].name,
            plans[place].labels,
            plans[place].selector,
            fleet_deployment(template_in(group), source, plans[place]),
        ),
        fleet_source(baseline, root).baseline == graph_document(baseline),
        member_of(fleet_source(baseline, root).repository, "metadataUrl"@) == JsonView::Text(
            repository_url_text("metadata"@),
        ),
        member_of(fleet_source(baseline, root).repository, "targetsUrl"@) == JsonView::Text(
            repository_url_text("targets"@),
        ),
        member_of(fleet_source(baseline, root).repository, "rootJson"@) == JsonView::Text(root),
{
    crate::document_laws::parts_say_what_they_are_given(
        (Seq::empty(), Seq::empty()),
        Seq::empty(),
        repository_url_text("metadata"@),
        repository_url_text("targets"@),
        root,
    );
}

/// A throttle set says what it selects and what it does about a regression; how many groups may roll at
/// once, how many regressions it bears and when a group is stuck, each under its own name and only where
/// it is set.
pub proof fn sets_say_each_of_their_bounds(set: GroupSetView)
    ensures
        ({
            let said = set_document(set);
            let own = member_of(said, "spec"@);
            &&& member_of(member_of(said, "metadata"@), "name"@) == JsonView::Text(set.name)
            &&& member_of(member_of(said, "metadata"@), "namespace"@) == JsonView::Text(
                set.namespace,
            )
            &&& member_of(member_of(own, "selector"@), "matchLabels"@) == labels_document(
                set.selector,
            )
            &&& set.on_regression is Halt ==> member_of(own, "onRegression"@) == JsonView::Text(
                "halt"@,
            )
            &&& set.on_regression is Rollback ==> member_of(own, "onRegression"@)
                == JsonView::Text("rollback"@)
            &&& match set.max_concurrent {
                Some(count) => member_of(own, "maxConcurrent"@) == natural(count as u64),
                None => member_of(own, "maxConcurrent"@) is Null,
            }
            &&& match set.max_regressions {
                Some(count) => member_of(own, "maxRegressions"@) == natural(count as u64),
                None => member_of(own, "maxRegressions"@) is Null,
            }
            &&& match set.stuck_after_seconds {
                Some(count) => member_of(own, "stuckAfterSeconds"@) == natural(count),
                None => member_of(own, "stuckAfterSeconds"@) is Null,
            }
        }),
{
    crate::document_laws::lemma_resource_names();
    reveal_strlit("repositoryRef");
    reveal_strlit("selector");
    reveal_strlit("onRegression");
    reveal_strlit("maxConcurrent");
    reveal_strlit("maxRegressions");
    reveal_strlit("stuckAfterSeconds");
    assert("repositoryRef"@.len() == 13 && "selector"@.len() == 8 && "onRegression"@.len() == 12);
    assert("maxConcurrent"@.len() == 13 && "maxRegressions"@.len() == 14);
    assert("stuckAfterSeconds"@.len() == 17 && "repositoryRef"@[0] == 'r' && "maxConcurrent"@[0]
        == 'm');
}

/// The load balancers start at their first release, from the fleet's repository, and carry a note of the
/// second.
pub proof fn load_balancers_start_at_their_first_release(
    template: JsonView,
    root: Seq<char>,
    release: HaproxyRelease,
    deployment: JsonView,
)
    ensures
        ({
            let said = haproxy_deployment(template, root, release);
            let how = member_of(said, "runtime"@);
            let tier = haproxy_document(deployment, release);
            let notes = member_of(member_of(tier, "metadata"@), "annotations"@);
            &&& member_of(said, "name"@) == JsonView::Text(HAPROXY_GROUP@ + "-"@ + HAPROXY_V1@)
            &&& member_of(said, "application"@) == install_document(
                HAPROXY_V1@,
                (release.v1_path@, release.v1_sha@),
            )
            &&& member_of(said, "releaseRepository"@) == release_repository(root)
            &&& member_of(how, "product"@) == JsonView::Text("haproxy"@)
            &&& member_of(how, "timeouts"@) == timeouts_document(haproxy_cadence())
            &&& template_in(tier) == deployment
            &&& member_of(notes, HAPROXY_NEXT_PATH_ANNOTATION@) == JsonView::Text(release.v2_path@)
            &&& member_of(notes, HAPROXY_NEXT_SHA_ANNOTATION@) == JsonView::Text(release.v2_sha@)
        }),
{
    lemma_names_differ();
    reveal_strlit("name");
    reveal_strlit("application");
    reveal_strlit("releaseRepository");
    assert("name"@.len() == 4 && "application"@.len() == 11 && "releaseRepository"@.len() == 17);
    reveal_strlit("product");
    reveal_strlit("timeouts");
    assert("product"@.len() == 7 && "timeouts"@.len() == 8);
    let notes = seq![
        (HAPROXY_NEXT_PATH_ANNOTATION@, release.v2_path@),
        (HAPROXY_NEXT_SHA_ANNOTATION@, release.v2_sha@),
    ];
    crate::document_laws::groups_say_what_they_select_and_run(
        HAPROXY_GROUP@,
        Seq::empty(),
        notes,
        seq![(COHORT_LABEL@, HAPROXY_COHORT@)],
        deployment,
    );
    reveal_strlit("e2e.updated.dev/next-path");
    reveal_strlit("e2e.updated.dev/next-sha256");
    assert(HAPROXY_NEXT_PATH_ANNOTATION@.len() == 25);
    assert(HAPROXY_NEXT_SHA_ANNOTATION@.len() == 27);
    crate::document_laws::labels_say_their_last_value(notes, 0, Seq::empty());
    crate::document_laws::labels_say_their_last_value(notes, 1, Seq::empty());
}

/// A reserved agent is named, labelled and marked as reserved before it enrolls. A backend reads the
/// health of the agents outside the sets, and programs what it was made for.
pub proof fn reservations_and_backends_say_what_they_are(
    agent: ReservedView,
    name: Seq<char>,
    programmed: JsonView,
)
    ensures
        ({
            let said = reserved_document(agent);
            let own = member_of(said, "spec"@);
            let backend = member_of(backend_document(name, programmed), "spec"@);
            &&& member_of(member_of(said, "metadata"@), "name"@) == JsonView::Text(agent.resource)
            &&& member_of(member_of(own, "identity"@), "kind"@) == JsonView::Text("reserved"@)
            &&& member_of(own, "labels"@) == labels_document(agent.labels)
            &&& member_of(member_of(own, "repositoryRef"@), "name"@) == JsonView::Text(REPOSITORY@)
            &&& member_of(member_of(backend_document(name, programmed), "metadata"@), "name"@)
                == JsonView::Text(name)
            &&& member_of(member_of(backend, "selector"@), "matchLabels"@) == labels_document(
                seq![(COHORT_LABEL@, EXTERNAL_COHORT@)],
            )
            &&& member_of(backend, "healthBase"@) == JsonView::Text(HEALTH_CDN@)
            &&& member_of(backend, "target"@) == programmed
        }),
{
    crate::document_laws::lemma_resource_names();
    reveal_strlit("repositoryRef");
    reveal_strlit("identity");
    reveal_strlit("labels");
    reveal_strlit("selector");
    reveal_strlit("healthBase");
    reveal_strlit("target");
    assert("repositoryRef"@.len() == 13 && "identity"@.len() == 8 && "labels"@.len() == 6);
    assert("selector"@.len() == 8 && "healthBase"@.len() == 10 && "target"@.len() == 6);
}

/// The load balancers' backend is programmed through one endpoint of each of them, and the other through
/// the endpoints of its service.
pub proof fn backends_program_their_endpoints(place: int)
    requires
        0 <= place < HAPROXY_REPLICAS,
    ensures
        ({
            let balanced = member_of(member_of(haproxy_backend_document(), "spec"@), "target"@);
            let sliced = member_of(member_of(external_backend_document(), "spec"@), "target"@);
            let endpoints = crate::json::items_of(member_of(balanced, "endpoints"@));
            &&& member_of(balanced, "kind"@) == JsonView::Text("haProxy"@)
            &&& endpoints.len() == HAPROXY_REPLICAS
            &&& endpoints[place] == JsonView::Text(
                admin_endpoint(place as nat, HAPROXY_ADMIN_PORT as nat),
            )
            &&& member_of(balanced, "backend"@) == JsonView::Text(HAPROXY_BACKEND@)
            &&& member_of(sliced, "kind"@) == JsonView::Text("endpointSlice"@)
            &&& member_of(sliced, "service"@) == JsonView::Text(EXTERNAL_SERVICE@)
            &&& member_of(sliced, "port"@) == natural(8080)
            &&& member_of(sliced, "portName"@) == JsonView::Text("http"@)
        }),
{
    crate::document_laws::lemma_resource_names();
    reveal_strlit("kind");
    reveal_strlit("endpoints");
    reveal_strlit("backend");
    reveal_strlit("service");
    reveal_strlit("port");
    reveal_strlit("portName");
    assert("kind"@.len() == 4 && "endpoints"@.len() == 9 && "backend"@.len() == 7);
    assert("service"@.len() == 7 && "port"@.len() == 4 && "portName"@.len() == 8);
    assert("kind"@[0] == 'k' && "port"@[0] == 'p');
}

} // verus!
