//! Everything that the demo applies, as documents.

use crate::commands::NAMESPACE;
use crate::demo::access::{
    console_role, plan_console_role, plan_reconciler_role, reconciler_role, AccessRule, RolePlan,
    RoleView, RuleView,
};
use crate::demo::groups::{group_on, groups_on, planned_group, planned_groups};
use crate::demo::layout::{DEMO_COHORT_COUNT, DEMO_EXTERNAL_COHORT, DEMO_SET_COUNT};
use crate::demo::resources::{
    cohort_plan, display_set_plan, external_route, external_service_plan, fleet_set_plan,
    group_plan_views, magnolia_plans, plan_cohort_groups, plan_external_group,
    plan_magnolia_groups, plan_routes, plan_services, plan_sets, route_view, route_views,
    sample_group, set_route, set_service_plan, FleetSource, GroupPlanView, MagnoliaSource, Route,
};
use crate::document_laws::lemma_resource_names;
use crate::documents::{
    account_document, account_value, add_resource, add_resources, front_document, front_value,
    labels_document, labels_value, place_document, place_value, read_group, resource_document,
    resource_value, service_document, service_documents, service_values, set_natural,
    set_resource_document,
    set_resource_value, sole_item, sole_text, template_fault, texts_document, texts_value, variables_document, variables_value,
    with_natural, workload_document, workload_value, IMAGE,
};
use crate::json::{
    bare, items_of, list_value, member_of, natural, number_value, object_value, parsed_json,
    set_member, text_value, value_content, value_contents, JsonView,
};
use crate::resources::{label, pairs, set_plan_view, set_plan_views, SetPlan, SetPlanView};
use crate::text::{listed, str_views, views};
use serde_json::Value;
use vstd::prelude::*;

verus! {

// ----- roles -----

/// What may be done to one kind of resource.
pub open spec fn rule_document(rule: RuleView) -> JsonView {
    bare().with("apiGroups"@, texts_document(seq![rule.api_group])).with(
        "resources"@,
        texts_document(seq![rule.resource]),
    ).with("verbs"@, texts_document(rule.verbs))
}

fn owned(texts: &Vec<&'static str>) -> (result: Vec<String>)
    ensures
        views(result@) == str_views(texts@),
{
    let mut result: Vec<String> = Vec::new();
    let mut index: usize = 0;
    while index < texts.len()
        invariant
            index <= texts.len(),
            result@.len() == index,
            forall|i: int| 0 <= i < index ==> (#[trigger] result@[i])@ == texts@[i]@,
        decreases texts.len() - index,
    {
        result.push(texts[index].to_owned());
        index = index + 1;
    }
    assert(views(result@) =~= str_views(texts@));
    result
}

fn rule_value(rule: &AccessRule) -> (result: Value)
    ensures
        value_content(result) == rule_document(
            (RuleView {
                api_group: rule.api_group@,
                resource: rule.resource@,
                verbs: str_views(rule.verbs@),
            }),
        ),
{
    let mut document = object_value();
    set_member(&mut document, "apiGroups", sole_text(rule.api_group));
    set_member(&mut document, "resources", sole_text(rule.resource));
    set_member(&mut document, "verbs", texts_value(&owned(&rule.verbs)));
    document
}

/// The API that roles belong to.
pub const ROLE_API: &'static str = "rbac.authorization.k8s.io";

/// The version of the API that roles belong to.
pub const ROLE_API_VERSION: &'static str = "rbac.authorization.k8s.io/v1";

/// A role: what may be done to each kind of resource.
pub open spec fn role_document(role: RoleView) -> JsonView {
    resource_document(ROLE_API_VERSION@, "Role"@, place_document(role.name)).with(
        "rules"@,
        JsonView::List(Seq::new(role.rules.len(), |i: int| rule_document(role.rules[i]))),
    )
}

/// The account that holds a role.
pub open spec fn binding_document(role: RoleView) -> JsonView {
    let holder = bare().with("kind"@, JsonView::Text("ServiceAccount"@)).with(
        "name"@,
        JsonView::Text(role.account),
    ).with("namespace"@, JsonView::Text(NAMESPACE@));
    let held = bare().with("apiGroup"@, JsonView::Text(ROLE_API@)).with(
        "kind"@,
        JsonView::Text("Role"@),
    ).with("name"@, JsonView::Text(role.name));
    resource_document(ROLE_API_VERSION@, "RoleBinding"@, place_document(role.name)).with(
        "subjects"@,
        JsonView::List(seq![holder]),
    ).with("roleRef"@, held)
}

fn role_value(role: &RolePlan) -> (result: Value)
    ensures
        value_content(result) == role_document(role@),
{
    let ghost wanted = role@.rules;
    let mut rules: Vec<Value> = Vec::new();
    let mut index: usize = 0;
    while index < role.rules.len()
        invariant
            index <= role.rules.len(),
            wanted == role@.rules,
            wanted.len() == role.rules@.len(),
            rules@.len() == index,
            forall|i: int|
                0 <= i < index ==> value_content(#[trigger] rules@[i]) == rule_document(wanted[i]),
        decreases role.rules.len() - index,
    {
        rules.push(rule_value(&role.rules[index]));
        index = index + 1;
    }
    assert(value_contents(rules@) =~= Seq::new(wanted.len(), |i: int| rule_document(wanted[i])));
    let mut document = resource_value(ROLE_API_VERSION, "Role", place_value(role.name));
    set_member(&mut document, "rules", list_value(rules));
    document
}

fn binding_value(role: &RolePlan) -> (result: Value)
    ensures
        value_content(result) == binding_document(role@),
{
    let mut holder = object_value();
    set_member(&mut holder, "kind", text_value("ServiceAccount"));
    set_member(&mut holder, "name", text_value(role.account));
    set_member(&mut holder, "namespace", text_value(NAMESPACE));
    let mut held = object_value();
    set_member(&mut held, "apiGroup", text_value(ROLE_API));
    set_member(&mut held, "kind", text_value("Role"));
    set_member(&mut held, "name", text_value(role.name));
    let mut document = resource_value(ROLE_API_VERSION, "RoleBinding", place_value(role.name));
    set_member(&mut document, "subjects", sole_item(holder));
    set_member(&mut document, "roleRef", held);
    document
}

/// A role, and the account that holds it.
pub open spec fn access_documents(role: RoleView) -> Seq<JsonView> {
    seq![role_document(role), binding_document(role)]
}

/// A role, and the account that holds it.
pub fn access_values(role: &RolePlan) -> (result: Vec<Value>)
    ensures
        value_contents(result@) == access_documents(role@),
{
    let result: Vec<Value> = vec![role_value(role), binding_value(role)];
    assert(value_contents(result@) =~= access_documents(role@));
    result
}

// ----- throttle sets -----

/// A throttle set.
pub open spec fn set_document(plan: SetPlanView) -> JsonView {
    set_resource_document(
        place_document(plan.name),
        with_natural(
            bare().with("selector"@, bare().with("matchLabels"@, labels_document(plan.selector))),
            "maxConcurrent"@,
            match plan.max_concurrent {
                Some(width) => Some(width as u64),
                None => None,
            },
        ),
    )
}

/// A throttle set.
pub fn set_value(plan: &SetPlan) -> (result: Value)
    ensures
        value_content(result) == set_document(set_plan_view(*plan)),
{
    let mut selector = object_value();
    set_member(&mut selector, "matchLabels", labels_value(&plan.selector));
    let mut spec_part = object_value();
    set_member(&mut spec_part, "selector", selector);
    let width: Option<u64> = match plan.max_concurrent {
        Some(width) => Some(width as u64),
        None => None,
    };
    set_natural(&mut spec_part, "maxConcurrent", width);
    set_resource_value(place_value(plan.name.as_str()), spec_part)
}

/// Throttle sets, in order.
pub open spec fn set_documents(plans: Seq<SetPlanView>) -> Seq<JsonView> {
    Seq::new(plans.len(), |i: int| set_document(plans[i]))
}

fn set_values(plans: &Vec<SetPlan>) -> (result: Vec<Value>)
    ensures
        value_contents(result@) == set_documents(set_plan_views(plans@)),
{
    let mut result: Vec<Value> = Vec::new();
    let mut index: usize = 0;
    while index < plans.len()
        invariant
            index <= plans.len(),
            result@.len() == index,
            forall|i: int|
                0 <= i < index ==> value_content(#[trigger] result@[i]) == set_document(
                    set_plan_view(plans@[i]),
                ),
        decreases plans.len() - index,
    {
        result.push(set_value(&plans[index]));
        index = index + 1;
    }
    assert(value_contents(result@) =~= set_documents(set_plan_views(plans@)));
    result
}

// ----- the entrance -----

/// A route into the cluster.
pub open spec fn route_document(route: (Seq<char>, Seq<char>)) -> JsonView {
    bare().with("path"@, JsonView::Text(route.0)).with(
        "pathType"@,
        JsonView::Text("ImplementationSpecific"@),
    ).with(
        "backend"@,
        bare().with(
            "service"@,
            bare().with("name"@, JsonView::Text(route.1)).with(
                "port"@,
                bare().with("number"@, natural(8080)),
            ),
        ),
    )
}

fn route_value(route: &Route) -> (result: Value)
    ensures
        value_content(result) == route_document(route_view(*route)),
{
    let mut port = object_value();
    set_member(&mut port, "number", number_value(8080));
    let mut service = object_value();
    set_member(&mut service, "name", text_value(route.service.as_str()));
    set_member(&mut service, "port", port);
    let mut backend = object_value();
    set_member(&mut backend, "service", service);
    let mut document = object_value();
    set_member(&mut document, "path", text_value(route.path.as_str()));
    set_member(&mut document, "pathType", text_value("ImplementationSpecific"));
    set_member(&mut document, "backend", backend);
    document
}

/// The entrance through which paths lead to services. What leads to a service is taken off a path,
/// so that a pod sees the rest of it only.
pub open spec fn ingress_document(routes: Seq<(Seq<char>, Seq<char>)>) -> JsonView {
    let paths = JsonView::List(Seq::new(routes.len(), |i: int| route_document(routes[i])));
    resource_document(
        "networking.k8s.io/v1"@,
        "Ingress"@,
        place_document("demo-load"@).with(
            "annotations"@,
            bare().with(
                "nginx.ingress.kubernetes.io/rewrite-target"@,
                JsonView::Text("/$2"@),
            ),
        ),
    ).with(
        "spec"@,
        bare().with("ingressClassName"@, JsonView::Text("nginx"@)).with(
            "rules"@,
            JsonView::List(seq![bare().with("http"@, bare().with("paths"@, paths))]),
        ),
    )
}

/// The entrance through which paths lead to services.
pub fn ingress_value(routes: &Vec<Route>) -> (result: Value)
    ensures
        value_content(result) == ingress_document(route_views(routes@)),
{
    let ghost wanted = route_views(routes@);
    let mut paths: Vec<Value> = Vec::new();
    let mut index: usize = 0;
    while index < routes.len()
        invariant
            index <= routes.len(),
            wanted == route_views(routes@),
            paths@.len() == index,
            forall|i: int|
                0 <= i < index ==> value_content(#[trigger] paths@[i]) == route_document(wanted[i]),
        decreases routes.len() - index,
    {
        paths.push(route_value(&routes[index]));
        index = index + 1;
    }
    assert(value_contents(paths@) =~= Seq::new(wanted.len(), |i: int| route_document(wanted[i])));
    let mut notes = object_value();
    set_member(&mut notes, "nginx.ingress.kubernetes.io/rewrite-target", text_value("/$2"));
    let mut metadata = place_value("demo-load");
    set_member(&mut metadata, "annotations", notes);
    let mut http = object_value();
    set_member(&mut http, "paths", list_value(paths));
    let mut rule = object_value();
    set_member(&mut rule, "http", http);
    let mut spec_part = object_value();
    set_member(&mut spec_part, "ingressClassName", text_value("nginx"));
    set_member(&mut spec_part, "rules", sole_item(rule));
    let mut document = resource_value("networking.k8s.io/v1", "Ingress", metadata);
    set_member(&mut document, "spec", spec_part);
    document
}

// ----- the console -----

/// The settings of the console inside the cluster.
pub open spec fn console_settings(source: FleetSource) -> Seq<(Seq<char>, Seq<char>)> {
    seq![
        ("DEMO_PROVIDER_PATH"@, source.provider_path@),
        ("DEMO_PROVIDER_SHA256"@, source.bootstrap.provider_sha@),
        ("DEMO_REPOSITORY_DATA"@, "/release-data"@),
        ("AWS_ACCESS_KEY_ID"@, "minio"@),
        ("AWS_SECRET_ACCESS_KEY"@, "minio123"@),
    ]
}

/// The container of the console.
pub open spec fn console_container(source: FleetSource) -> JsonView {
    let mount = bare().with("name"@, JsonView::Text("release-repository"@)).with(
        "mountPath"@,
        JsonView::Text("/release-data"@),
    );
    let port = bare().with("name"@, JsonView::Text("http"@)).with("containerPort"@, natural(8080));
    let question = bare().with("path"@, JsonView::Text("/healthz"@)).with(
        "port"@,
        JsonView::Text("http"@),
    );
    bare().with("name"@, JsonView::Text("demo"@)).with("image"@, JsonView::Text(IMAGE@)).with(
        "imagePullPolicy"@,
        JsonView::Text("Never"@),
    ).with("command"@, texts_document(seq!["/usr/local/bin/updatec-demo"@, "serve"@])).with(
        "env"@,
        variables_document(console_settings(source)),
    ).with("volumeMounts"@, JsonView::List(seq![mount])).with(
        "ports"@,
        JsonView::List(seq![port]),
    ).with("readinessProbe"@, bare().with("httpGet"@, question))
}

fn console_container_value(source: &FleetSource) -> (result: Value)
    ensures
        value_content(result) == console_container(*source),
{
    let mut mount = object_value();
    set_member(&mut mount, "name", text_value("release-repository"));
    set_member(&mut mount, "mountPath", text_value("/release-data"));
    let mut port = object_value();
    set_member(&mut port, "name", text_value("http"));
    set_member(&mut port, "containerPort", number_value(8080));
    let mut question = object_value();
    set_member(&mut question, "path", text_value("/healthz"));
    set_member(&mut question, "port", text_value("http"));
    let mut probe = object_value();
    set_member(&mut probe, "httpGet", question);
    let command = listed(vec!["/usr/local/bin/updatec-demo", "serve"]);
    assert(views(command@) =~= seq!["/usr/local/bin/updatec-demo"@, "serve"@]);
    let settings = vec![
        label("DEMO_PROVIDER_PATH", source.provider_path.as_str()),
        label("DEMO_PROVIDER_SHA256", source.bootstrap.provider_sha.as_str()),
        label("DEMO_REPOSITORY_DATA", "/release-data"),
        label("AWS_ACCESS_KEY_ID", "minio"),
        label("AWS_SECRET_ACCESS_KEY", "minio123"),
    ];
    assert(pairs(settings@) =~= console_settings(*source));
    let mut container = object_value();
    set_member(&mut container, "name", text_value("demo"));
    set_member(&mut container, "image", text_value(IMAGE));
    set_member(&mut container, "imagePullPolicy", text_value("Never"));
    set_member(&mut container, "command", texts_value(&command));
    set_member(&mut container, "env", variables_value(&settings));
    set_member(&mut container, "volumeMounts", sole_item(mount));
    set_member(&mut container, "ports", sole_item(port));
    set_member(&mut container, "readinessProbe", probe);
    container
}

/// The pod of the console.
pub open spec fn console_pod(source: FleetSource) -> JsonView {
    let volume = bare().with("name"@, JsonView::Text("release-repository"@)).with(
        "persistentVolumeClaim"@,
        bare().with("claimName"@, JsonView::Text("release-repository"@)),
    );
    bare().with("serviceAccountName"@, JsonView::Text("updatec-demo"@)).with(
        "containers"@,
        JsonView::List(seq![console_container(source)]),
    ).with("volumes"@, JsonView::List(seq![volume]))
}

/// The console inside the cluster, and the service in front of it.
pub open spec fn console_documents(source: FleetSource) -> Seq<JsonView> {
    seq![
        workload_document("updatec-demo"@, console_pod(source)),
        front_document("updatec-demo"@, seq![("app"@, "updatec-demo"@)], 80),
    ]
}

fn console_values(source: &FleetSource) -> (result: Vec<Value>)
    ensures
        value_contents(result@) == console_documents(*source),
{
    let mut claim = object_value();
    set_member(&mut claim, "claimName", text_value("release-repository"));
    let mut volume = object_value();
    set_member(&mut volume, "name", text_value("release-repository"));
    set_member(&mut volume, "persistentVolumeClaim", claim);
    let mut pod = object_value();
    set_member(&mut pod, "serviceAccountName", text_value("updatec-demo"));
    set_member(&mut pod, "containers", sole_item(console_container_value(source)));
    set_member(&mut pod, "volumes", sole_item(volume));
    let selector = vec![label("app", "updatec-demo")];
    assert(pairs(selector@) =~= seq![("app"@, "updatec-demo"@)]);
    let result: Vec<Value> = vec![
        workload_value("updatec-demo", pod),
        front_value("updatec-demo", &selector, 80),
    ];
    assert(value_contents(result@) =~= console_documents(*source));
    result
}

// ----- everything -----

/// The groups that the demo applies: those of the cohorts, and of Magnolia where it is published.
pub open spec fn demo_plans(source: FleetSource, magnolia: Option<MagnoliaSource>) -> Seq<GroupPlanView> {
    Seq::new(DEMO_COHORT_COUNT as nat, |i: int| cohort_plan(i as nat, source)) + magnolia_plans(
        magnolia,
    )
}

/// The group of the agents outside the sets.
pub open spec fn external_plan(source: FleetSource) -> GroupPlanView {
    sample_group(DEMO_EXTERNAL_COHORT@, Seq::empty(), DEMO_EXTERNAL_COHORT@, source)
}

/// The throttle sets that the demo applies.
pub open spec fn set_plans() -> Seq<SetPlanView> {
    Seq::new(DEMO_SET_COUNT as nat, |i: int| display_set_plan(i as nat)).push(fleet_set_plan())
}

/// The services that the demo applies.
pub open spec fn service_plans() -> Seq<(Seq<char>, Seq<(Seq<char>, Seq<char>)>)> {
    Seq::new(DEMO_SET_COUNT as nat, |i: int| set_service_plan(i as nat)).push(
        external_service_plan(),
    )
}

/// The routes that the demo applies.
pub open spec fn route_plans() -> Seq<(Seq<char>, Seq<char>)> {
    Seq::new(DEMO_SET_COUNT as nat, |i: int| set_route(i as nat)).push(external_route())
}

/// Everything that the demo applies, in order, on the template of a group.
pub open spec fn demo_documents(
    group: JsonView,
    source: FleetSource,
    magnolia: Option<MagnoliaSource>,
) -> Seq<JsonView> {
    let fleet = seq![account_document("updatec-demo"@)] + access_documents(console_role())
        + planned_groups(group, demo_plans(source, magnolia)) + set_documents(set_plans());
    let outside = fleet.push(planned_group(group, external_plan(source))).push(
        account_document("external-healthproxy"@),
    ) + access_documents(reconciler_role());
    (outside + service_documents(service_plans())).push(ingress_document(route_plans()))
        + console_documents(source)
}

/// Plans everything that the demo applies, in order, its groups on the template of a printed group.
pub fn apply_demo_resources(
    edge: &str,
    source: &FleetSource,
    magnolia: &Option<MagnoliaSource>,
) -> (result: Result<Vec<Value>, String>)
    ensures
        match (result, parsed_json(edge@)) {
            (Ok(found), Ok(group)) => template_fault(group) is None && value_contents(found@)
                == demo_documents(group, *source, *magnolia),
            (Err(message), Ok(group)) => template_fault(group) == Some(message@),
            (Err(message), Err(fault)) => message@ == fault,
            (Ok(_), Err(_)) => false,
        },
{
    let group = match read_group(edge) {
        Ok(group) => group,
        Err(message) => {
            return Err(message);
        },
    };
    let mut plans = plan_cohort_groups(source);
    let mut others = plan_magnolia_groups(magnolia);
    let ghost first = plans@;
    let ghost second = others@;
    plans.append(&mut others);
    assert(group_plan_views(plans@) =~= group_plan_views(first) + group_plan_views(second));
    let groups = match groups_on(&group, &plans) {
        Ok(groups) => groups,
        Err(message) => {
            return Err(message);
        },
    };
    let external = match group_on(&group, &plan_external_group(source)) {
        Ok(external) => external,
        Err(message) => {
            return Err(message);
        },
    };
    let mut items: Vec<Value> = vec![account_value("updatec-demo")];
    assert(value_contents(items@) =~= seq![account_document("updatec-demo"@)]);
    add_resources(&mut items, access_values(&plan_console_role()));
    add_resources(&mut items, groups);
    add_resources(&mut items, set_values(&plan_sets()));
    add_resource(&mut items, external);
    add_resource(&mut items, account_value("external-healthproxy"));
    add_resources(&mut items, access_values(&plan_reconciler_role()));
    add_resources(&mut items, service_values(&plan_services()));
    add_resource(&mut items, ingress_value(&plan_routes()));
    add_resources(&mut items, console_values(source));
    Ok(items)
}

// ----- what is applied -----

/// A role lists each of its rules, in order, with one API group, one kind of resource and the verbs that
/// it allows; the account that holds it is bound to it.
pub proof fn roles_are_bound_to_their_accounts(role: RoleView, place: int)
    requires
        0 <= place < role.rules.len(),
    ensures
        ({
            let rules = items_of(member_of(role_document(role), "rules"@));
            let bound = binding_document(role);
            let holders = items_of(member_of(bound, "subjects"@));
            &&& rules.len() == role.rules.len()
            &&& member_of(rules[place], "apiGroups"@) == texts_document(
                seq![role.rules[place].api_group],
            )
            &&& member_of(rules[place], "resources"@) == texts_document(
                seq![role.rules[place].resource],
            )
            &&& member_of(rules[place], "verbs"@) == texts_document(role.rules[place].verbs)
            &&& member_of(member_of(role_document(role), "metadata"@), "name"@) == JsonView::Text(
                role.name,
            )
            &&& holders.len() == 1
            &&& member_of(holders[0], "kind"@) == JsonView::Text("ServiceAccount"@)
            &&& member_of(holders[0], "name"@) == JsonView::Text(role.account)
            &&& member_of(holders[0], "namespace"@) == JsonView::Text(NAMESPACE@)
            &&& member_of(member_of(bound, "roleRef"@), "kind"@) == JsonView::Text("Role"@)
            &&& member_of(member_of(bound, "roleRef"@), "name"@) == JsonView::Text(role.name)
        }),
{
    lemma_resource_names();
    reveal_strlit("apiGroups");
    reveal_strlit("resources");
    reveal_strlit("verbs");
    assert("apiGroups"@.len() == 9 && "resources"@.len() == 9 && "verbs"@.len() == 5);
    assert("apiGroups"@[0] == 'a' && "resources"@[0] == 'r');
    reveal_strlit("rules");
    reveal_strlit("subjects");
    reveal_strlit("roleRef");
    reveal_strlit("metadata");
    assert("rules"@.len() == 5 && "subjects"@.len() == 8 && "roleRef"@.len() == 7);
    assert("metadata"@.len() == 8 && "metadata"@[0] == 'm' && "subjects"@[0] == 's');
    reveal_strlit("kind");
    reveal_strlit("name");
    reveal_strlit("namespace");
    reveal_strlit("apiGroup");
    assert("kind"@.len() == 4 && "name"@.len() == 4 && "namespace"@.len() == 9 && "apiGroup"@.len()
        == 8);
    assert("kind"@[0] == 'k' && "name"@[0] == 'n');
}

/// A throttle set says what it selects, and how many of its groups may roll at once only where that is
/// planned.
pub proof fn sets_say_what_they_pace(plan: SetPlanView)
    ensures
        ({
            let said = set_document(plan);
            let own = member_of(said, "spec"@);
            &&& member_of(member_of(said, "metadata"@), "name"@) == JsonView::Text(plan.name)
            &&& member_of(member_of(own, "selector"@), "matchLabels"@) == labels_document(
                plan.selector,
            )
            &&& plan.max_concurrent is Some ==> member_of(own, "maxConcurrent"@) == natural(
                plan.max_concurrent->0 as u64,
            )
            &&& plan.max_concurrent is None ==> member_of(own, "maxConcurrent"@) is Null
        }),
{
    lemma_resource_names();
    reveal_strlit("selector");
    reveal_strlit("maxConcurrent");
    assert("selector"@.len() == 8 && "maxConcurrent"@.len() == 13);
}

/// Every route leads from its path to its service, in order.
pub proof fn routes_lead_from_their_paths(routes: Seq<(Seq<char>, Seq<char>)>, place: int)
    requires
        0 <= place < routes.len(),
    ensures
        ({
            let rules = items_of(member_of(member_of(ingress_document(routes), "spec"@), "rules"@));
            let paths = items_of(member_of(member_of(rules[0], "http"@), "paths"@));
            let service = member_of(member_of(paths[place], "backend"@), "service"@);
            &&& rules.len() == 1
            &&& paths.len() == routes.len()
            &&& member_of(paths[place], "path"@) == JsonView::Text(routes[place].0)
            &&& member_of(service, "name"@) == JsonView::Text(routes[place].1)
            &&& member_of(member_of(service, "port"@), "number"@) == natural(8080)
        }),
{
    lemma_resource_names();
    reveal_strlit("path");
    reveal_strlit("pathType");
    reveal_strlit("backend");
    assert("path"@.len() == 4 && "pathType"@.len() == 8 && "backend"@.len() == 7);
    reveal_strlit("name");
    reveal_strlit("port");
    assert("name"@.len() == 4 && "port"@.len() == 4 && "name"@[0] == 'n' && "port"@[0] == 'p');
    reveal_strlit("ingressClassName");
    reveal_strlit("rules");
    assert("ingressClassName"@.len() == 16 && "rules"@.len() == 5);
}

/// The console is told which reconciler its releases are signed with, and where they lie.
pub proof fn the_console_is_told_its_reconciler(source: FleetSource)
    ensures
        console_settings(source).contains(("DEMO_PROVIDER_PATH"@, source.provider_path@)),
        console_settings(source).contains(
            ("DEMO_PROVIDER_SHA256"@, source.bootstrap.provider_sha@),
        ),
        console_settings(source).contains(("DEMO_REPOSITORY_DATA"@, "/release-data"@)),
        member_of(console_container(source), "env"@) == variables_document(
            console_settings(source),
        ),
        member_of(
            member_of(member_of(console_container(source), "readinessProbe"@), "httpGet"@),
            "path"@,
        ) == JsonView::Text("/healthz"@),
        items_of(member_of(console_pod(source), "containers"@)) == seq![console_container(source)],
{
    let settings = console_settings(source);
    assert(settings[0] == ("DEMO_PROVIDER_PATH"@, source.provider_path@));
    assert(settings[1] == ("DEMO_PROVIDER_SHA256"@, source.bootstrap.provider_sha@));
    assert(settings[2] == ("DEMO_REPOSITORY_DATA"@, "/release-data"@));
    reveal_strlit("env");
    reveal_strlit("volumeMounts");
    reveal_strlit("ports");
    reveal_strlit("readinessProbe");
    assert("env"@.len() == 3 && "volumeMounts"@.len() == 12 && "ports"@.len() == 5
        && "readinessProbe"@.len() == 14);
    reveal_strlit("path");
    reveal_strlit("port");
    assert("path"@.len() == 4 && "port"@.len() == 4 && "path"@[1] == 'a' && "port"@[1] == 'o');
    reveal_strlit("containers");
    reveal_strlit("volumes");
    assert("containers"@.len() == 10 && "volumes"@.len() == 7);
}

/// Everything is applied once and in order: the console's account and role, the groups of every cohort
/// and of Magnolia, the throttle sets, the agents outside them with what programs their endpoints, the
/// services and routes, and the console last.
pub proof fn everything_is_applied_in_order(
    group: JsonView,
    source: FleetSource,
    magnolia: Option<MagnoliaSource>,
    cohort: int,
    set: int,
    extra: int,
)
    requires
        0 <= cohort < DEMO_COHORT_COUNT,
        0 <= set <= DEMO_SET_COUNT,
        0 <= extra < magnolia_plans(magnolia).len(),
    ensures
        ({
            let all = demo_documents(group, source, magnolia);
            let groups = 3 + DEMO_COHORT_COUNT + magnolia_plans(magnolia).len();
            let sets = groups + DEMO_SET_COUNT + 1;
            &&& all.len() == sets + 4 + DEMO_SET_COUNT + 1 + 3
            &&& all[0] == account_document("updatec-demo"@)
            &&& all[1] == role_document(console_role())
            &&& all[2] == binding_document(console_role())
            &&& all[3 + cohort] == planned_group(group, cohort_plan(cohort as nat, source))
            &&& all[3 + DEMO_COHORT_COUNT + extra] == planned_group(
                group,
                magnolia_plans(magnolia)[extra],
            )
            &&& set < DEMO_SET_COUNT ==> all[groups + set] == set_document(
                display_set_plan(set as nat),
            )
            &&& all[groups + DEMO_SET_COUNT] == set_document(fleet_set_plan())
            &&& all[sets] == planned_group(group, external_plan(source))
            &&& all[sets + 1] == account_document("external-healthproxy"@)
            &&& all[sets + 2] == role_document(reconciler_role())
            &&& all[sets + 3] == binding_document(reconciler_role())
            &&& set < DEMO_SET_COUNT ==> all[sets + 4 + set] == service_document(
                set_service_plan(set as nat),
            )
            &&& all[sets + 4 + DEMO_SET_COUNT] == service_document(external_service_plan())
            &&& all[sets + 4 + DEMO_SET_COUNT + 1] == ingress_document(route_plans())
            &&& all[sets + 4 + DEMO_SET_COUNT + 2] == console_documents(source)[0]
            &&& all[sets + 4 + DEMO_SET_COUNT + 3] == console_documents(source)[1]
        }),
{
    let fleet = seq![account_document("updatec-demo"@)] + access_documents(console_role())
        + planned_groups(group, demo_plans(source, magnolia)) + set_documents(set_plans());
    let groups = 3 + DEMO_COHORT_COUNT + magnolia_plans(magnolia).len();
    assert(demo_plans(source, magnolia).len() == DEMO_COHORT_COUNT + magnolia_plans(magnolia).len());
    assert(set_plans().len() == DEMO_SET_COUNT + 1);
    assert(fleet.len() == groups + DEMO_SET_COUNT + 1);
    assert(demo_plans(source, magnolia)[cohort] == cohort_plan(cohort as nat, source));
    assert(demo_plans(source, magnolia)[DEMO_COHORT_COUNT + extra] == magnolia_plans(
        magnolia,
    )[extra]);
    let outside = fleet.push(planned_group(group, external_plan(source))).push(
        account_document("external-healthproxy"@),
    ) + access_documents(reconciler_role());
    assert(service_plans().len() == DEMO_SET_COUNT + 1);
    assert(outside.len() == fleet.len() + 4);
}

/// The console runs as one workload, behind a service that is reached on the port of the web and leads
/// to that workload's pods.
pub proof fn the_console_is_reached_on_the_web_port(source: FleetSource)
    ensures
        console_documents(source).len() == 2,
        console_documents(source)[0] == workload_document("updatec-demo"@, console_pod(source)),
        console_documents(source)[1] == front_document(
            "updatec-demo"@,
            seq![("app"@, "updatec-demo"@)],
            80,
        ),
        member_of(console_pod(source), "serviceAccountName"@) == JsonView::Text("updatec-demo"@),
{
    reveal_strlit("serviceAccountName");
    reveal_strlit("containers");
    reveal_strlit("volumes");
    assert("serviceAccountName"@.len() == 18 && "containers"@.len() == 10 && "volumes"@.len() == 7);
}

} // verus!
