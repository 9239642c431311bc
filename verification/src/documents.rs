//! Documents of the control plane, and groups on the template of one that is known to be complete.

use crate::commands::NAMESPACE;
use crate::json::{
    bare, flag_value, is_null, is_object, list_value, member_of, member_value, members_of, natural,
    number_value, object_value, parse_value, parsed_json, set_member, takes_members, text_value,
    value_content, value_contents, JsonView,
};
use crate::labels::Label;
use crate::resources::{
    pairs, service_plan_view, service_plan_views, target_view, ServicePlan, TargetReference, Timeouts,
};
use crate::text::{listed, views};
use serde_json::Value;
use vstd::prelude::*;

verus! {

/// The API that the control plane's resources belong to.
pub const API_VERSION: &'static str = "updated.dev/v1alpha1";

/// The repository that every group resolves its releases through.
pub const REPOSITORY: &'static str = "default";

/// The image that every pod of the fleet runs.
pub const IMAGE: &'static str = "updatec-e2e:kind";

// ----- parts -----

/// A target.
pub open spec fn target_document(target: (Seq<char>, Seq<char>)) -> JsonView {
    bare().with("path"@, JsonView::Text(target.0)).with("sha256"@, JsonView::Text(target.1))
}

/// A target.
pub fn target_value(target: &TargetReference) -> (result: Value)
    ensures
        value_content(result) == target_document(target_view(*target)),
{
    let mut document = object_value();
    set_member(&mut document, "path", text_value(target.path.as_str()));
    set_member(&mut document, "sha256", text_value(target.sha256.as_str()));
    document
}

/// A reference to something by its name.
pub open spec fn reference_document(name: Seq<char>) -> JsonView {
    bare().with("name"@, JsonView::Text(name))
}

/// A reference to something by its name.
pub(crate) fn reference_value(name: &str) -> (result: Value)
    ensures
        value_content(result) == reference_document(name@),
{
    let mut document = object_value();
    set_member(&mut document, "name", text_value(name));
    document
}

/// Labels, the last where a key comes twice.
pub open spec fn labels_document(labels: Seq<(Seq<char>, Seq<char>)>) -> JsonView
    decreases labels.len(),
{
    if labels.len() == 0 {
        bare()
    } else {
        labels_document(labels.drop_last()).with(labels.last().0, JsonView::Text(labels.last().1))
    }
}

/// Labels, the last where a key comes twice.
pub fn labels_value(labels: &Vec<Label>) -> (result: Value)
    ensures
        value_content(result) == labels_document(pairs(labels@)),
{
    let mut document = object_value();
    let ghost all = pairs(labels@);
    let mut index: usize = 0;
    assert(all.take(0) =~= Seq::<(Seq<char>, Seq<char>)>::empty());
    while index < labels.len()
        invariant
            index <= labels.len(),
            all == pairs(labels@),
            value_content(document) == labels_document(all.take(index as int)),
        decreases labels.len() - index,
    {
        proof {
            let next = all.take(index + 1);
            assert(next.drop_last() =~= all.take(index as int));
            assert(next.last() == all[index as int]);
            assert(takes_members(labels_document(all.take(index as int))));
        }
        set_member(
            &mut document,
            labels[index].key.as_str(),
            text_value(labels[index].value.as_str()),
        );
        index = index + 1;
    }
    assert(all.take(labels@.len() as int) =~= all);
    document
}

/// Texts, in order.
pub open spec fn texts_document(texts: Seq<Seq<char>>) -> JsonView {
    JsonView::List(Seq::new(texts.len(), |i: int| JsonView::Text(texts[i])))
}

/// Texts, in order.
pub fn texts_value(texts: &Vec<String>) -> (result: Value)
    ensures
        value_content(result) == texts_document(views(texts@)),
{
    let mut items: Vec<Value> = Vec::new();
    let mut index: usize = 0;
    while index < texts.len()
        invariant
            index <= texts.len(),
            items@.len() == index,
            forall|i: int|
                0 <= i < index ==> value_content(#[trigger] items@[i]) == JsonView::Text(texts@[i]@),
        decreases texts.len() - index,
    {
        items.push(text_value(texts[index].as_str()));
        index = index + 1;
    }
    assert(value_contents(items@) =~= texts_document(views(texts@))->List_0);
    list_value(items)
}

/// A list of one text.
pub(crate) fn sole_text(text: &str) -> (result: Value)
    ensures
        value_content(result) == texts_document(seq![text@]),
{
    let texts = listed(vec![text]);
    assert(views(texts@) =~= seq![text@]);
    texts_value(&texts)
}

/// Names with values, in order.
pub open spec fn variables_document(variables: Seq<(Seq<char>, Seq<char>)>) -> JsonView {
    JsonView::List(
        Seq::new(
            variables.len(),
            |i: int|
                bare().with("name"@, JsonView::Text(variables[i].0)).with(
                    "value"@,
                    JsonView::Text(variables[i].1),
                ),
        ),
    )
}

/// Names with values, in order.
pub fn variables_value(variables: &Vec<Label>) -> (result: Value)
    ensures
        value_content(result) == variables_document(pairs(variables@)),
{
    let ghost all = pairs(variables@);
    let mut items: Vec<Value> = Vec::new();
    let mut index: usize = 0;
    while index < variables.len()
        invariant
            index <= variables.len(),
            all == pairs(variables@),
            items@.len() == index,
            forall|i: int|
                0 <= i < index ==> value_content(#[trigger] items@[i]) == bare().with(
                    "name"@,
                    JsonView::Text(all[i].0),
                ).with("value"@, JsonView::Text(all[i].1)),
        decreases variables.len() - index,
    {
        let mut entry = object_value();
        set_member(&mut entry, "name", text_value(variables[index].key.as_str()));
        set_member(&mut entry, "value", text_value(variables[index].value.as_str()));
        items.push(entry);
        index = index + 1;
    }
    assert(value_contents(items@) =~= variables_document(all)->List_0);
    list_value(items)
}

/// A list of one item.
pub(crate) fn sole_item(item: Value) -> (result: Value)
    ensures
        value_content(result) == JsonView::List(seq![value_content(item)]),
{
    let ghost content = value_content(item);
    let items: Vec<Value> = vec![item];
    assert(value_contents(items@) =~= seq![content]);
    list_value(items)
}

/// An object with a number, where there is one.
pub open spec fn with_natural(json: JsonView, name: Seq<char>, number: Option<u64>) -> JsonView {
    match number {
        Some(number) => json.with(name, natural(number)),
        None => json,
    }
}

/// Sets a number, where there is one.
pub(crate) fn set_natural(document: &mut Value, name: &str, number: Option<u64>)
    requires
        takes_members(value_content(*old(document))),
    ensures
        value_content(*final(document)) == with_natural(
            value_content(*old(document)),
            name@,
            number,
        ),
        takes_members(value_content(*final(document))),
{
    match number {
        Some(number) => {
            set_member(document, name, number_value(number));
        },
        None => {},
    }
}

/// How often a node does what.
pub open spec fn timeouts_document(timeouts: Timeouts) -> JsonView {
    let always = bare().with("checkIntervalSeconds"@, natural(timeouts.check_interval)).with(
        "healthGraceSeconds"@,
        natural(timeouts.health_grace),
    ).with("healthSuccesses"@, natural(timeouts.health_successes)).with(
        "healthIntervalSeconds"@,
        natural(timeouts.health_interval),
    ).with("refreshRetrySeconds"@, natural(timeouts.refresh_retry)).with(
        "confirmationWindowSeconds"@,
        natural(timeouts.confirmation_window),
    );
    let retried = with_natural(always, "retryAfterSeconds"@, timeouts.retry_after);
    let supervised = with_natural(
        retried,
        "supervisorCheckIntervalSeconds"@,
        timeouts.supervisor_check_interval,
    );
    with_natural(supervised, "drainHoldSeconds"@, timeouts.drain_hold)
}

/// How often a node does what.
pub fn timeouts_value(timeouts: &Timeouts) -> (result: Value)
    ensures
        value_content(result) == timeouts_document(*timeouts),
{
    let mut document = object_value();
    set_member(&mut document, "checkIntervalSeconds", number_value(timeouts.check_interval));
    set_member(&mut document, "healthGraceSeconds", number_value(timeouts.health_grace));
    set_member(&mut document, "healthSuccesses", number_value(timeouts.health_successes));
    set_member(&mut document, "healthIntervalSeconds", number_value(timeouts.health_interval));
    set_member(&mut document, "refreshRetrySeconds", number_value(timeouts.refresh_retry));
    set_member(
        &mut document,
        "confirmationWindowSeconds",
        number_value(timeouts.confirmation_window),
    );
    set_natural(&mut document, "retryAfterSeconds", timeouts.retry_after);
    set_natural(
        &mut document,
        "supervisorCheckIntervalSeconds",
        timeouts.supervisor_check_interval,
    );
    set_natural(&mut document, "drainHoldSeconds", timeouts.drain_hold);
    document
}

/// A repository that releases are resolved from.
pub open spec fn repository_document(
    metadata_url: Seq<char>,
    targets_url: Seq<char>,
    root_json: Seq<char>,
) -> JsonView {
    bare().with("metadataUrl"@, JsonView::Text(metadata_url)).with(
        "targetsUrl"@,
        JsonView::Text(targets_url),
    ).with("rootJson"@, JsonView::Text(root_json))
}

/// A repository that releases are resolved from.
pub fn repository_value(metadata_url: &str, targets_url: &str, root_json: &str) -> (result: Value)
    ensures
        value_content(result) == repository_document(metadata_url@, targets_url@, root_json@),
{
    let mut document = object_value();
    set_member(&mut document, "metadataUrl", text_value(metadata_url));
    set_member(&mut document, "targetsUrl", text_value(targets_url));
    set_member(&mut document, "rootJson", text_value(root_json));
    document
}

// ----- groups -----

/// The name and place of a resource, with the labels it carries, if any.
pub open spec fn metadata_document(
    name: Seq<char>,
    labels: Seq<(Seq<char>, Seq<char>)>,
) -> JsonView {
    let place = bare().with("name"@, JsonView::Text(name)).with(
        "namespace"@,
        JsonView::Text(NAMESPACE@),
    );
    if labels.len() == 0 {
        place
    } else {
        place.with("labels"@, labels_document(labels))
    }
}

/// The name and place of a resource, with the labels it carries, if any.
pub fn metadata_value(name: &str, labels: &Vec<Label>) -> (result: Value)
    ensures
        value_content(result) == metadata_document(name@, pairs(labels@)),
{
    let mut document = object_value();
    set_member(&mut document, "name", text_value(name));
    set_member(&mut document, "namespace", text_value(NAMESPACE));
    if labels.len() > 0 {
        set_member(&mut document, "labels", labels_value(labels));
    }
    document
}

/// What a group selects, and what it has its nodes run.
pub open spec fn group_spec_document(
    selector: Seq<(Seq<char>, Seq<char>)>,
    deployment: JsonView,
) -> JsonView {
    bare().with("repositoryRef"@, reference_document(REPOSITORY@)).with(
        "selector"@,
        bare().with("matchLabels"@, labels_document(selector)),
    ).with("deployment"@, deployment)
}

fn group_spec_value(selector: &Vec<Label>, deployment: Value) -> (result: Value)
    ensures
        value_content(result) == group_spec_document(pairs(selector@), value_content(deployment)),
{
    let mut selected = object_value();
    set_member(&mut selected, "matchLabels", labels_value(selector));
    let mut document = object_value();
    set_member(&mut document, "repositoryRef", reference_value(REPOSITORY));
    set_member(&mut document, "selector", selected);
    set_member(&mut document, "deployment", deployment);
    document
}

/// A resource of the control plane that is a group.
pub open spec fn group_resource_document(metadata: JsonView, spec_part: JsonView) -> JsonView {
    resource_document(API_VERSION@, "UpdateGroup"@, metadata).with("spec"@, spec_part)
}

fn group_resource_value(metadata: Value, spec_part: Value) -> (result: Value)
    ensures
        value_content(result) == group_resource_document(
            value_content(metadata),
            value_content(spec_part),
        ),
{
    let mut document = resource_value(API_VERSION, "UpdateGroup", metadata);
    set_member(&mut document, "spec", spec_part);
    document
}

/// A group of nodes and what they are to run.
pub open spec fn group_document(
    name: Seq<char>,
    labels: Seq<(Seq<char>, Seq<char>)>,
    selector: Seq<(Seq<char>, Seq<char>)>,
    deployment: JsonView,
) -> JsonView {
    group_resource_document(
        metadata_document(name, labels),
        group_spec_document(selector, deployment),
    )
}

/// A group of nodes and what they are to run.
pub fn group_value(name: &str, labels: &Vec<Label>, selector: &Vec<Label>, deployment: Value) -> (result:
    Value)
    ensures
        value_content(result) == group_document(
            name@,
            pairs(labels@),
            pairs(selector@),
            value_content(deployment),
        ),
{
    group_resource_value(metadata_value(name, labels), group_spec_value(selector, deployment))
}

/// A group that protects itself, of which one node at a time may be unavailable, with the target
/// that it is to be upgraded to noted on it.
pub open spec fn tier_document(
    name: Seq<char>,
    notes: Seq<(Seq<char>, Seq<char>)>,
    selector: Seq<(Seq<char>, Seq<char>)>,
    deployment: JsonView,
) -> JsonView {
    group_resource_document(
        metadata_document(name, Seq::empty()).with("annotations"@, labels_document(notes)),
        group_spec_document(selector, deployment).with("maxUnavailable"@, natural(1)),
    )
}

/// A group that protects itself, of which one node at a time may be unavailable, with the target
/// that it is to be upgraded to noted on it.
pub fn tier_value(name: &str, notes: &Vec<Label>, selector: &Vec<Label>, deployment: Value) -> (result:
    Value)
    ensures
        value_content(result) == tier_document(
            name@,
            pairs(notes@),
            pairs(selector@),
            value_content(deployment),
        ),
{
    let none: Vec<Label> = Vec::new();
    assert(pairs(none@) =~= Seq::<(Seq<char>, Seq<char>)>::empty());
    let mut metadata = metadata_value(name, &none);
    set_member(&mut metadata, "annotations", labels_value(notes));
    let mut spec_part = group_spec_value(selector, deployment);
    set_member(&mut spec_part, "maxUnavailable", number_value(1));
    group_resource_value(metadata, spec_part)
}

// ----- other resources -----

/// A resource of the cluster, but for what is particular to its kind.
pub open spec fn resource_document(
    api_version: Seq<char>,
    kind: Seq<char>,
    metadata: JsonView,
) -> JsonView {
    bare().with("apiVersion"@, JsonView::Text(api_version)).with("kind"@, JsonView::Text(kind)).with(
        "metadata"@,
        metadata,
    )
}

/// A resource of the cluster, but for what is particular to its kind.
pub fn resource_value(api_version: &str, kind: &str, metadata: Value) -> (result: Value)
    ensures
        value_content(result) == resource_document(
            api_version@,
            kind@,
            value_content(metadata),
        ),
{
    let mut document = object_value();
    set_member(&mut document, "apiVersion", text_value(api_version));
    set_member(&mut document, "kind", text_value(kind));
    set_member(&mut document, "metadata", metadata);
    document
}

/// The name and place of a resource that carries no labels.
pub open spec fn place_document(name: Seq<char>) -> JsonView {
    metadata_document(name, Seq::empty())
}

/// The name and place of a resource that carries no labels.
pub fn place_value(name: &str) -> (result: Value)
    ensures
        value_content(result) == place_document(name@),
{
    let none: Vec<Label> = Vec::new();
    assert(pairs(none@) =~= Seq::<(Seq<char>, Seq<char>)>::empty());
    metadata_value(name, &none)
}

/// An account that workloads run under.
pub open spec fn account_document(name: Seq<char>) -> JsonView {
    resource_document("v1"@, "ServiceAccount"@, place_document(name))
}

/// An account that workloads run under.
pub fn account_value(name: &str) -> (result: Value)
    ensures
        value_content(result) == account_document(name@),
{
    resource_value("v1", "ServiceAccount", place_value(name))
}

/// The one port of a service, and the port behind it.
pub open spec fn ports_document(port: u64, behind: JsonView) -> JsonView {
    JsonView::List(
        seq![
            bare().with("name"@, JsonView::Text("http"@)).with("port"@, natural(port)).with(
                "targetPort"@,
                behind,
            ),
        ],
    )
}

fn ports_value(port: u64, behind: Value) -> (result: Value)
    ensures
        value_content(result) == ports_document(port, value_content(behind)),
{
    let mut entry = object_value();
    set_member(&mut entry, "name", text_value("http"));
    set_member(&mut entry, "port", number_value(port));
    set_member(&mut entry, "targetPort", behind);
    sole_item(entry)
}

/// A service in front of the pods that carry some labels, on one port.
pub open spec fn front_document(
    name: Seq<char>,
    selector: Seq<(Seq<char>, Seq<char>)>,
    port: u64,
) -> JsonView {
    resource_document("v1"@, "Service"@, place_document(name)).with(
        "spec"@,
        bare().with("selector"@, labels_document(selector)).with(
            "ports"@,
            ports_document(port, JsonView::Text("http"@)),
        ),
    )
}

/// A service in front of the pods that carry some labels, on one port.
pub fn front_value(name: &str, selector: &Vec<Label>, port: u64) -> (result: Value)
    ensures
        value_content(result) == front_document(name@, pairs(selector@), port),
{
    let mut spec_part = object_value();
    set_member(&mut spec_part, "selector", labels_value(selector));
    set_member(&mut spec_part, "ports", ports_value(port, text_value("http")));
    let mut document = resource_value("v1", "Service", place_value(name));
    set_member(&mut document, "spec", spec_part);
    document
}

/// A service of the fleet. One that selects nothing is given its endpoints from elsewhere, and so
/// names the port behind it by number.
pub open spec fn service_document(
    plan: (Seq<char>, Seq<(Seq<char>, Seq<char>)>),
) -> JsonView {
    if plan.1.len() > 0 {
        front_document(plan.0, plan.1, 8080)
    } else {
        resource_document("v1"@, "Service"@, place_document(plan.0)).with(
            "spec"@,
            bare().with("ports"@, ports_document(8080, natural(8080))),
        )
    }
}

/// A service of the fleet.
pub fn service_value(plan: &ServicePlan) -> (result: Value)
    ensures
        value_content(result) == service_document(service_plan_view(*plan)),
{
    if plan.selector.len() > 0 {
        front_value(plan.name.as_str(), &plan.selector, 8080)
    } else {
        let mut spec_part = object_value();
        set_member(&mut spec_part, "ports", ports_value(8080, number_value(8080)));
        let mut document = resource_value("v1", "Service", place_value(plan.name.as_str()));
        set_member(&mut document, "spec", spec_part);
        document
    }
}

/// Services of the fleet, in order.
pub open spec fn service_documents(
    plans: Seq<(Seq<char>, Seq<(Seq<char>, Seq<char>)>)>,
) -> Seq<JsonView> {
    Seq::new(plans.len(), |i: int| service_document(plans[i]))
}

/// Services of the fleet, in order.
pub fn service_values(plans: &Vec<ServicePlan>) -> (result: Vec<Value>)
    ensures
        value_contents(result@) == service_documents(service_plan_views(plans@)),
{
    let mut result: Vec<Value> = Vec::new();
    let mut index: usize = 0;
    while index < plans.len()
        invariant
            index <= plans.len(),
            result@.len() == index,
            forall|i: int|
                0 <= i < index ==> value_content(#[trigger] result@[i]) == service_document(
                    service_plan_view(plans@[i]),
                ),
        decreases plans.len() - index,
    {
        result.push(service_value(&plans[index]));
        index = index + 1;
    }
    assert(value_contents(result@) =~= service_documents(service_plan_views(plans@)));
    result
}

/// A throttle set, but for what is particular to its fleet.
pub open spec fn set_resource_document(metadata: JsonView, spec_part: JsonView) -> JsonView {
    resource_document(API_VERSION@, "UpdateGroupSet"@, metadata).with("spec"@, spec_part)
}

/// A throttle set, but for what is particular to its fleet.
pub fn set_resource_value(metadata: Value, spec_part: Value) -> (result: Value)
    ensures
        value_content(result) == set_resource_document(
            value_content(metadata),
            value_content(spec_part),
        ),
{
    let mut document = resource_value(API_VERSION, "UpdateGroupSet", metadata);
    set_member(&mut document, "spec", spec_part);
    document
}

/// A workload of one pod.
pub open spec fn workload_document(name: Seq<char>, pod: JsonView) -> JsonView {
    let own = bare().with("app"@, JsonView::Text(name));
    resource_document("apps/v1"@, "Deployment"@, place_document(name)).with(
        "spec"@,
        bare().with("replicas"@, natural(1)).with("selector"@, bare().with("matchLabels"@, own)).with(
            "template"@,
            bare().with("metadata"@, bare().with("labels"@, own)).with("spec"@, pod),
        ),
    )
}

fn own_label(name: &str) -> (result: Value)
    ensures
        value_content(result) == bare().with("app"@, JsonView::Text(name@)),
{
    let mut own = object_value();
    set_member(&mut own, "app", text_value(name));
    own
}

/// A workload of one pod.
pub fn workload_value(name: &str, pod: Value) -> (result: Value)
    ensures
        value_content(result) == workload_document(name@, value_content(pod)),
{
    let mut selector = object_value();
    set_member(&mut selector, "matchLabels", own_label(name));
    let mut metadata = object_value();
    set_member(&mut metadata, "labels", own_label(name));
    let mut template = object_value();
    set_member(&mut template, "metadata", metadata);
    set_member(&mut template, "spec", pod);
    let mut spec_part = object_value();
    set_member(&mut spec_part, "replicas", number_value(1));
    set_member(&mut spec_part, "selector", selector);
    set_member(&mut spec_part, "template", template);
    let mut document = resource_value("apps/v1", "Deployment", place_value(name));
    set_member(&mut document, "spec", spec_part);
    document
}

/// Resources that are applied together.
pub open spec fn list_document(items: Seq<JsonView>) -> JsonView {
    bare().with("apiVersion"@, JsonView::Text("v1"@)).with("kind"@, JsonView::Text("List"@)).with(
        "items"@,
        JsonView::List(items),
    )
}

/// Resources that are applied together.
pub fn resource_list(items: Vec<Value>) -> (result: Value)
    ensures
        value_content(result) == list_document(value_contents(items@)),
{
    let mut document = object_value();
    set_member(&mut document, "apiVersion", text_value("v1"));
    set_member(&mut document, "kind", text_value("List"));
    set_member(&mut document, "items", list_value(items));
    document
}

/// Puts a resource behind others.
pub(crate) fn add_resource(items: &mut Vec<Value>, item: Value)
    ensures
        value_contents(final(items)@) == value_contents(old(items)@).push(value_content(item)),
{
    let ghost before = items@;
    items.push(item);
    assert(value_contents(items@) =~= value_contents(before).push(value_content(item)));
}

/// Puts resources behind others, in order.
pub(crate) fn add_resources(items: &mut Vec<Value>, more: Vec<Value>)
    ensures
        value_contents(final(items)@) == value_contents(old(items)@) + value_contents(more@),
{
    let ghost before = items@;
    let ghost added = more@;
    let mut rest = more;
    items.append(&mut rest);
    assert(items@ =~= before + added);
    assert(value_contents(items@) =~= value_contents(before) + value_contents(added));
}

// ----- templates -----

/// What a value says, or why there is none.
pub open spec fn outcome(result: Result<Value, String>) -> Result<JsonView, Seq<char>> {
    match result {
        Ok(value) => Ok(value_content(value)),
        Err(message) => Err(message@),
    }
}

/// What the nodes of a printed group run.
pub open spec fn template_in(group: JsonView) -> JsonView {
    member_of(member_of(group, "spec"@), "deployment"@)
}

/// What some nodes run as the template says, but from another repository.
pub open spec fn resourced(template: JsonView, repository: JsonView) -> JsonView {
    template.with("releaseRepository"@, repository)
}

/// What some nodes run, with a text about how they run it replaced, where there is one.
pub open spec fn with_runtime_text(
    deployment: JsonView,
    name: Seq<char>,
    text: Option<Seq<char>>,
) -> JsonView {
    match text {
        Some(text) => with_runtime(deployment, name, JsonView::Text(text)),
        None => deployment,
    }
}

/// What some nodes run, with one thing about how they run it replaced.
pub open spec fn with_runtime(deployment: JsonView, name: Seq<char>, member: JsonView) -> JsonView {
    deployment.with("runtime"@, member_of(deployment, "runtime"@).with(name, member))
}

/// Why a printed group is no template: nothing can be replaced in what its nodes run.
pub open spec fn deployment_fault(group: JsonView) -> Option<Seq<char>> {
    if takes_members(template_in(group)) {
        None
    } else {
        Some("the group's deployment is no object"@)
    }
}

/// Why a printed group is no template: nothing can be replaced in what its nodes run, or in how they
/// run it.
pub open spec fn template_fault(group: JsonView) -> Option<Seq<char>> {
    match deployment_fault(group) {
        Some(message) => Some(message),
        None => if takes_members(member_of(template_in(group), "runtime"@)) {
            None
        } else {
            Some("the group's runtime is no object"@)
        },
    }
}

/// Reads a printed group.
pub fn read_group(printed: &str) -> (result: Result<Value, String>)
    ensures
        outcome(result) == parsed_json(printed@),
{
    parse_value(printed)
}

fn can_take(value: &Value) -> (result: bool)
    ensures
        result == takes_members(value_content(*value)),
{
    is_object(value) || is_null(value)
}

/// A copy of what the nodes of a group run, in which something can be replaced.
pub fn copy_deployment(group: &Value) -> (result: Result<Value, String>)
    ensures
        outcome(result) == match deployment_fault(value_content(*group)) {
            Some(message) => Err::<JsonView, Seq<char>>(message),
            None => Ok::<JsonView, Seq<char>>(template_in(value_content(*group))),
        },
{
    let deployment = member_value(&member_value(group, "spec"), "deployment");
    if can_take(&deployment) {
        Ok(deployment)
    } else {
        Err("the group's deployment is no object".to_owned())
    }
}

/// A copy of what the nodes of a group run, in which something can be replaced, as in how they run
/// it.
pub fn copy_template(group: &Value) -> (result: Result<Value, String>)
    ensures
        outcome(result) == match template_fault(value_content(*group)) {
            Some(message) => Err::<JsonView, Seq<char>>(message),
            None => Ok::<JsonView, Seq<char>>(template_in(value_content(*group))),
        },
{
    let deployment = match copy_deployment(group) {
        Ok(deployment) => deployment,
        Err(message) => {
            return Err(message);
        },
    };
    if can_take(&member_value(&deployment, "runtime")) {
        Ok(deployment)
    } else {
        Err("the group's runtime is no object".to_owned())
    }
}

/// Replaces one thing about how some nodes run what they run.
pub(crate) fn set_runtime(deployment: &mut Value, name: &str, member: Value)
    requires
        takes_members(value_content(*old(deployment))),
        takes_members(member_of(value_content(*old(deployment)), "runtime"@)),
    ensures
        value_content(*final(deployment)) == with_runtime(
            value_content(*old(deployment)),
            name@,
            value_content(member),
        ),
        takes_members(value_content(*final(deployment))),
        takes_members(member_of(value_content(*final(deployment)), "runtime"@)),
{
    let mut runtime = member_value(deployment, "runtime");
    set_member(&mut runtime, name, member);
    set_member(deployment, "runtime", runtime);
}

/// Whether a member is in one document as in another: with the same content, or in neither.
pub open spec fn is_kept(before: JsonView, after: JsonView, name: Seq<char>) -> bool {
    members_of(after).contains_key(name) == members_of(before).contains_key(name) && member_of(
        after,
        name,
    ) == member_of(before, name)
}

} // verus!
