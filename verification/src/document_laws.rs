//! What the documents of the control plane say, member by member.

use crate::commands::NAMESPACE;
use crate::documents::{
    deployment_fault, front_document, group_document, is_kept, labels_document, list_document,
    metadata_document, place_document, ports_document, reference_document, repository_document,
    resource_document, service_document, set_resource_document, target_document, template_fault,
    template_in, texts_document, tier_document, timeouts_document, variables_document,
    with_runtime, with_runtime_text, workload_document, API_VERSION, REPOSITORY,
};
use crate::json::{
    bare, items_of, member_of, members_of, natural, natural_in, takes_members, text_in, JsonView,
};
use crate::resources::Timeouts;
use crate::workloads::{
    agent_container, agent_pod, agent_set_document, claim_document, mount_document, port_document,
    probe_document, probe_text, share_document, volume_document, with_probes, MountView, ProbeKind,
    ProbeView, StatefulView, VolumeView,
};
use vstd::prelude::*;

verus! {

/// Setting a member of an object sets that member, and keeps every other.
pub proof fn setting_a_member_keeps_the_others(
    json: JsonView,
    name: Seq<char>,
    member: JsonView,
    other: Seq<char>,
)
    ensures
        member_of(json.with(name, member), name) == member,
        other != name ==> is_kept(json, json.with(name, member), other),
        json.with(name, member) is Object,
        member_of(bare(), name) is Null,
{
}

/// Only a number is read as a number, only a text as a text and only a list as items; anything else
/// reads as nothing.
pub proof fn values_are_read_as_what_they_are(json: JsonView, number: u64, text: Seq<char>)
    ensures
        natural_in(natural(number)) == number,
        text_in(JsonView::Text(text)) == Some(text),
        text_in(json) is Some <==> json is Text,
        json is Text || json is List || json is Object || json is Null || json is Bool
            ==> natural_in(json) == 0,
        !(json is List) ==> items_of(json).len() == 0,
        !(json is Object) ==> member_of(json, text) is Null,
        takes_members(json) <==> json is Object || json is Null,
{
}

// ----- parts -----

/// A target, a reference, a repository and a list of texts say what they were given, each under its own
/// name.
pub proof fn parts_say_what_they_are_given(
    target: (Seq<char>, Seq<char>),
    name: Seq<char>,
    metadata_url: Seq<char>,
    targets_url: Seq<char>,
    root: Seq<char>,
)
    ensures
        member_of(target_document(target), "path"@) == JsonView::Text(target.0),
        member_of(target_document(target), "sha256"@) == JsonView::Text(target.1),
        member_of(reference_document(name), "name"@) == JsonView::Text(name),
        member_of(repository_document(metadata_url, targets_url, root), "metadataUrl"@)
            == JsonView::Text(metadata_url),
        member_of(repository_document(metadata_url, targets_url, root), "targetsUrl"@)
            == JsonView::Text(targets_url),
        member_of(repository_document(metadata_url, targets_url, root), "rootJson"@)
            == JsonView::Text(root),
{
    reveal_strlit("path");
    reveal_strlit("sha256");
    assert("path"@.len() == 4 && "sha256"@.len() == 6);
    reveal_strlit("metadataUrl");
    reveal_strlit("targetsUrl");
    reveal_strlit("rootJson");
    assert("metadataUrl"@.len() == 11 && "targetsUrl"@.len() == 10 && "rootJson"@.len() == 8);
}

/// Texts and variables are listed in order, each as it was given.
pub proof fn lists_keep_their_order(
    texts: Seq<Seq<char>>,
    variables: Seq<(Seq<char>, Seq<char>)>,
    items: Seq<JsonView>,
    place: int,
)
    ensures
        items_of(texts_document(texts)).len() == texts.len(),
        0 <= place < texts.len() ==> items_of(texts_document(texts))[place] == JsonView::Text(
            texts[place],
        ),
        items_of(variables_document(variables)).len() == variables.len(),
        0 <= place < variables.len() ==> member_of(
            items_of(variables_document(variables))[place],
            "name"@,
        ) == JsonView::Text(variables[place].0),
        0 <= place < variables.len() ==> member_of(
            items_of(variables_document(variables))[place],
            "value"@,
        ) == JsonView::Text(variables[place].1),
        items_of(member_of(list_document(items), "items"@)) == items,
        member_of(list_document(items), "kind"@) == JsonView::Text("List"@),
{
    reveal_strlit("name");
    reveal_strlit("value");
    assert("name"@.len() == 4 && "value"@.len() == 5);
    reveal_strlit("kind");
    reveal_strlit("items");
    reveal_strlit("apiVersion");
    assert("kind"@.len() == 4 && "items"@.len() == 5 && "apiVersion"@.len() == 10);
}

/// A label says the last value that its key was given, and no key is there that was not given.
pub proof fn labels_say_their_last_value(labels: Seq<(Seq<char>, Seq<char>)>, index: int, key: Seq<char>)
    requires
        0 <= index < labels.len(),
        forall|i: int| index < i < labels.len() ==> (#[trigger] labels[i]).0 != labels[index].0,
    ensures
        member_of(labels_document(labels), labels[index].0) == JsonView::Text(labels[index].1),
        (forall|i: int| 0 <= i < labels.len() ==> (#[trigger] labels[i]).0 != key) ==> !members_of(
            labels_document(labels),
        ).contains_key(key),
    decreases labels.len(),
{
    let before = labels.drop_last();
    if index < before.len() {
        labels_say_their_last_value(before, index, key);
        assert(labels[labels.len() - 1].0 != labels[index].0);
    } else {
        lemma_absent_labels(before, key);
    }
}

proof fn lemma_absent_labels(labels: Seq<(Seq<char>, Seq<char>)>, key: Seq<char>)
    ensures
        (forall|i: int| 0 <= i < labels.len() ==> (#[trigger] labels[i]).0 != key) ==> !members_of(
            labels_document(labels),
        ).contains_key(key),
    decreases labels.len(),
{
    if labels.len() > 0 {
        lemma_absent_labels(labels.drop_last(), key);
        if forall|i: int| 0 <= i < labels.len() ==> (#[trigger] labels[i]).0 != key {
            assert(labels[labels.len() - 1].0 != key);
            assert forall|i: int| 0 <= i < labels.drop_last().len() implies (
            #[trigger] labels.drop_last()[i]).0 != key by {
                assert(labels[i].0 != key);
            }
        }
    }
}

/// Every pace of a node is said under its own name; one that is not set is not said.
pub proof fn timeouts_say_each_number(timeouts: Timeouts)
    ensures
        ({
            let said = timeouts_document(timeouts);
            &&& member_of(said, "checkIntervalSeconds"@) == natural(timeouts.check_interval)
            &&& member_of(said, "healthGraceSeconds"@) == natural(timeouts.health_grace)
            &&& member_of(said, "healthSuccesses"@) == natural(timeouts.health_successes)
            &&& member_of(said, "healthIntervalSeconds"@) == natural(timeouts.health_interval)
            &&& member_of(said, "refreshRetrySeconds"@) == natural(timeouts.refresh_retry)
            &&& member_of(said, "confirmationWindowSeconds"@) == natural(
                timeouts.confirmation_window,
            )
            &&& member_of(said, "retryAfterSeconds"@) == (match timeouts.retry_after {
                Some(number) => natural(number),
                None => JsonView::Null,
            })
            &&& member_of(said, "supervisorCheckIntervalSeconds"@) == (match timeouts.supervisor_check_interval {
                Some(number) => natural(number),
                None => JsonView::Null,
            })
            &&& member_of(said, "drainHoldSeconds"@) == (match timeouts.drain_hold {
                Some(number) => natural(number),
                None => JsonView::Null,
            })
        }),
{
    reveal_strlit("checkIntervalSeconds");
    reveal_strlit("healthGraceSeconds");
    reveal_strlit("healthSuccesses");
    reveal_strlit("healthIntervalSeconds");
    reveal_strlit("refreshRetrySeconds");
    reveal_strlit("confirmationWindowSeconds");
    reveal_strlit("retryAfterSeconds");
    reveal_strlit("supervisorCheckIntervalSeconds");
    reveal_strlit("drainHoldSeconds");
    assert("checkIntervalSeconds"@.len() == 20);
    assert("healthGraceSeconds"@.len() == 18);
    assert("healthSuccesses"@.len() == 15);
    assert("healthIntervalSeconds"@.len() == 21);
    assert("refreshRetrySeconds"@.len() == 19);
    assert("confirmationWindowSeconds"@.len() == 25);
    assert("retryAfterSeconds"@.len() == 17);
    assert("supervisorCheckIntervalSeconds"@.len() == 30);
    assert("drainHoldSeconds"@.len() == 16);
}

// ----- resources -----

/// The names that every resource has members under are different.
pub proof fn lemma_resource_names()
    ensures
        "apiVersion"@ != "kind"@,
        "apiVersion"@ != "metadata"@,
        "apiVersion"@ != "spec"@,
        "kind"@ != "metadata"@,
        "kind"@ != "spec"@,
        "metadata"@ != "spec"@,
        "name"@ != "namespace"@,
        "name"@ != "labels"@,
        "name"@ != "annotations"@,
        "namespace"@ != "labels"@,
        "namespace"@ != "annotations"@,
        "labels"@ != "annotations"@,
{
    reveal_strlit("apiVersion");
    reveal_strlit("kind");
    reveal_strlit("metadata");
    reveal_strlit("spec");
    assert("apiVersion"@.len() == 10 && "kind"@.len() == 4 && "metadata"@.len() == 8);
    assert("spec"@.len() == 4 && "kind"@[0] == 'k' && "spec"@[0] == 's');
    reveal_strlit("name");
    reveal_strlit("namespace");
    reveal_strlit("labels");
    reveal_strlit("annotations");
    assert("name"@.len() == 4 && "namespace"@.len() == 9 && "labels"@.len() == 6);
    assert("annotations"@.len() == 11);
}

/// A resource says what it is, under which name and where; the labels that it carries, if any; and what
/// is particular to its kind.
pub proof fn resources_say_what_they_are(
    api_version: Seq<char>,
    kind: Seq<char>,
    name: Seq<char>,
    labels: Seq<(Seq<char>, Seq<char>)>,
    metadata: JsonView,
    own: JsonView,
)
    ensures
        member_of(resource_document(api_version, kind, metadata), "apiVersion"@) == JsonView::Text(
            api_version,
        ),
        member_of(resource_document(api_version, kind, metadata), "kind"@) == JsonView::Text(kind),
        member_of(resource_document(api_version, kind, metadata), "metadata"@) == metadata,
        member_of(metadata_document(name, labels), "name"@) == JsonView::Text(name),
        member_of(metadata_document(name, labels), "namespace"@) == JsonView::Text(NAMESPACE@),
        labels.len() > 0 ==> member_of(metadata_document(name, labels), "labels"@)
            == labels_document(labels),
        labels.len() == 0 ==> member_of(metadata_document(name, labels), "labels"@) is Null,
        member_of(place_document(name), "name"@) == JsonView::Text(name),
        member_of(place_document(name), "labels"@) is Null,
        member_of(set_resource_document(metadata, own), "apiVersion"@) == JsonView::Text(
            API_VERSION@,
        ),
        member_of(set_resource_document(metadata, own), "kind"@) == JsonView::Text(
            "UpdateGroupSet"@,
        ),
        member_of(set_resource_document(metadata, own), "metadata"@) == metadata,
        member_of(set_resource_document(metadata, own), "spec"@) == own,
{
    lemma_resource_names();
}

/// A group says which nodes it selects, what they are to run and the repository that it comes through. A
/// group that protects itself says that one node at a time may be unavailable, and what it is to be
/// upgraded to; another says neither.
pub proof fn groups_say_what_they_select_and_run(
    name: Seq<char>,
    labels: Seq<(Seq<char>, Seq<char>)>,
    notes: Seq<(Seq<char>, Seq<char>)>,
    selector: Seq<(Seq<char>, Seq<char>)>,
    deployment: JsonView,
)
    ensures
        ({
            let plain = group_document(name, labels, selector, deployment);
            let tier = tier_document(name, notes, selector, deployment);
            let own = member_of(plain, "spec"@);
            let guarded = member_of(tier, "spec"@);
            &&& member_of(plain, "apiVersion"@) == JsonView::Text(API_VERSION@)
            &&& member_of(tier, "apiVersion"@) == JsonView::Text(API_VERSION@)
            &&& member_of(plain, "kind"@) == JsonView::Text("UpdateGroup"@)
            &&& member_of(tier, "kind"@) == JsonView::Text("UpdateGroup"@)
            &&& member_of(plain, "metadata"@) == metadata_document(name, labels)
            &&& member_of(member_of(tier, "metadata"@), "name"@) == JsonView::Text(name)
            &&& member_of(member_of(tier, "metadata"@), "namespace"@) == JsonView::Text(NAMESPACE@)
            &&& member_of(member_of(tier, "metadata"@), "annotations"@) == labels_document(notes)
            &&& template_in(plain) == deployment
            &&& template_in(tier) == deployment
            &&& member_of(member_of(own, "selector"@), "matchLabels"@) == labels_document(selector)
            &&& member_of(member_of(guarded, "selector"@), "matchLabels"@) == labels_document(
                selector,
            )
            &&& member_of(member_of(own, "repositoryRef"@), "name"@) == JsonView::Text(REPOSITORY@)
            &&& member_of(member_of(guarded, "repositoryRef"@), "name"@) == JsonView::Text(
                REPOSITORY@,
            )
            &&& member_of(own, "maxUnavailable"@) is Null
            &&& member_of(guarded, "maxUnavailable"@) == natural(1)
        }),
{
    lemma_resource_names();
    reveal_strlit("repositoryRef");
    reveal_strlit("selector");
    reveal_strlit("deployment");
    reveal_strlit("maxUnavailable");
    assert("repositoryRef"@.len() == 13 && "selector"@.len() == 8 && "deployment"@.len() == 10);
    assert("maxUnavailable"@.len() == 14);
}

/// A service selects its pods and leads to their named port; one that selects nothing names the port
/// behind it by number.
pub proof fn services_say_where_they_lead(
    name: Seq<char>,
    selector: Seq<(Seq<char>, Seq<char>)>,
    port: u64,
    behind: JsonView,
)
    ensures
        ({
            let front = member_of(front_document(name, selector, port), "spec"@);
            let service = service_document((name, selector));
            let given = member_of(service, "spec"@);
            let only = items_of(ports_document(port, behind));
            &&& member_of(front_document(name, selector, port), "kind"@) == JsonView::Text(
                "Service"@,
            )
            &&& member_of(member_of(front_document(name, selector, port), "metadata"@), "name"@)
                == JsonView::Text(name)
            &&& member_of(front, "selector"@) == labels_document(selector)
            &&& member_of(front, "ports"@) == ports_document(port, JsonView::Text("http"@))
            &&& member_of(service, "kind"@) == JsonView::Text("Service"@)
            &&& member_of(member_of(service, "metadata"@), "name"@) == JsonView::Text(name)
            &&& selector.len() > 0 ==> member_of(given, "selector"@) == labels_document(selector)
                && member_of(given, "ports"@) == ports_document(8080, JsonView::Text("http"@))
            &&& selector.len() == 0 ==> member_of(given, "selector"@) is Null && member_of(
                given,
                "ports"@,
            ) == ports_document(8080, natural(8080))
            &&& only.len() == 1
            &&& member_of(only[0], "name"@) == JsonView::Text("http"@)
            &&& member_of(only[0], "port"@) == natural(port)
            &&& member_of(only[0], "targetPort"@) == behind
        }),
{
    lemma_resource_names();
    reveal_strlit("selector");
    reveal_strlit("ports");
    assert("selector"@.len() == 8 && "ports"@.len() == 5);
    reveal_strlit("name");
    reveal_strlit("port");
    reveal_strlit("targetPort");
    assert("name"@.len() == 4 && "port"@.len() == 4 && "targetPort"@.len() == 10);
    assert("name"@[0] == 'n' && "port"@[0] == 'p');
}

/// A workload runs one pod, and selects the pod that it runs.
pub proof fn workloads_select_their_own_pod(name: Seq<char>, pod: JsonView)
    ensures
        ({
            let own = member_of(workload_document(name, pod), "spec"@);
            let template = member_of(own, "template"@);
            &&& member_of(workload_document(name, pod), "kind"@) == JsonView::Text("Deployment"@)
            &&& member_of(own, "replicas"@) == natural(1)
            &&& member_of(template, "spec"@) == pod
            &&& member_of(member_of(own, "selector"@), "matchLabels"@) == member_of(
                member_of(template, "metadata"@),
                "labels"@,
            )
            &&& member_of(member_of(member_of(own, "selector"@), "matchLabels"@), "app"@)
                == JsonView::Text(name)
        }),
{
    lemma_resource_names();
    reveal_strlit("replicas");
    reveal_strlit("selector");
    reveal_strlit("template");
    assert("replicas"@.len() == 8 && "selector"@.len() == 8 && "template"@.len() == 8);
    assert("replicas"@[0] == 'r' && "selector"@[0] == 's' && "template"@[0] == 't');
}

// ----- templates -----

/// A group is a template exactly where both what its nodes run, and how, can be given members.
pub proof fn templates_can_be_filled_in(group: JsonView)
    ensures
        deployment_fault(group) is None <==> template_in(group) is Object || template_in(
            group,
        ) is Null,
        template_fault(group) is None <==> (template_in(group) is Object || template_in(
            group,
        ) is Null) && (member_of(template_in(group), "runtime"@) is Object || member_of(
            template_in(group),
            "runtime"@,
        ) is Null),
        template_fault(group) is Some && deployment_fault(group) is None ==> template_fault(group)
            == Some("the group's runtime is no object"@),
        deployment_fault(group) is Some ==> template_fault(group) == Some(
            "the group's deployment is no object"@,
        ),
        template_in(group) == member_of(member_of(group, "spec"@), "deployment"@),
{
}

/// Replacing one thing about how nodes run what they run replaces that thing only; where there is
/// nothing to replace it by, nothing is replaced.
pub proof fn one_setting_is_replaced_at_a_time(
    deployment: JsonView,
    name: Seq<char>,
    member: JsonView,
    text: Seq<char>,
    other: Seq<char>,
)
    ensures
        member_of(member_of(with_runtime(deployment, name, member), "runtime"@), name) == member,
        other != name ==> is_kept(
            member_of(deployment, "runtime"@),
            member_of(with_runtime(deployment, name, member), "runtime"@),
            other,
        ),
        other != "runtime"@ ==> is_kept(
            deployment,
            with_runtime(deployment, name, member),
            other,
        ),
        with_runtime_text(deployment, name, None) == deployment,
        with_runtime_text(deployment, name, Some(text)) == with_runtime(
            deployment,
            name,
            JsonView::Text(text),
        ),
{
}

// ----- stateful workloads -----

/// A probe says what is asked, on which port, how often, and how many failures it takes.
pub proof fn probes_say_what_is_asked(probe: ProbeView)
    ensures
        ({
            let said = probe_document(probe);
            &&& member_of(said, "periodSeconds"@) == natural(probe.period as u64)
            &&& member_of(said, "failureThreshold"@) == natural(probe.failures as u64)
            &&& match probe.path {
                Some(path) => member_of(member_of(said, "httpGet"@), "path"@) == JsonView::Text(
                    path,
                ) && member_of(member_of(said, "httpGet"@), "port"@) == JsonView::Text(probe.port)
                    && member_of(said, "tcpSocket"@) is Null,
                None => member_of(member_of(said, "tcpSocket"@), "port"@) == JsonView::Text(
                    probe.port,
                ) && member_of(said, "httpGet"@) is Null,
            }
        }),
        probe_text(ProbeKind::Startup) == "startupProbe"@,
        probe_text(ProbeKind::Readiness) == "readinessProbe"@,
        probe_text(ProbeKind::Liveness) == "livenessProbe"@,
{
    reveal_strlit("periodSeconds");
    reveal_strlit("failureThreshold");
    reveal_strlit("httpGet");
    reveal_strlit("tcpSocket");
    assert("periodSeconds"@.len() == 13 && "failureThreshold"@.len() == 16);
    assert("httpGet"@.len() == 7 && "tcpSocket"@.len() == 9);
    reveal_strlit("path");
    reveal_strlit("port");
    assert("path"@.len() == 4 && "port"@.len() == 4 && "path"@[1] == 'a' && "port"@[1] == 'o');
}

/// A port, a mount, a volume and a claim say what they were given; a mount says that it can only be read
/// exactly where it can, and a volume shows a secret or starts out empty.
pub proof fn pods_say_what_they_have(
    port: (Seq<char>, u16),
    mount: MountView,
    volume: VolumeView,
    claim: (Seq<char>, Seq<char>),
)
    ensures
        member_of(port_document(port), "name"@) == JsonView::Text(port.0),
        member_of(port_document(port), "containerPort"@) == natural(port.1 as u64),
        member_of(mount_document(mount), "name"@) == JsonView::Text(mount.name),
        member_of(mount_document(mount), "mountPath"@) == JsonView::Text(mount.path),
        member_of(mount_document(mount), "readOnly"@) == JsonView::Bool(true) <==> mount.read_only,
        !mount.read_only ==> member_of(mount_document(mount), "readOnly"@) is Null,
        member_of(volume_document(volume), "name"@) == JsonView::Text(volume.name),
        match volume.secret {
            Some(secret) => member_of(
                member_of(volume_document(volume), "secret"@),
                "secretName"@,
            ) == JsonView::Text(secret) && member_of(volume_document(volume), "emptyDir"@) is Null,
            None => member_of(volume_document(volume), "emptyDir"@) == bare() && member_of(
                volume_document(volume),
                "secret"@,
            ) is Null,
        },
        member_of(member_of(claim_document(claim), "metadata"@), "name"@) == JsonView::Text(
            claim.0,
        ),
        member_of(
            member_of(
                member_of(member_of(claim_document(claim), "spec"@), "resources"@),
                "requests"@,
            ),
            "storage"@,
        ) == JsonView::Text(claim.1),
{
    reveal_strlit("name");
    reveal_strlit("containerPort");
    reveal_strlit("mountPath");
    reveal_strlit("readOnly");
    reveal_strlit("secret");
    reveal_strlit("emptyDir");
    assert("name"@.len() == 4 && "containerPort"@.len() == 13 && "mountPath"@.len() == 9);
    assert("readOnly"@.len() == 8 && "secret"@.len() == 6 && "emptyDir"@.len() == 8);
    lemma_resource_names();
    reveal_strlit("accessModes");
    reveal_strlit("resources");
    assert("accessModes"@.len() == 11 && "resources"@.len() == 9);
}

proof fn lemma_probes_keep(container: JsonView, probes: Seq<ProbeView>, name: Seq<char>)
    requires
        name != "startupProbe"@,
        name != "readinessProbe"@,
        name != "livenessProbe"@,
    ensures
        member_of(with_probes(container, probes), name) == member_of(container, name),
    decreases probes.len(),
{
    if probes.len() > 0 {
        lemma_probes_keep(container, probes.drop_last(), name);
    }
}

proof fn lemma_last_probe(container: JsonView, probes: Seq<ProbeView>, index: int)
    requires
        0 <= index < probes.len(),
        forall|i: int| index < i < probes.len() ==> (#[trigger] probes[i]).kind != probes[index].kind,
    ensures
        member_of(with_probes(container, probes), probe_text(probes[index].kind)) == probe_document(
            probes[index],
        ),
    decreases probes.len(),
{
    if index < probes.len() - 1 {
        let before = probes.drop_last();
        lemma_last_probe(container, before, index);
        assert(probes[probes.len() - 1].kind != probes[index].kind);
        reveal_strlit("startupProbe");
        reveal_strlit("readinessProbe");
        reveal_strlit("livenessProbe");
        assert("startupProbe"@.len() == 12 && "readinessProbe"@.len() == 14
            && "livenessProbe"@.len() == 13);
    }
}

/// An agent's container has the ports, mounts and variables of its workload, the shares that it was given
/// and each of its probes under the name of its kind.
pub proof fn containers_are_as_planned(plan: StatefulView, probe: int)
    requires
        0 <= probe < plan.probes.len(),
        forall|i: int|
            probe < i < plan.probes.len() ==> (#[trigger] plan.probes[i]).kind
                != plan.probes[probe].kind,
    ensures
        ({
            let said = agent_container(plan);
            &&& items_of(member_of(said, "ports"@)) == Seq::new(
                plan.ports.len(),
                |i: int| port_document(plan.ports[i]),
            )
            &&& items_of(member_of(said, "volumeMounts"@)) == Seq::new(
                plan.mounts.len(),
                |i: int| mount_document(plan.mounts[i]),
            )
            &&& plan.variables.len() > 0 ==> member_of(said, "env"@) == variables_document(
                plan.variables,
            )
            &&& plan.variables.len() == 0 ==> member_of(said, "env"@) is Null
            &&& member_of(said, "resources"@) == share_document(plan)
            &&& member_of(said, probe_text(plan.probes[probe].kind)) == probe_document(
                plan.probes[probe],
            )
        }),
        member_of(member_of(share_document(plan), "requests"@), "cpu"@) == JsonView::Text(plan.cpu),
        member_of(member_of(share_document(plan), "requests"@), "memory"@) == JsonView::Text(
            plan.memory,
        ),
        member_of(member_of(share_document(plan), "limits"@), "memory"@) == JsonView::Text(
            plan.memory_limit,
        ),
{
    reveal_strlit("name");
    reveal_strlit("image");
    reveal_strlit("imagePullPolicy");
    reveal_strlit("command");
    reveal_strlit("ports");
    reveal_strlit("securityContext");
    reveal_strlit("resources");
    reveal_strlit("volumeMounts");
    reveal_strlit("env");
    reveal_strlit("startupProbe");
    reveal_strlit("readinessProbe");
    reveal_strlit("livenessProbe");
    assert("name"@.len() == 4 && "image"@.len() == 5 && "imagePullPolicy"@.len() == 15);
    assert("command"@.len() == 7 && "ports"@.len() == 5 && "securityContext"@.len() == 15);
    assert("resources"@.len() == 9 && "volumeMounts"@.len() == 12 && "env"@.len() == 3);
    assert("image"@[0] == 'i' && "ports"@[0] == 'p');
    assert("startupProbe"@.len() == 12 && "startupProbe"@[0] == 's' && "volumeMounts"@[0] == 'v');
    assert("readinessProbe"@.len() == 14 && "livenessProbe"@.len() == 13);
    reveal_strlit("cpu");
    reveal_strlit("memory");
    reveal_strlit("requests");
    reveal_strlit("limits");
    assert("cpu"@.len() == 3 && "memory"@.len() == 6 && "requests"@.len() == 8 && "limits"@.len()
        == 6);
    assert forall|container: JsonView, name: Seq<char>|
        name == "ports"@ || name == "volumeMounts"@ || name == "env"@ || name
            == "resources"@ implies #[trigger] member_of(
        with_probes(container, plan.probes),
        name,
    ) == member_of(container, name) by {
        lemma_probes_keep(container, plan.probes, name);
    }
    assert forall|container: JsonView|
        member_of(
            #[trigger] with_probes(container, plan.probes),
            probe_text(plan.probes[probe].kind),
        ) == probe_document(plan.probes[probe]) by {
        lemma_last_probe(container, plan.probes, probe);
    }
}

/// A stateful workload selects the pods that it makes, runs as many of them as planned, and claims the
/// volumes that it keeps.
pub proof fn stateful_workloads_are_as_planned(plan: StatefulView)
    requires
        plan.replicas <= u64::MAX,
    ensures
        ({
            let said = agent_set_document(plan);
            let own = member_of(said, "spec"@);
            let template = member_of(own, "template"@);
            &&& member_of(said, "kind"@) == JsonView::Text("StatefulSet"@)
            &&& member_of(member_of(said, "metadata"@), "name"@) == JsonView::Text(plan.name)
            &&& member_of(own, "replicas"@) == natural(plan.replicas as u64)
            &&& member_of(own, "podManagementPolicy"@) == JsonView::Text("Parallel"@)
            &&& member_of(member_of(own, "selector"@), "matchLabels"@) == labels_document(
                plan.labels,
            )
            &&& member_of(member_of(template, "metadata"@), "labels"@) == labels_document(
                plan.labels,
            )
            &&& member_of(template, "spec"@) == agent_pod(plan)
            &&& items_of(member_of(own, "volumeClaimTemplates"@)) == Seq::new(
                plan.claims.len(),
                |i: int| claim_document(plan.claims[i]),
            )
        }),
        items_of(member_of(agent_pod(plan), "containers"@)) == seq![agent_container(plan)],
        items_of(member_of(agent_pod(plan), "volumes"@)) == Seq::new(
            plan.volumes.len(),
            |i: int| volume_document(plan.volumes[i]),
        ),
{
    lemma_resource_names();
    reveal_strlit("serviceName");
    reveal_strlit("replicas");
    reveal_strlit("podManagementPolicy");
    reveal_strlit("selector");
    reveal_strlit("template");
    reveal_strlit("volumeClaimTemplates");
    assert("serviceName"@.len() == 11 && "replicas"@.len() == 8 && "podManagementPolicy"@.len()
        == 19);
    assert("selector"@.len() == 8 && "template"@.len() == 8 && "volumeClaimTemplates"@.len() == 20);
    assert("replicas"@[0] == 'r' && "selector"@[0] == 's' && "template"@[0] == 't');
    reveal_strlit("securityContext");
    reveal_strlit("containers");
    reveal_strlit("volumes");
    assert("securityContext"@.len() == 15 && "containers"@.len() == 10 && "volumes"@.len() == 7);
}

} // verus!
