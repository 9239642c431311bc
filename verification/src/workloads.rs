//! The stateful workloads of a fleet: pods that enroll as agents and keep what they are across
//! restarts.

use crate::documents::{
    labels_document, labels_value, place_document, place_value, resource_document, resource_value,
    sole_item, sole_text, texts_document, texts_value, variables_document, variables_value, IMAGE,
};
use crate::json::{
    bare, flag_value, list_value, member_of, natural, number_value, object_value, set_member,
    text_value, value_content, value_contents, JsonView,
};
use crate::labels::Label;
use crate::resources::{label, pairs};
use crate::text::{listed, views};
use serde_json::Value;
use vstd::prelude::*;

verus! {

// ----- what every agent pod mounts -----

/// A volume mounted into an agent pod.
pub struct VolumeMount {
    pub name: String,
    pub mount_path: String,
    pub read_only: bool,
}

/// Where the contents of a volume come from.
pub enum VolumeSource {
    EmptyDirectory,
    Secret(String),
}

/// A volume of an agent pod.
pub struct Volume {
    pub name: String,
    pub source: VolumeSource,
}

/// A mount: the volume, where it is mounted, and whether it can only be read.
pub struct MountView {
    pub name: Seq<char>,
    pub path: Seq<char>,
    pub read_only: bool,
}

/// A volume, with the secret that it shows; none where it starts out empty.
pub struct VolumeView {
    pub name: Seq<char>,
    pub secret: Option<Seq<char>>,
}

/// What some mounts say.
pub open spec fn mount_views(mounts: Seq<VolumeMount>) -> Seq<MountView> {
    Seq::new(
        mounts.len(),
        |i: int|
            MountView {
                name: mounts[i].name@,
                path: mounts[i].mount_path@,
                read_only: mounts[i].read_only,
            },
    )
}

/// What some volumes say.
pub open spec fn volume_views(volumes: Seq<Volume>) -> Seq<VolumeView> {
    Seq::new(
        volumes.len(),
        |i: int|
            VolumeView {
                name: volumes[i].name@,
                secret: match volumes[i].source {
                    VolumeSource::EmptyDirectory => None,
                    VolumeSource::Secret(secret) => Some(secret@),
                },
            },
    )
}

/// A mount that can be written to.
pub open spec fn writable(name: Seq<char>, path: Seq<char>) -> MountView {
    MountView { name, path, read_only: false }
}

/// The mounts of an agent pod: the workload's own, the agent's identity read-only, and a
/// writable scratch directory.
pub open spec fn with_agent_mounts(workload: Seq<MountView>) -> Seq<MountView> {
    workload + seq![
        MountView { name: "agent-tls"@, path: "/etc/agent-tls"@, read_only: true },
        writable("tmp"@, "/tmp"@),
    ]
}

/// The volumes of an agent pod: the workload's own, the scratch directory, and the identity.
pub open spec fn with_agent_volumes(workload: Seq<VolumeView>) -> Seq<VolumeView> {
    workload + seq![
        VolumeView { name: "tmp"@, secret: None },
        VolumeView { name: "agent-tls"@, secret: Some("agent-tls"@) },
    ]
}

/// The mounts of an agent pod.
pub fn agent_volume_mounts(workload: Vec<VolumeMount>) -> (result: Vec<VolumeMount>)
    ensures
        mount_views(result@) == with_agent_mounts(mount_views(workload@)),
{
    let mut mounts = workload;
    mounts.push(
        VolumeMount {
            name: "agent-tls".to_owned(),
            mount_path: "/etc/agent-tls".to_owned(),
            read_only: true,
        },
    );
    mounts.push(
        VolumeMount { name: "tmp".to_owned(), mount_path: "/tmp".to_owned(), read_only: false },
    );
    assert(mount_views(mounts@) =~= with_agent_mounts(mount_views(workload@)));
    mounts
}

/// The volumes of an agent pod.
pub fn agent_volumes(workload: Vec<Volume>) -> (result: Vec<Volume>)
    ensures
        volume_views(result@) == with_agent_volumes(volume_views(workload@)),
{
    let mut volumes = workload;
    volumes.push(Volume { name: "tmp".to_owned(), source: VolumeSource::EmptyDirectory });
    volumes.push(
        Volume {
            name: "agent-tls".to_owned(),
            source: VolumeSource::Secret("agent-tls".to_owned()),
        },
    );
    assert(volume_views(volumes@) =~= with_agent_volumes(volume_views(workload@)));
    volumes
}

/// A mount that can be written to.
pub fn mount(name: &str, path: &str) -> (result: VolumeMount)
    ensures
        result.name@ == name@,
        result.mount_path@ == path@,
        !result.read_only,
{
    VolumeMount { name: name.to_owned(), mount_path: path.to_owned(), read_only: false }
}

// ----- what a workload is -----

/// A variable of a pod's environment.
pub struct Variable {
    pub name: &'static str,
    pub value: String,
}

/// A named port of a pod.
pub struct PodPort {
    pub name: &'static str,
    pub number: u16,
}

/// What a probe finds out.
#[derive(Clone, Copy, PartialEq, Eq, Structural, Debug)]
pub enum ProbeKind {
    Startup,
    Readiness,
    Liveness,
}

/// How a pod is asked, on one of its ports.
pub enum Ask {
    /// It must answer a request for this path.
    Answer(&'static str),
    /// It must accept a connection.
    Connect,
}

/// A probe of a pod: asked every so many seconds, and failed after so many failures in a row.
pub struct PodProbe {
    pub kind: ProbeKind,
    pub ask: Ask,
    pub port: &'static str,
    pub period: u32,
    pub failures: u32,
}

/// A volume that outlives its pod, and its size.
pub struct Claim {
    pub name: &'static str,
    pub size: &'static str,
}

/// A stateful workload.
pub struct StatefulPlan {
    pub name: String,
    pub replicas: usize,
    pub labels: Vec<Label>,
    pub variables: Vec<Variable>,
    pub ports: Vec<PodPort>,
    pub probes: Vec<PodProbe>,
    pub cpu: &'static str,
    pub memory: &'static str,
    pub memory_limit: &'static str,
    pub mounts: Vec<VolumeMount>,
    pub volumes: Vec<Volume>,
    pub claims: Vec<Claim>,
}

/// What a probe says; `path` is what it asks for, where it asks for something.
pub struct ProbeView {
    pub kind: ProbeKind,
    pub path: Option<Seq<char>>,
    pub port: Seq<char>,
    pub period: u32,
    pub failures: u32,
}

/// What a stateful workload says.
#[verifier::ext_equal]
pub struct StatefulView {
    pub name: Seq<char>,
    pub replicas: nat,
    pub labels: Seq<(Seq<char>, Seq<char>)>,
    pub variables: Seq<(Seq<char>, Seq<char>)>,
    pub ports: Seq<(Seq<char>, u16)>,
    pub probes: Seq<ProbeView>,
    pub cpu: Seq<char>,
    pub memory: Seq<char>,
    pub memory_limit: Seq<char>,
    pub mounts: Seq<MountView>,
    pub volumes: Seq<VolumeView>,
    pub claims: Seq<(Seq<char>, Seq<char>)>,
}

/// What a probe says.
pub open spec fn probe_view(probe: PodProbe) -> ProbeView {
    ProbeView {
        kind: probe.kind,
        path: match probe.ask {
            Ask::Answer(path) => Some(path@),
            Ask::Connect => None,
        },
        port: probe.port@,
        period: probe.period,
        failures: probe.failures,
    }
}

/// What some probes say.
pub open spec fn probe_views(probes: Seq<PodProbe>) -> Seq<ProbeView> {
    Seq::new(probes.len(), |i: int| probe_view(probes[i]))
}

/// Names and values of some variables.
pub open spec fn variable_views(variables: Seq<Variable>) -> Seq<(Seq<char>, Seq<char>)> {
    Seq::new(variables.len(), |i: int| (variables[i].name@, variables[i].value@))
}

/// Names and numbers of some ports.
pub open spec fn port_views(ports: Seq<PodPort>) -> Seq<(Seq<char>, u16)> {
    Seq::new(ports.len(), |i: int| (ports[i].name@, ports[i].number))
}

/// Names and sizes of some claims.
pub open spec fn claim_views(claims: Seq<Claim>) -> Seq<(Seq<char>, Seq<char>)> {
    Seq::new(claims.len(), |i: int| (claims[i].name@, claims[i].size@))
}

impl View for StatefulPlan {
    type V = StatefulView;

    open spec fn view(&self) -> StatefulView {
        StatefulView {
            name: self.name@,
            replicas: self.replicas as nat,
            labels: pairs(self.labels@),
            variables: variable_views(self.variables@),
            ports: port_views(self.ports@),
            probes: probe_views(self.probes@),
            cpu: self.cpu@,
            memory: self.memory@,
            memory_limit: self.memory_limit@,
            mounts: mount_views(self.mounts@),
            volumes: volume_views(self.volumes@),
            claims: claim_views(self.claims@),
        }
    }
}

// ----- what holds of a workload -----

/// Whether one of some volumes has a name.
pub open spec fn has_volume(volumes: Seq<VolumeView>, name: Seq<char>) -> bool {
    exists|i: int| 0 <= i < volumes.len() && (#[trigger] volumes[i]).name == name
}

/// Whether one of some claims has a name.
pub open spec fn has_claim(claims: Seq<(Seq<char>, Seq<char>)>, name: Seq<char>) -> bool {
    exists|i: int| 0 <= i < claims.len() && (#[trigger] claims[i]).0 == name
}

/// Whether one of some ports has a name.
pub open spec fn has_port(ports: Seq<(Seq<char>, u16)>, name: Seq<char>) -> bool {
    exists|i: int| 0 <= i < ports.len() && (#[trigger] ports[i]).0 == name
}

/// Whether a workload makes sense: everything that is mounted is a volume or a claim of the pod,
/// every claim is mounted, and every probe asks on a port of the pod.
pub open spec fn is_coherent(plan: StatefulView) -> bool {
    &&& forall|i: int|
        0 <= i < plan.mounts.len() ==> has_volume(plan.volumes, (#[trigger] plan.mounts[i]).name)
            || has_claim(plan.claims, plan.mounts[i].name)
    &&& forall|i: int|
        0 <= i < plan.claims.len() ==> exists|j: int|
            0 <= j < plan.mounts.len() && (#[trigger] plan.mounts[j]).name == (
            #[trigger] plan.claims[i]).0
    &&& forall|i: int|
        0 <= i < plan.probes.len() ==> has_port(plan.ports, (#[trigger] plan.probes[i]).port)
}

// ----- as a document -----

/// How a probe is written: what is asked, how often, and how many failures it takes.
pub open spec fn probe_document(probe: ProbeView) -> JsonView {
    let pace = bare().with("periodSeconds"@, natural(probe.period as u64)).with(
        "failureThreshold"@,
        natural(probe.failures as u64),
    );
    let port = JsonView::Text(probe.port);
    match probe.path {
        Some(path) => pace.with(
            "httpGet"@,
            bare().with("path"@, JsonView::Text(path)).with("port"@, port),
        ),
        None => pace.with("tcpSocket"@, bare().with("port"@, port)),
    }
}

fn probe_value(probe: &PodProbe) -> (result: Value)
    ensures
        value_content(result) == probe_document(probe_view(*probe)),
{
    let mut document = object_value();
    set_member(&mut document, "periodSeconds", number_value(probe.period as u64));
    set_member(&mut document, "failureThreshold", number_value(probe.failures as u64));
    let mut question = object_value();
    match probe.ask {
        Ask::Answer(path) => {
            set_member(&mut question, "path", text_value(path));
            set_member(&mut question, "port", text_value(probe.port));
            set_member(&mut document, "httpGet", question);
        },
        Ask::Connect => {
            set_member(&mut question, "port", text_value(probe.port));
            set_member(&mut document, "tcpSocket", question);
        },
    }
    document
}

/// Where a container names a probe.
pub open spec fn probe_text(kind: ProbeKind) -> Seq<char> {
    match kind {
        ProbeKind::Startup => "startupProbe"@,
        ProbeKind::Readiness => "readinessProbe"@,
        ProbeKind::Liveness => "livenessProbe"@,
    }
}

fn probe_name(kind: ProbeKind) -> (result: &'static str)
    ensures
        result@ == probe_text(kind),
{
    match kind {
        ProbeKind::Startup => "startupProbe",
        ProbeKind::Readiness => "readinessProbe",
        ProbeKind::Liveness => "livenessProbe",
    }
}

/// A container with its probes.
pub open spec fn with_probes(container: JsonView, probes: Seq<ProbeView>) -> JsonView
    decreases probes.len(),
{
    if probes.len() == 0 {
        container
    } else {
        with_probes(container, probes.drop_last()).with(
            probe_text(probes.last().kind),
            probe_document(probes.last()),
        )
    }
}

proof fn lemma_probes_keep_object(container: JsonView, probes: Seq<ProbeView>)
    requires
        container is Object,
    ensures
        with_probes(container, probes) is Object,
    decreases probes.len(),
{
    if probes.len() > 0 {
        lemma_probes_keep_object(container, probes.drop_last());
    }
}

fn set_probes(container: &mut Value, probes: &Vec<PodProbe>)
    requires
        value_content(*old(container)) is Object,
    ensures
        value_content(*final(container)) == with_probes(
            value_content(*old(container)),
            probe_views(probes@),
        ),
{
    let ghost start = value_content(*container);
    let ghost all = probe_views(probes@);
    let mut index: usize = 0;
    assert(all.take(0) =~= Seq::<ProbeView>::empty());
    while index < probes.len()
        invariant
            index <= probes.len(),
            start is Object,
            all == probe_views(probes@),
            value_content(*container) == with_probes(start, all.take(index as int)),
        decreases probes.len() - index,
    {
        proof {
            let next = all.take(index + 1);
            assert(next.drop_last() =~= all.take(index as int));
            assert(next.last() == all[index as int]);
            lemma_probes_keep_object(start, all.take(index as int));
        }
        set_member(container, probe_name(probes[index].kind), probe_value(&probes[index]));
        index = index + 1;
    }
    assert(all.take(all.len() as int) =~= all);
}

/// How a named port is written.
pub open spec fn port_document(port: (Seq<char>, u16)) -> JsonView {
    bare().with("name"@, JsonView::Text(port.0)).with("containerPort"@, natural(port.1 as u64))
}

fn pod_ports_value(ports: &Vec<PodPort>) -> (result: Value)
    ensures
        value_content(result) == JsonView::List(
            Seq::new(ports@.len(), |i: int| port_document(port_views(ports@)[i])),
        ),
{
    let ghost all = port_views(ports@);
    let mut items: Vec<Value> = Vec::new();
    let mut index: usize = 0;
    while index < ports.len()
        invariant
            index <= ports.len(),
            all == port_views(ports@),
            items@.len() == index,
            forall|i: int|
                0 <= i < index ==> value_content(#[trigger] items@[i]) == port_document(all[i]),
        decreases ports.len() - index,
    {
        let mut entry = object_value();
        set_member(&mut entry, "name", text_value(ports[index].name));
        set_member(&mut entry, "containerPort", number_value(ports[index].number as u64));
        items.push(entry);
        index = index + 1;
    }
    assert(value_contents(items@) =~= Seq::new(ports@.len(), |i: int| port_document(all[i])));
    list_value(items)
}

/// How a mount is written.
pub open spec fn mount_document(mount: MountView) -> JsonView {
    let place = bare().with("name"@, JsonView::Text(mount.name)).with(
        "mountPath"@,
        JsonView::Text(mount.path),
    );
    if mount.read_only {
        place.with("readOnly"@, JsonView::Bool(true))
    } else {
        place
    }
}

fn mounts_value(mounts: &Vec<VolumeMount>) -> (result: Value)
    ensures
        value_content(result) == JsonView::List(
            Seq::new(mounts@.len(), |i: int| mount_document(mount_views(mounts@)[i])),
        ),
{
    let ghost all = mount_views(mounts@);
    let mut items: Vec<Value> = Vec::new();
    let mut index: usize = 0;
    while index < mounts.len()
        invariant
            index <= mounts.len(),
            all == mount_views(mounts@),
            items@.len() == index,
            forall|i: int|
                0 <= i < index ==> value_content(#[trigger] items@[i]) == mount_document(all[i]),
        decreases mounts.len() - index,
    {
        let mut entry = object_value();
        set_member(&mut entry, "name", text_value(mounts[index].name.as_str()));
        set_member(&mut entry, "mountPath", text_value(mounts[index].mount_path.as_str()));
        if mounts[index].read_only {
            set_member(&mut entry, "readOnly", flag_value(true));
        }
        items.push(entry);
        index = index + 1;
    }
    assert(value_contents(items@) =~= Seq::new(mounts@.len(), |i: int| mount_document(all[i])));
    list_value(items)
}

/// How a volume is written.
pub open spec fn volume_document(volume: VolumeView) -> JsonView {
    let named = bare().with("name"@, JsonView::Text(volume.name));
    match volume.secret {
        Some(secret) => named.with("secret"@, bare().with("secretName"@, JsonView::Text(secret))),
        None => named.with("emptyDir"@, bare()),
    }
}

fn volumes_value(volumes: &Vec<Volume>) -> (result: Value)
    ensures
        value_content(result) == JsonView::List(
            Seq::new(volumes@.len(), |i: int| volume_document(volume_views(volumes@)[i])),
        ),
{
    let ghost all = volume_views(volumes@);
    let mut items: Vec<Value> = Vec::new();
    let mut index: usize = 0;
    while index < volumes.len()
        invariant
            index <= volumes.len(),
            all == volume_views(volumes@),
            items@.len() == index,
            forall|i: int|
                0 <= i < index ==> value_content(#[trigger] items@[i]) == volume_document(all[i]),
        decreases volumes.len() - index,
    {
        let mut entry = object_value();
        set_member(&mut entry, "name", text_value(volumes[index].name.as_str()));
        match &volumes[index].source {
            VolumeSource::EmptyDirectory => {
                set_member(&mut entry, "emptyDir", object_value());
            },
            VolumeSource::Secret(secret) => {
                let mut shown = object_value();
                set_member(&mut shown, "secretName", text_value(secret.as_str()));
                set_member(&mut entry, "secret", shown);
            },
        }
        items.push(entry);
        index = index + 1;
    }
    assert(value_contents(items@) =~= Seq::new(volumes@.len(), |i: int| volume_document(all[i])));
    list_value(items)
}

/// How a claim on a volume of one's own is written.
pub open spec fn claim_document(claim: (Seq<char>, Seq<char>)) -> JsonView {
    bare().with("metadata"@, bare().with("name"@, JsonView::Text(claim.0))).with(
        "spec"@,
        bare().with("accessModes"@, texts_document(seq!["ReadWriteOnce"@])).with(
            "resources"@,
            bare().with("requests"@, bare().with("storage"@, JsonView::Text(claim.1))),
        ),
    )
}

fn claim_value(claim: &Claim) -> (result: Value)
    ensures
        value_content(result) == claim_document((claim.name@, claim.size@)),
{
    let mut metadata = object_value();
    set_member(&mut metadata, "name", text_value(claim.name));
    let mut size = object_value();
    set_member(&mut size, "storage", text_value(claim.size));
    let mut requests = object_value();
    set_member(&mut requests, "requests", size);
    let mut spec_part = object_value();
    set_member(&mut spec_part, "accessModes", sole_text("ReadWriteOnce"));
    set_member(&mut spec_part, "resources", requests);
    let mut document = object_value();
    set_member(&mut document, "metadata", metadata);
    set_member(&mut document, "spec", spec_part);
    document
}

fn claims_value(claims: &Vec<Claim>) -> (result: Value)
    ensures
        value_content(result) == JsonView::List(
            Seq::new(claims@.len(), |i: int| claim_document(claim_views(claims@)[i])),
        ),
{
    let ghost all = claim_views(claims@);
    let mut items: Vec<Value> = Vec::new();
    let mut index: usize = 0;
    while index < claims.len()
        invariant
            index <= claims.len(),
            all == claim_views(claims@),
            items@.len() == index,
            forall|i: int|
                0 <= i < index ==> value_content(#[trigger] items@[i]) == claim_document(all[i]),
        decreases claims.len() - index,
    {
        items.push(claim_value(&claims[index]));
        index = index + 1;
    }
    assert(value_contents(items@) =~= Seq::new(claims@.len(), |i: int| claim_document(all[i])));
    list_value(items)
}

/// What an agent's container may do: nothing that takes a privilege.
pub open spec fn confinement() -> JsonView {
    bare().with("allowPrivilegeEscalation"@, JsonView::Bool(false)).with(
        "capabilities"@,
        bare().with("drop"@, texts_document(seq!["ALL"@])),
    ).with("runAsNonRoot"@, JsonView::Bool(true)).with("runAsUser"@, natural(65532))
}

fn confinement_value() -> (result: Value)
    ensures
        value_content(result) == confinement(),
{
    let mut dropped = object_value();
    set_member(&mut dropped, "drop", sole_text("ALL"));
    let mut document = object_value();
    set_member(&mut document, "allowPrivilegeEscalation", flag_value(false));
    set_member(&mut document, "capabilities", dropped);
    set_member(&mut document, "runAsNonRoot", flag_value(true));
    set_member(&mut document, "runAsUser", number_value(65532));
    document
}

/// What an agent's pod shares: a group for its files, and the usual filter of system calls.
pub open spec fn pod_confinement() -> JsonView {
    bare().with("fsGroup"@, natural(65532)).with(
        "seccompProfile"@,
        bare().with("type"@, JsonView::Text("RuntimeDefault"@)),
    )
}

fn pod_confinement_value() -> (result: Value)
    ensures
        value_content(result) == pod_confinement(),
{
    let mut profile = object_value();
    set_member(&mut profile, "type", text_value("RuntimeDefault"));
    let mut document = object_value();
    set_member(&mut document, "fsGroup", number_value(65532));
    set_member(&mut document, "seccompProfile", profile);
    document
}

/// What an agent's container asks for, and the most that it may use.
pub open spec fn share_document(plan: StatefulView) -> JsonView {
    bare().with(
        "requests"@,
        bare().with("cpu"@, JsonView::Text(plan.cpu)).with("memory"@, JsonView::Text(plan.memory)),
    ).with("limits"@, bare().with("memory"@, JsonView::Text(plan.memory_limit)))
}

fn share_value(plan: &StatefulPlan) -> (result: Value)
    ensures
        value_content(result) == share_document(plan@),
{
    let mut requests = object_value();
    set_member(&mut requests, "cpu", text_value(plan.cpu));
    set_member(&mut requests, "memory", text_value(plan.memory));
    let mut limits = object_value();
    set_member(&mut limits, "memory", text_value(plan.memory_limit));
    let mut document = object_value();
    set_member(&mut document, "requests", requests);
    set_member(&mut document, "limits", limits);
    document
}

/// The container of an agent.
pub open spec fn agent_container(plan: StatefulView) -> JsonView {
    let always = bare().with("name"@, JsonView::Text("agent"@)).with(
        "image"@,
        JsonView::Text(IMAGE@),
    ).with("imagePullPolicy"@, JsonView::Text("Never"@)).with(
        "command"@,
        texts_document(seq!["/usr/local/bin/run-agent"@]),
    ).with(
        "ports"@,
        JsonView::List(Seq::new(plan.ports.len(), |i: int| port_document(plan.ports[i]))),
    ).with("securityContext"@, confinement()).with("resources"@, share_document(plan)).with(
        "volumeMounts"@,
        JsonView::List(Seq::new(plan.mounts.len(), |i: int| mount_document(plan.mounts[i]))),
    );
    let told = if plan.variables.len() > 0 {
        always.with("env"@, variables_document(plan.variables))
    } else {
        always
    };
    with_probes(told, plan.probes)
}

fn settings_value(variables: &Vec<Variable>) -> (result: Value)
    ensures
        value_content(result) == variables_document(variable_views(variables@)),
{
    let mut settings: Vec<Label> = Vec::new();
    let mut index: usize = 0;
    while index < variables.len()
        invariant
            index <= variables.len(),
            settings@.len() == index,
            forall|i: int|
                0 <= i < index ==> (#[trigger] settings@[i]).key@ == variables@[i].name@
                    && settings@[i].value@ == variables@[i].value@,
        decreases variables.len() - index,
    {
        settings.push(label(variables[index].name, variables[index].value.as_str()));
        index = index + 1;
    }
    assert(pairs(settings@) =~= variable_views(variables@));
    variables_value(&settings)
}

fn agent_container_value(plan: &StatefulPlan) -> (result: Value)
    ensures
        value_content(result) == agent_container(plan@),
{
    let mut container = object_value();
    set_member(&mut container, "name", text_value("agent"));
    set_member(&mut container, "image", text_value(IMAGE));
    set_member(&mut container, "imagePullPolicy", text_value("Never"));
    set_member(&mut container, "command", sole_text("/usr/local/bin/run-agent"));
    set_member(&mut container, "ports", pod_ports_value(&plan.ports));
    set_member(&mut container, "securityContext", confinement_value());
    set_member(&mut container, "resources", share_value(plan));
    set_member(&mut container, "volumeMounts", mounts_value(&plan.mounts));
    if plan.variables.len() > 0 {
        set_member(&mut container, "env", settings_value(&plan.variables));
    }
    set_probes(&mut container, &plan.probes);
    container
}

/// The pod of an agent.
pub open spec fn agent_pod(plan: StatefulView) -> JsonView {
    bare().with("securityContext"@, pod_confinement()).with(
        "containers"@,
        JsonView::List(seq![agent_container(plan)]),
    ).with(
        "volumes"@,
        JsonView::List(Seq::new(plan.volumes.len(), |i: int| volume_document(plan.volumes[i]))),
    )
}

/// A stateful workload: its pods start side by side, and each keeps its name and its volumes.
pub open spec fn agent_set_document(plan: StatefulView) -> JsonView {
    let own = labels_document(plan.labels);
    resource_document("apps/v1"@, "StatefulSet"@, place_document(plan.name)).with(
        "spec"@,
        bare().with("serviceName"@, JsonView::Text("agents"@)).with(
            "replicas"@,
            natural(plan.replicas as u64),
        ).with("podManagementPolicy"@, JsonView::Text("Parallel"@)).with(
            "selector"@,
            bare().with("matchLabels"@, own),
        ).with(
            "template"@,
            bare().with("metadata"@, bare().with("labels"@, own)).with("spec"@, agent_pod(plan)),
        ).with(
            "volumeClaimTemplates"@,
            JsonView::List(Seq::new(plan.claims.len(), |i: int| claim_document(plan.claims[i]))),
        ),
    )
}

/// A stateful workload.
pub fn agent_set(plan: &StatefulPlan) -> (result: Value)
    ensures
        value_content(result) == agent_set_document(plan@),
{
    let mut pod = object_value();
    set_member(&mut pod, "securityContext", pod_confinement_value());
    set_member(&mut pod, "containers", sole_item(agent_container_value(plan)));
    set_member(&mut pod, "volumes", volumes_value(&plan.volumes));
    let mut metadata = object_value();
    set_member(&mut metadata, "labels", labels_value(&plan.labels));
    let mut template = object_value();
    set_member(&mut template, "metadata", metadata);
    set_member(&mut template, "spec", pod);
    let mut selector = object_value();
    set_member(&mut selector, "matchLabels", labels_value(&plan.labels));
    let mut spec_part = object_value();
    set_member(&mut spec_part, "serviceName", text_value("agents"));
    set_member(&mut spec_part, "replicas", number_value(plan.replicas as u64));
    set_member(&mut spec_part, "podManagementPolicy", text_value("Parallel"));
    set_member(&mut spec_part, "selector", selector);
    set_member(&mut spec_part, "template", template);
    set_member(&mut spec_part, "volumeClaimTemplates", claims_value(&plan.claims));
    let mut document = resource_value("apps/v1", "StatefulSet", place_value(plan.name.as_str()));
    set_member(&mut document, "spec", spec_part);
    document
}

proof fn lemma_probes_keep_confinement(container: JsonView, probes: Seq<ProbeView>)
    ensures
        member_of(with_probes(container, probes), "securityContext"@) == member_of(
            container,
            "securityContext"@,
        ),
    decreases probes.len(),
{
    if probes.len() > 0 {
        lemma_probes_keep_confinement(container, probes.drop_last());
        reveal_strlit("securityContext");
        reveal_strlit("startupProbe");
        reveal_strlit("readinessProbe");
        reveal_strlit("livenessProbe");
        assert("securityContext"@.len() == 15 && "startupProbe"@.len() == 12);
        assert("readinessProbe"@.len() == 14 && "livenessProbe"@.len() == 13);
    }
}

/// No agent's container runs as root, or may gain a privilege, whatever the workload.
pub proof fn no_agent_is_privileged(plan: StatefulView)
    ensures
        member_of(agent_container(plan), "securityContext"@) == confinement(),
        member_of(confinement(), "runAsNonRoot"@) == JsonView::Bool(true),
        member_of(confinement(), "allowPrivilegeEscalation"@) == JsonView::Bool(false),
{
    reveal_strlit("securityContext");
    reveal_strlit("resources");
    reveal_strlit("volumeMounts");
    reveal_strlit("env");
    assert("securityContext"@.len() == 15 && "resources"@.len() == 9);
    assert("volumeMounts"@.len() == 12 && "env"@.len() == 3);
    reveal_strlit("runAsNonRoot");
    reveal_strlit("runAsUser");
    reveal_strlit("allowPrivilegeEscalation");
    reveal_strlit("capabilities");
    assert("runAsNonRoot"@.len() == 12 && "runAsUser"@.len() == 9);
    assert("allowPrivilegeEscalation"@.len() == 24);
    assert("capabilities"@.len() == 12);
    let bounded = StatefulView { probes: Seq::empty(), ..plan };
    lemma_probes_keep_confinement(agent_container(bounded), plan.probes);
    assert(with_probes(agent_container(bounded), Seq::empty()) == agent_container(bounded));
}

/// An agent pod keeps the mounts and volumes of its workload, and has besides them its identity, which it
/// can only read, and a scratch directory that starts out empty and can be written to.
pub proof fn agent_pods_have_their_identity(
    mounts: Seq<MountView>,
    volumes: Seq<VolumeView>,
    place: int,
)
    ensures
        with_agent_mounts(mounts).len() == mounts.len() + 2,
        0 <= place < mounts.len() ==> with_agent_mounts(mounts)[place] == mounts[place],
        with_agent_mounts(mounts)[mounts.len() as int] == (MountView {
            name: "agent-tls"@,
            path: "/etc/agent-tls"@,
            read_only: true,
        }),
        with_agent_mounts(mounts).last() == (MountView {
            name: "tmp"@,
            path: "/tmp"@,
            read_only: false,
        }),
        with_agent_volumes(volumes).len() == volumes.len() + 2,
        0 <= place < volumes.len() ==> with_agent_volumes(volumes)[place] == volumes[place],
        with_agent_volumes(volumes)[volumes.len() as int] == (VolumeView {
            name: "tmp"@,
            secret: None,
        }),
        with_agent_volumes(volumes).last() == (VolumeView {
            name: "agent-tls"@,
            secret: Some("agent-tls"@),
        }),
{
}

/// A workload is coherent exactly where everything that it mounts is a volume or a claim of its pod, every
/// claim is mounted and every probe asks on a port of the pod.
pub proof fn coherent_workloads_have_what_they_use(plan: StatefulView, place: int)
    requires
        is_coherent(plan),
    ensures
        0 <= place < plan.mounts.len() ==> (exists|i: int|
            0 <= i < plan.volumes.len() && (#[trigger] plan.volumes[i]).name
                == plan.mounts[place].name) || (exists|i: int|
            0 <= i < plan.claims.len() && (#[trigger] plan.claims[i]).0
                == plan.mounts[place].name),
        0 <= place < plan.claims.len() ==> exists|j: int|
            0 <= j < plan.mounts.len() && (#[trigger] plan.mounts[j]).name == plan.claims[place].0,
        0 <= place < plan.probes.len() ==> exists|i: int|
            0 <= i < plan.ports.len() && (#[trigger] plan.ports[i]).0 == plan.probes[place].port,
{
    if 0 <= place < plan.mounts.len() {
        assert(has_volume(plan.volumes, plan.mounts[place].name) || has_claim(
            plan.claims,
            plan.mounts[place].name,
        ));
    }
    if 0 <= place < plan.claims.len() {
        assert(plan.claims[place] == plan.claims[place]);
    }
    if 0 <= place < plan.probes.len() {
        assert(has_port(plan.ports, plan.probes[place].port));
    }
}

/// The files of an agent's pod belong to the group of the user that its containers run as, who is not
/// the superuser; system calls are filtered as they usually are.
pub proof fn pods_share_files_with_their_user()
    ensures
        member_of(pod_confinement(), "fsGroup"@) == member_of(confinement(), "runAsUser"@),
        member_of(confinement(), "runAsUser"@) == natural(65532),
        member_of(member_of(pod_confinement(), "seccompProfile"@), "type"@) == JsonView::Text(
            "RuntimeDefault"@,
        ),
        member_of(member_of(confinement(), "capabilities"@), "drop"@) == texts_document(
            seq!["ALL"@],
        ),
{
    reveal_strlit("fsGroup");
    reveal_strlit("seccompProfile");
    reveal_strlit("runAsUser");
    reveal_strlit("runAsNonRoot");
    reveal_strlit("capabilities");
    assert("fsGroup"@.len() == 7 && "seccompProfile"@.len() == 14);
    assert("runAsUser"@.len() == 9);
    assert("capabilities"@[0] == 'c' && "runAsNonRoot"@[0] == 'r');
}

} // verus!
