//! The stateful workloads of the demo fleet.

use crate::demo::layout::{DEMO_HAPROXY_ADMIN_PORT, DEMO_HAPROXY_REPLICAS};
use crate::resources::{label, pairs};
use crate::workloads::{
    agent_volume_mounts, agent_volumes, claim_views, is_coherent, mount, mount_views, port_views,
    probe_views, variable_views, volume_views, with_agent_mounts, with_agent_volumes, writable, Ask,
    Claim, PodPort, PodProbe, ProbeKind, ProbeView, StatefulPlan, StatefulView, Variable,
};
use vstd::prelude::*;

verus! {

/// How a pod's guardian is asked whether it has started, serves and lives: a pod that withdraws its
/// readiness is out of its service within a second.
pub open spec fn guardian_asked(period: u32, failures: u32) -> Seq<ProbeView> {
    seq![
        ProbeView {
            kind: ProbeKind::Startup,
            path: Some("/startupz"@),
            port: "guardian"@,
            period,
            failures,
        },
        ProbeView {
            kind: ProbeKind::Readiness,
            path: Some("/readyz"@),
            port: "guardian"@,
            period: 1,
            failures: 1,
        },
        ProbeView {
            kind: ProbeKind::Liveness,
            path: Some("/livez"@),
            port: "guardian"@,
            period: 5,
            failures: 6,
        },
    ]
}

/// How a pod's guardian is asked; the first probe with its own period and patience.
pub fn guardian_probes(period: u32, failures: u32) -> (result: Vec<PodProbe>)
    ensures
        probe_views(result@) == guardian_asked(period, failures),
{
    let result = vec![
        PodProbe {
            kind: ProbeKind::Startup,
            ask: Ask::Answer("/startupz"),
            port: "guardian",
            period,
            failures,
        },
        PodProbe {
            kind: ProbeKind::Readiness,
            ask: Ask::Answer("/readyz"),
            port: "guardian",
            period: 1,
            failures: 1,
        },
        PodProbe {
            kind: ProbeKind::Liveness,
            ask: Ask::Answer("/livez"),
            port: "guardian",
            period: 5,
            failures: 6,
        },
    ];
    assert(probe_views(result@) =~= guardian_asked(period, failures));
    result
}

/// The Magnolia nodes of a role: their data and the backups that an upgrade takes lie on disks of
/// their own, and a first start may take ten minutes.
pub open spec fn magnolia_plan(role: Seq<char>, instance: Seq<char>, replicas: nat) -> StatefulView {
    StatefulView {
        name: "magnolia-"@ + role,
        replicas,
        labels: seq![
            ("app"@, "updated-agent"@),
            ("demo.updated.dev/kind"@, "magnolia"@),
            ("demo.updated.dev/role"@, role),
        ],
        variables: seq![
            ("MAGNOLIA_INSTANCE"@, instance),
            ("MAGNOLIA_DATA"@, "/var/lib/magnolia"@),
            ("MAGNOLIA_BACKUPS"@, "/var/lib/magnolia-backups"@),
        ],
        ports: seq![("http"@, 8080u16), ("guardian"@, 9090u16)],
        probes: guardian_asked(3, 200),
        cpu: "250m"@,
        memory: "1Gi"@,
        memory_limit: "1500Mi"@,
        mounts: with_agent_mounts(
            seq![
                writable("state"@, "/var/lib/updated"@),
                writable("magnolia-data"@, "/var/lib/magnolia"@),
                writable("magnolia-backups"@, "/var/lib/magnolia-backups"@),
            ],
        ),
        volumes: with_agent_volumes(Seq::empty()),
        claims: seq![
            ("state"@, "1Gi"@),
            ("magnolia-data"@, "2Gi"@),
            ("magnolia-backups"@, "2Gi"@),
        ],
    }
}

/// The Magnolia nodes of a role.
pub fn magnolia_statefulset(role: &str, instance: &str, replicas: usize) -> (result: StatefulPlan)
    ensures
        result@ == magnolia_plan(role@, instance@, replicas as nat),
{
    let mut name = String::from_str("magnolia-");
    name.append(role);
    let labels = vec![
        label("app", "updated-agent"),
        label("demo.updated.dev/kind", "magnolia"),
        label("demo.updated.dev/role", role),
    ];
    let variables = vec![
        Variable { name: "MAGNOLIA_INSTANCE", value: instance.to_owned() },
        Variable { name: "MAGNOLIA_DATA", value: "/var/lib/magnolia".to_owned() },
        Variable { name: "MAGNOLIA_BACKUPS", value: "/var/lib/magnolia-backups".to_owned() },
    ];
    let ports = vec![
        PodPort { name: "http", number: 8080 },
        PodPort { name: "guardian", number: 9090 },
    ];
    let own = vec![
        mount("state", "/var/lib/updated"),
        mount("magnolia-data", "/var/lib/magnolia"),
        mount("magnolia-backups", "/var/lib/magnolia-backups"),
    ];
    let claims = vec![
        Claim { name: "state", size: "1Gi" },
        Claim { name: "magnolia-data", size: "2Gi" },
        Claim { name: "magnolia-backups", size: "2Gi" },
    ];
    let ghost expected = magnolia_plan(role@, instance@, replicas as nat);
    proof {
        assert(pairs(labels@) =~= expected.labels);
        assert(variable_views(variables@) =~= expected.variables);
        assert(port_views(ports@) =~= expected.ports);
        assert(claim_views(claims@) =~= expected.claims);
        assert(with_agent_mounts(mount_views(own@)) =~= expected.mounts);
        assert(volume_views(Seq::empty()) =~= Seq::empty());
    }
    StatefulPlan {
        name,
        replicas,
        labels,
        variables,
        ports,
        probes: guardian_probes(3, 200),
        cpu: "250m",
        memory: "1Gi",
        memory_limit: "1500Mi",
        mounts: agent_volume_mounts(own),
        volumes: agent_volumes(Vec::new()),
        claims,
    }
}

/// The load balancers that the fleet manages for itself: they start within seconds, and what they
/// enrolled as outlives a restart.
pub open spec fn haproxy_plan() -> StatefulView {
    StatefulView {
        name: "haproxy"@,
        replicas: DEMO_HAPROXY_REPLICAS as nat,
        labels: seq![("app"@, "updated-agent"@), ("demo.updated.dev/kind"@, "haproxy"@)],
        variables: Seq::empty(),
        ports: seq![
            ("http"@, 8080u16),
            ("admin"@, DEMO_HAPROXY_ADMIN_PORT),
            ("guardian"@, 9090u16),
        ],
        probes: guardian_asked(1, 180),
        cpu: "50m"@,
        memory: "64Mi"@,
        memory_limit: "256Mi"@,
        mounts: with_agent_mounts(seq![writable("state"@, "/var/lib/updated"@)]),
        volumes: with_agent_volumes(Seq::empty()),
        claims: seq![("state"@, "1Gi"@)],
    }
}

/// The load balancers that the fleet manages for itself.
pub fn haproxy_statefulset() -> (result: StatefulPlan)
    ensures
        result@ == haproxy_plan(),
{
    let labels = vec![
        label("app", "updated-agent"),
        label("demo.updated.dev/kind", "haproxy"),
    ];
    let ports = vec![
        PodPort { name: "http", number: 8080 },
        PodPort { name: "admin", number: DEMO_HAPROXY_ADMIN_PORT },
        PodPort { name: "guardian", number: 9090 },
    ];
    let own = vec![mount("state", "/var/lib/updated")];
    let claims = vec![Claim { name: "state", size: "1Gi" }];
    let variables: Vec<Variable> = Vec::new();
    let ghost expected = haproxy_plan();
    proof {
        assert(pairs(labels@) =~= expected.labels);
        assert(variable_views(variables@) =~= expected.variables);
        assert(port_views(ports@) =~= expected.ports);
        assert(claim_views(claims@) =~= expected.claims);
        assert(with_agent_mounts(mount_views(own@)) =~= expected.mounts);
        assert(volume_views(Seq::empty()) =~= Seq::empty());
    }
    StatefulPlan {
        name: "haproxy".to_owned(),
        replicas: DEMO_HAPROXY_REPLICAS,
        labels,
        variables,
        ports,
        probes: guardian_probes(1, 180),
        cpu: "50m",
        memory: "64Mi",
        memory_limit: "256Mi",
        mounts: agent_volume_mounts(own),
        volumes: agent_volumes(Vec::new()),
        claims,
    }
}

/// The workloads of the demo make sense, whatever the role.
pub proof fn workloads_are_coherent(role: Seq<char>, instance: Seq<char>, replicas: nat)
    ensures
        is_coherent(magnolia_plan(role, instance, replicas)),
        is_coherent(haproxy_plan()),
{
    let magnolia = magnolia_plan(role, instance, replicas);
    assert(magnolia.claims[0].0 == "state"@ && magnolia.mounts[0].name == "state"@);
    assert(magnolia.claims[1].0 == "magnolia-data"@ && magnolia.mounts[1].name == "magnolia-data"@);
    assert(magnolia.claims[2].0 == "magnolia-backups"@ && magnolia.mounts[2].name
        == "magnolia-backups"@);
    assert(magnolia.volumes[0].name == "tmp"@ && magnolia.volumes[1].name == "agent-tls"@);
    assert(magnolia.ports[1].0 == "guardian"@);
    let haproxy = haproxy_plan();
    assert(haproxy.claims[0].0 == "state"@ && haproxy.mounts[0].name == "state"@);
    assert(haproxy.volumes[0].name == "tmp"@ && haproxy.volumes[1].name == "agent-tls"@);
    assert(haproxy.ports[2].0 == "guardian"@);
}

/// A pod that withdraws its readiness is out of its service within a second. A Magnolia node may take ten
/// minutes to start and a load balancer three; a pod that no longer lives is replaced within half a
/// minute.
pub proof fn pods_are_asked_often_enough(
    period: u32,
    failures: u32,
    role: Seq<char>,
    instance: Seq<char>,
    replicas: nat,
)
    ensures
        ({
            let asked = guardian_asked(period, failures);
            let magnolia = magnolia_plan(role, instance, replicas).probes[0];
            let haproxy = haproxy_plan().probes[0];
            &&& asked.len() == 3
            &&& asked[0].kind == ProbeKind::Startup && asked[0].path == Some("/startupz"@)
            &&& asked[0].period == period && asked[0].failures == failures
            &&& asked[1].kind == ProbeKind::Readiness && asked[1].path == Some("/readyz"@)
            &&& asked[1].period * asked[1].failures == 1
            &&& asked[2].kind == ProbeKind::Liveness && asked[2].path == Some("/livez"@)
            &&& asked[2].period * asked[2].failures == 30
            &&& magnolia.kind == ProbeKind::Startup && magnolia.period * magnolia.failures == 600
            &&& haproxy.kind == ProbeKind::Startup && haproxy.period * haproxy.failures == 180
        }),
{
    let asked = guardian_asked(period, failures);
    lemma_patience(asked[1], 1, 1);
    lemma_patience(asked[2], 5, 6);
    lemma_patience(magnolia_plan(role, instance, replicas).probes[0], 3, 200);
    lemma_patience(haproxy_plan().probes[0], 1, 180);
}

proof fn lemma_patience(probe: ProbeView, period: int, failures: int)
    requires
        probe.period == period,
        probe.failures == failures,
    ensures
        probe.period * probe.failures == period * failures,
{
    assert(probe.period * probe.failures == period * failures) by (nonlinear_arith)
        requires
            probe.period == period,
            probe.failures == failures,
    ;
}

/// A Magnolia workload is named, labelled and told after its role and instance, with as many nodes as
/// asked for, and keeps its data and its backups.
pub proof fn magnolia_nodes_keep_their_data(role: Seq<char>, instance: Seq<char>, replicas: nat)
    ensures
        ({
            let plan = magnolia_plan(role, instance, replicas);
            &&& plan.name == "magnolia-"@ + role
            &&& plan.replicas == replicas
            &&& plan.labels.contains(("demo.updated.dev/role"@, role))
            &&& plan.labels.contains(("demo.updated.dev/kind"@, "magnolia"@))
            &&& plan.variables.contains(("MAGNOLIA_INSTANCE"@, instance))
            &&& plan.claims.len() == 3
            &&& plan.claims[0].0 == "state"@ && plan.mounts[0].path == "/var/lib/updated"@
            &&& plan.claims[1].0 == "magnolia-data"@ && plan.mounts[1].path == "/var/lib/magnolia"@
            &&& plan.claims[2].0 == "magnolia-backups"@ && plan.mounts[2].path
                == "/var/lib/magnolia-backups"@
            &&& !plan.mounts[0].read_only && !plan.mounts[1].read_only && !plan.mounts[2].read_only
            &&& haproxy_plan().replicas == 2
            &&& haproxy_plan().claims.len() == 1 && haproxy_plan().claims[0].0 == "state"@
        }),
{
    let plan = magnolia_plan(role, instance, replicas);
    assert(plan.labels[1] == ("demo.updated.dev/kind"@, "magnolia"@));
    assert(plan.labels[2] == ("demo.updated.dev/role"@, role));
    assert(plan.variables[0] == ("MAGNOLIA_INSTANCE"@, instance));
}

/// A load balancer's pod serves its traffic, its administration and its guardian each on a port of its
/// own, and keeps what it enrolled as.
pub proof fn load_balancers_keep_what_they_enrolled_as()
    ensures
        ({
            let plan = haproxy_plan();
            &&& plan.replicas == DEMO_HAPROXY_REPLICAS
            &&& plan.ports == seq![
                ("http"@, 8080u16),
                ("admin"@, DEMO_HAPROXY_ADMIN_PORT),
                ("guardian"@, 9090u16),
            ]
            &&& plan.labels.contains(("demo.updated.dev/kind"@, "haproxy"@))
            &&& plan.labels.contains(("app"@, "updated-agent"@))
            &&& plan.variables.len() == 0
            &&& plan.probes == guardian_asked(1, 180)
            &&& plan.cpu == "50m"@ && plan.memory == "64Mi"@ && plan.memory_limit == "256Mi"@
            &&& plan.claims == seq![("state"@, "1Gi"@)]
            &&& plan.mounts[0] == writable("state"@, "/var/lib/updated"@)
            &&& plan.mounts.len() == 3 && plan.volumes.len() == 2
        }),
{
    let plan = haproxy_plan();
    assert(plan.labels[0] == ("app"@, "updated-agent"@));
    assert(plan.labels[1] == ("demo.updated.dev/kind"@, "haproxy"@));
    crate::workloads::agent_pods_have_their_identity(
        seq![writable("state"@, "/var/lib/updated"@)],
        Seq::empty(),
        0,
    );
}

} // verus!
