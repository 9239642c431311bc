//! The stateful workloads of the fleet that the end-to-end test drives.

use crate::e2e::enrollment::{jenkins_group, write_jenkins_group};
use crate::e2e::layout::{HAPROXY_ADMIN_PORT, HAPROXY_REPLICAS, KIND_LABEL, ROLE_LABEL};
use crate::resources::{label, pairs};
use crate::workloads::{
    agent_volume_mounts, agent_volumes, claim_views, is_coherent, mount, mount_views, port_views,
    probe_views, variable_views, volume_views, with_agent_mounts, with_agent_volumes, writable, Ask,
    Claim, PodPort, PodProbe, ProbeKind, ProbeView, StatefulPlan, StatefulView, Variable,
};
use vstd::prelude::*;

verus! {

/// The Jenkins controllers of a role: their data and the backups that an upgrade takes lie on disks
/// of their own. A pod is asked for the page that Jenkins itself serves, and about nothing else.
pub open spec fn jenkins_plan(role: Seq<char>, replicas: nat) -> StatefulView {
    StatefulView {
        name: jenkins_group(role),
        replicas,
        labels: seq![("app"@, "updated-agent"@), (KIND_LABEL@, "jenkins"@), (ROLE_LABEL@, role)],
        variables: seq![
            ("JENKINS_DATA"@, "/var/lib/jenkins"@),
            ("JENKINS_BACKUPS"@, "/var/lib/jenkins-backups"@),
        ],
        ports: seq![("http"@, 8080u16)],
        probes: seq![
            ProbeView {
                kind: ProbeKind::Readiness,
                path: Some("/login"@),
                port: "http"@,
                period: 3,
                failures: 200,
            },
        ],
        cpu: "250m"@,
        memory: "1Gi"@,
        memory_limit: "1500Mi"@,
        mounts: with_agent_mounts(
            seq![
                writable("state"@, "/var/lib/updated"@),
                writable("jenkins-data"@, "/var/lib/jenkins"@),
                writable("jenkins-backups"@, "/var/lib/jenkins-backups"@),
            ],
        ),
        volumes: with_agent_volumes(Seq::empty()),
        claims: seq![
            ("state"@, "1Gi"@),
            ("jenkins-data"@, "2Gi"@),
            ("jenkins-backups"@, "2Gi"@),
        ],
    }
}

/// The Jenkins controllers of a role.
pub fn jenkins_statefulset(role: &str, replicas: usize) -> (result: StatefulPlan)
    ensures
        result@ == jenkins_plan(role@, replicas as nat),
{
    let labels = vec![
        label("app", "updated-agent"),
        label(KIND_LABEL, "jenkins"),
        label(ROLE_LABEL, role),
    ];
    let variables = vec![
        Variable { name: "JENKINS_DATA", value: "/var/lib/jenkins".to_owned() },
        Variable { name: "JENKINS_BACKUPS", value: "/var/lib/jenkins-backups".to_owned() },
    ];
    let ports = vec![PodPort { name: "http", number: 8080 }];
    let probes = vec![
        PodProbe {
            kind: ProbeKind::Readiness,
            ask: Ask::Answer("/login"),
            port: "http",
            period: 3,
            failures: 200,
        },
    ];
    let own = vec![
        mount("state", "/var/lib/updated"),
        mount("jenkins-data", "/var/lib/jenkins"),
        mount("jenkins-backups", "/var/lib/jenkins-backups"),
    ];
    let claims = vec![
        Claim { name: "state", size: "1Gi" },
        Claim { name: "jenkins-data", size: "2Gi" },
        Claim { name: "jenkins-backups", size: "2Gi" },
    ];
    let ghost expected = jenkins_plan(role@, replicas as nat);
    proof {
        assert(pairs(labels@) =~= expected.labels);
        assert(variable_views(variables@) =~= expected.variables);
        assert(port_views(ports@) =~= expected.ports);
        assert(probe_views(probes@) =~= expected.probes);
        assert(claim_views(claims@) =~= expected.claims);
        assert(with_agent_mounts(mount_views(own@)) =~= expected.mounts);
        assert(volume_views(Seq::empty()) =~= Seq::empty());
    }
    StatefulPlan {
        name: write_jenkins_group(role),
        replicas,
        labels,
        variables,
        ports,
        probes,
        cpu: "250m",
        memory: "1Gi",
        memory_limit: "1500Mi",
        mounts: agent_volume_mounts(own),
        volumes: agent_volumes(Vec::new()),
        claims,
    }
}

/// The load balancers that the fleet manages for itself: what they enrolled as outlives a restart,
/// and a pod serves once its front accepts a connection.
pub open spec fn haproxy_plan() -> StatefulView {
    StatefulView {
        name: "haproxy"@,
        replicas: HAPROXY_REPLICAS as nat,
        labels: seq![("app"@, "updated-agent"@), (KIND_LABEL@, "haproxy"@)],
        variables: Seq::empty(),
        ports: seq![("http"@, 8080u16), ("admin"@, HAPROXY_ADMIN_PORT)],
        probes: seq![
            ProbeView {
                kind: ProbeKind::Readiness,
                path: None,
                port: "http"@,
                period: 1,
                failures: 180,
            },
        ],
        cpu: "50m"@,
        memory: "64Mi"@,
        memory_limit: "256Mi"@,
        mounts: with_agent_mounts(seq![writable("state"@, "/var/lib/updated"@)]),
        volumes: with_agent_volumes(Seq::empty()),
        claims: seq![("state"@, "1Gi"@)],
    }
}

/// The load balancers that the fleet manages for itself.
pub fn haproxy_statefulset() -> (result: StatefulPlan)
    ensures
        result@ == haproxy_plan(),
{
    let labels = vec![label("app", "updated-agent"), label(KIND_LABEL, "haproxy")];
    let ports = vec![
        PodPort { name: "http", number: 8080 },
        PodPort { name: "admin", number: HAPROXY_ADMIN_PORT },
    ];
    let probes = vec![
        PodProbe {
            kind: ProbeKind::Readiness,
            ask: Ask::Connect,
            port: "http",
            period: 1,
            failures: 180,
        },
    ];
    let own = vec![mount("state", "/var/lib/updated")];
    let claims = vec![Claim { name: "state", size: "1Gi" }];
    let variables: Vec<Variable> = Vec::new();
    let ghost expected = haproxy_plan();
    proof {
        assert(pairs(labels@) =~= expected.labels);
        assert(variable_views(variables@) =~= expected.variables);
        assert(port_views(ports@) =~= expected.ports);
        assert(probe_views(probes@) =~= expected.probes);
        assert(claim_views(claims@) =~= expected.claims);
        assert(with_agent_mounts(mount_views(own@)) =~= expected.mounts);
        assert(volume_views(Seq::empty()) =~= Seq::empty());
    }
    StatefulPlan {
        name: "haproxy".to_owned(),
        replicas: HAPROXY_REPLICAS,
        labels,
        variables,
        ports,
        probes,
        cpu: "50m",
        memory: "64Mi",
        memory_limit: "256Mi",
        mounts: agent_volume_mounts(own),
        volumes: agent_volumes(Vec::new()),
        claims,
    }
}

/// The workloads of the fleet make sense, whatever the role.
pub proof fn workloads_are_coherent(role: Seq<char>, replicas: nat)
    ensures
        is_coherent(jenkins_plan(role, replicas)),
        is_coherent(haproxy_plan()),
{
    let jenkins = jenkins_plan(role, replicas);
    assert(jenkins.claims[0].0 == "state"@ && jenkins.mounts[0].name == "state"@);
    assert(jenkins.claims[1].0 == "jenkins-data"@ && jenkins.mounts[1].name == "jenkins-data"@);
    assert(jenkins.claims[2].0 == "jenkins-backups"@ && jenkins.mounts[2].name
        == "jenkins-backups"@);
    assert(jenkins.volumes[0].name == "tmp"@ && jenkins.volumes[1].name == "agent-tls"@);
    assert(jenkins.ports[0].0 == "http"@);
    let haproxy = haproxy_plan();
    assert(haproxy.claims[0].0 == "state"@ && haproxy.mounts[0].name == "state"@);
    assert(haproxy.volumes[0].name == "tmp"@ && haproxy.volumes[1].name == "agent-tls"@);
    assert(haproxy.ports[0].0 == "http"@);
}

/// A Jenkins controller is asked for its own page, and may take ten minutes; a load balancer serves once
/// its front accepts a connection, and may take three. What a workload claims is mounted where its
/// settings say.
pub proof fn pods_are_given_time_to_start(role: Seq<char>, replicas: nat)
    ensures
        ({
            let jenkins = jenkins_plan(role, replicas);
            let haproxy = haproxy_plan();
            &&& jenkins.name == "jenkins-"@ + role
            &&& jenkins.replicas == replicas
            &&& jenkins.labels.contains((ROLE_LABEL@, role))
            &&& jenkins.labels.contains((KIND_LABEL@, "jenkins"@))
            &&& jenkins.probes.len() == 1 && jenkins.probes[0].kind == ProbeKind::Readiness
            &&& jenkins.probes[0].path == Some("/login"@)
            &&& jenkins.probes[0].period == 3 && jenkins.probes[0].failures == 200
            &&& jenkins.variables.contains(("JENKINS_DATA"@, jenkins.mounts[1].path))
            &&& jenkins.variables.contains(("JENKINS_BACKUPS"@, jenkins.mounts[2].path))
            &&& jenkins.claims.len() == 3
            &&& jenkins.claims[1].0 == jenkins.mounts[1].name
            &&& jenkins.claims[2].0 == jenkins.mounts[2].name
            &&& haproxy.replicas == 2
            &&& haproxy.labels.contains((KIND_LABEL@, "haproxy"@))
            &&& haproxy.probes.len() == 1 && haproxy.probes[0].kind == ProbeKind::Readiness
            &&& haproxy.probes[0].path is None && haproxy.probes[0].port == "http"@
            &&& haproxy.probes[0].period == 1 && haproxy.probes[0].failures == 180
            &&& haproxy.claims.len() == 1 && haproxy.claims[0].0 == haproxy.mounts[0].name
        }),
{
    let jenkins = jenkins_plan(role, replicas);
    assert(jenkins.labels[1] == (KIND_LABEL@, "jenkins"@));
    assert(jenkins.labels[2] == (ROLE_LABEL@, role));
    assert(jenkins.variables[0] == ("JENKINS_DATA"@, jenkins.mounts[1].path));
    assert(jenkins.variables[1] == ("JENKINS_BACKUPS"@, jenkins.mounts[2].path));
    assert(haproxy_plan().labels[1] == (KIND_LABEL@, "haproxy"@));
}

} // verus!
