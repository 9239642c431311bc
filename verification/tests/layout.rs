use fleet_drill::demo;
use fleet_drill::e2e;
use fleet_drill::e2e::layout::versioned_deployment_name;
use fleet_drill::workloads::{
    agent_volume_mounts, agent_volumes, Ask, ProbeKind, StatefulPlan, VolumeMount, VolumeSource,
};

#[test]
fn fleet_rollout_width_stays_in_the_uptime_safe_band_and_spans_it() {
    let band: Vec<u32> = (demo::layout::DEMO_FLEET_CONCURRENCY
        ..=demo::layout::DEMO_SET_COUNT as u32)
        .collect();
    let mut seen = std::collections::BTreeSet::new();
    for seed in 0..10_000u64 {
        let width = demo::layout::fleet_rollout_width(seed);
        assert!(
            band.contains(&width),
            "width {width} out of the uptime-safe band for seed {seed}"
        );
        seen.insert(width);
    }
    assert_eq!(seen.into_iter().collect::<Vec<_>>(), band);
}

#[test]
fn layout_fleet_rollout_width_stays_in_the_uptime_safe_band_and_spans_it() {
    let band: Vec<u32> =
        (e2e::layout::FLEET_CONCURRENCY..=e2e::layout::SET_COUNT as u32).collect();
    let mut seen = std::collections::BTreeSet::new();
    for seed in 0..10_000u64 {
        let width = e2e::layout::fleet_rollout_width(seed);
        assert!(
            band.contains(&width),
            "width {width} out of the uptime-safe band for seed {seed}"
        );
        seen.insert(width);
    }
    assert_eq!(seen.into_iter().collect::<Vec<_>>(), band);
}

#[test]
fn health_cdn_addresses_the_prefix_the_gateway_writes_reports_under() {
    let endpoint = "http://minio:9000";
    let bucket = "updates";
    let prefix = "routing";
    assert_eq!(
        demo::layout::DEMO_HEALTH_CDN,
        format!("{endpoint}/{bucket}/{prefix}")
    );

    let node = "demo-node-01";
    let base = demo::layout::DEMO_HEALTH_CDN;
    assert_eq!(
        format!("{base}/telemetry/{node}.json"),
        format!("{endpoint}/{bucket}/{prefix}/telemetry/{node}.json"),
    );
}

#[test]
fn health_cdn_addresses_the_prefix_the_gateway_flushes_the_fleet_index_under() {
    let endpoint = e2e::layout::RELEASE_ENDPOINT;
    let bucket = e2e::layout::RELEASE_BUCKET;
    let prefix = format!(
        "routing/{}/{}",
        e2e::layout::NAMESPACE,
        e2e::layout::REPOSITORY_NAME
    );
    assert_eq!(
        e2e::layout::HEALTH_CDN,
        format!("{endpoint}/{bucket}/{prefix}")
    );
    let base = e2e::layout::HEALTH_CDN;
    assert_eq!(
        format!("{base}/telemetry/fleet.json"),
        format!("{endpoint}/{bucket}/{prefix}/telemetry/fleet.json"),
    );
}

#[test]
fn agent_pods_mount_their_identity_read_only_under_the_workload_s_own_volumes() {
    let mounts = agent_volume_mounts(vec![VolumeMount {
        name: "state".into(),
        mount_path: "/var/lib/updated".into(),
        read_only: false,
    }]);
    let seen: Vec<(&str, &str, bool)> = mounts
        .iter()
        .map(|mount| {
            (
                mount.name.as_str(),
                mount.mount_path.as_str(),
                mount.read_only,
            )
        })
        .collect();
    assert_eq!(
        seen,
        vec![
            ("state", "/var/lib/updated", false),
            ("agent-tls", "/etc/agent-tls", true),
            ("tmp", "/tmp", false),
        ]
    );

    let volumes = agent_volumes(vec![]);
    assert_eq!(volumes.len(), 2);
    assert_eq!(volumes[0].name, "tmp");
    assert!(matches!(volumes[0].source, VolumeSource::EmptyDirectory));
    assert_eq!(volumes[1].name, "agent-tls");
    assert!(matches!(&volumes[1].source, VolumeSource::Secret(name) if name == "agent-tls"));
}

#[test]
fn versioned_deployments_use_the_signed_identity_grammar() {
    let name = versioned_deployment_name("edge", "1.2.3-rc.1");
    assert_eq!(name, "edge-1.2.3-rc.1");
    assert!(name
        .chars()
        .all(|c| c.is_ascii_alphanumeric() || c == '-' || c == '.' || c == '_'));
}

#[test]
fn nodes_belong_to_the_sets_of_their_cohorts() {
    assert_eq!(e2e::layout::node_set_index("agent-0"), Some(0));
    assert_eq!(e2e::layout::node_set_index("agent-3"), Some(0));
    assert_eq!(e2e::layout::node_set_index("agent-4"), Some(1));
    assert_eq!(e2e::layout::node_set_index("agent-31"), Some(7));
    assert_eq!(e2e::layout::node_set_index("agent-32"), None);
    assert_eq!(e2e::layout::node_set_index("jenkins-ci-0"), None);
    assert_eq!(e2e::layout::cohort_group(7), "fleet-cohort-07");
    assert_eq!(e2e::layout::set_name(3), "fleet-set-03");
    assert_eq!(e2e::layout::set_service_name(3), "fleet-lb-set-03");
}

#[test]
fn pods_are_labelled_with_their_sets() {
    let assignments = e2e::entry::pod_sets();
    assert_eq!(assignments.len(), 32);
    assert_eq!(assignments[5].pod, "agent-5");
    assert_eq!(assignments[5].set, "fleet-set-01");
    assert_eq!(
        demo::entry::pod_sets().len(),
        demo::layout::DEMO_NODE_COUNT
    );
}

#[test]
fn the_totals_are_the_sums_of_the_cohorts() {
    assert_eq!(demo::layout::magnolia_total(), demo::layout::DEMO_MAGNOLIA_TOTAL);
    assert_eq!(e2e::layout::jenkins_total(), e2e::layout::JENKINS_TOTAL);
}

fn is_coherent(plan: &StatefulPlan) -> bool {
    let claimed = |name: &str| plan.claims.iter().any(|claim| claim.name == name);
    let held = |name: &str| plan.volumes.iter().any(|volume| volume.name == name);
    plan.mounts.iter().all(|mount| claimed(&mount.name) || held(&mount.name))
        && plan.claims.iter().all(|claim| plan.mounts.iter().any(|mount| mount.name == claim.name))
        && plan.probes.iter().all(|probe| plan.ports.iter().any(|port| port.name == probe.port))
}

#[test]
fn workloads_mount_what_they_hold() {
    for plan in [
        demo::workloads::magnolia_statefulset("author", "author", 2),
        demo::workloads::haproxy_statefulset(),
        e2e::workloads::jenkins_statefulset("ci", 2),
        e2e::workloads::haproxy_statefulset(),
    ] {
        assert!(is_coherent(&plan), "{} is not coherent", plan.name);
        assert_eq!(plan.claims[0].name, "state");
    }
}

#[test]
fn workloads_are_told_and_asked_what_they_should_be() {
    let magnolia = demo::workloads::magnolia_statefulset("publisher", "public", 3);
    assert_eq!((magnolia.name.as_str(), magnolia.replicas), ("magnolia-publisher", 3));
    assert_eq!(magnolia.variables[0].name, "MAGNOLIA_INSTANCE");
    assert_eq!(magnolia.variables[0].value, "public");
    assert_eq!(magnolia.labels[2].value, "publisher");
    let probes: Vec<(ProbeKind, u32, u32)> =
        magnolia.probes.iter().map(|probe| (probe.kind, probe.period, probe.failures)).collect();
    assert_eq!(
        probes,
        [
            (ProbeKind::Startup, 3, 200),
            (ProbeKind::Readiness, 1, 1),
            (ProbeKind::Liveness, 5, 6),
        ]
    );
    let jenkins = e2e::workloads::jenkins_statefulset("release", 2);
    assert_eq!(jenkins.name, "jenkins-release");
    assert!(matches!(jenkins.probes[0].ask, Ask::Answer("/login")));
    let haproxy = e2e::workloads::haproxy_statefulset();
    assert!(matches!(haproxy.probes[0].ask, Ask::Connect));
    assert_eq!(haproxy.ports[1].number, e2e::layout::HAPROXY_ADMIN_PORT);
    assert_eq!((haproxy.cpu, haproxy.memory, haproxy.memory_limit), ("50m", "64Mi", "256Mi"));
}
