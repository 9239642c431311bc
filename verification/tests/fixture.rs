use fleet_drill::e2e::deployment::{
    deployment_with_name, group_set_resource, kind_arguments, kind_resources, repository,
    DeploymentSpec, EnrollmentMode, RegressionResponse,
};
use fleet_drill::e2e::fixture::{fleet_baseline_graph, kind_release_graph};
use fleet_drill::e2e::layout::{
    BASELINE_VERSION, RELEASE_BUCKET, RELEASE_ENDPOINT, RELEASE_PUBLIC_ENDPOINT,
};
use fleet_drill::resources::{label, TargetReference};
use fleet_drill::soak::fleet::{SOAK_FLEET_LABEL, SOAK_FLEET_VALUE};
use fleet_drill::soak::plan::soak_group;
use fleet_drill::soak::resources::{deployment, group, group_set};

#[test]
fn kind_cohorts_upgrade_from_bootstrap_without_inventing_reverse_support() {
    let digests = ["a".repeat(64), "b".repeat(64), "c".repeat(64)];
    for target in ["1.0.0", "2.0.0", "3.0.0"] {
        let graph =
            kind_release_graph("linux-x86_64", target, &digests[0], &digests[1], &digests[2]);
        assert!(graph.check_source("1.0.0", &digests[0]));
        assert!(graph.leads_from(Some("1.0.0")));
        assert!(graph.leads_from(None));
        for source in ["2.0.0", "3.0.0"] {
            assert_eq!(graph.leads_from(Some(source)), source == target);
        }
    }
}

#[test]
fn fleet_repository_move_preserves_sources_without_requiring_old_objects() {
    let digests = ["a".repeat(64), "b".repeat(64), "c".repeat(64)];
    let bootstrap =
        kind_release_graph("linux-x86_64", "2.0.0", &digests[0], &digests[1], &digests[2]);
    let graph = fleet_baseline_graph(
        &bootstrap,
        TargetReference {
            path: "products/app/baseline".into(),
            sha256: "d".repeat(64),
        },
    );
    assert_eq!(graph.target, BASELINE_VERSION);
    for (source, sha) in ["1.0.0", "2.0.0", "3.0.0"].into_iter().zip(digests) {
        assert!(graph.check_source(source, &sha));
        assert!(graph.leads_from(Some(source)));
    }
    assert!(graph.leads_from(None));
    let installable: Vec<&str> = graph
        .releases
        .iter()
        .filter(|release| release.installable)
        .map(|release| release.version.as_str())
        .collect();
    assert_eq!(installable, vec![BASELINE_VERSION]);
    assert_eq!(graph.target_sha(), Some("d".repeat(64)));
}

fn bounds(deployment: &DeploymentSpec) -> (String, String, String, String) {
    (
        deployment.runtime.product.to_owned(),
        deployment.runtime.channel.to_owned(),
        deployment.runtime.install_root.to_owned(),
        format!("{:?}", deployment.runtime.limits),
    )
}

#[test]
fn runtime_bounds_are_shared_by_every_fixture_deployment() {
    let left = deployment_with_name("left", "left", "1.0.0", "linux-x86_64", "a", "{}");
    let right = deployment_with_name("right", "right", "2.0.0", "linux-x86_64", "c", "{}");
    assert_eq!(bounds(&left), bounds(&right));
    assert_eq!(left.runtime.limits.target_limit, 536_870_912);
}

#[test]
fn soak_groups_share_one_safe_regression_boundary() {
    let set = group_set();
    assert_eq!(set.max_concurrent, Some(2));
    assert_eq!(set.max_regressions, Some(1));
    assert_eq!(set.on_regression, RegressionResponse::Rollback);
    for index in 0..3 {
        let name = soak_group(index);
        let deployment = deployment(name, "1.0.0", "linux-x86_64", "a", "{}");
        let group = group(name, deployment);
        let value = group
            .labels
            .iter()
            .find(|label| label.key == SOAK_FLEET_LABEL)
            .map(|label| label.value.as_str());
        assert_eq!(value, Some(SOAK_FLEET_VALUE));
    }
}

#[test]
fn kind_and_soak_share_bytes_but_keep_their_required_identities() {
    let kind = deployment_with_name("edge", "edge", "2.0.0", "linux-x86_64", "a", "{}");
    let soak = deployment("edge", "2.0.0", "linux-x86_64", "a", "{}");
    assert_eq!(kind.name, "edge");
    assert_eq!(soak.name, "edge-2.0.0");
    let application = |spec: &DeploymentSpec| {
        (
            spec.application.target.clone(),
            spec.application
                .releases
                .iter()
                .map(|release| {
                    (
                        release.version.clone(),
                        release.package.path.clone(),
                        release.package.sha256.clone(),
                        release.installable,
                        release.upgrade_from.clone(),
                        release.rollback_from.clone(),
                    )
                })
                .collect::<Vec<_>>(),
        )
    };
    assert_eq!(application(&kind), application(&soak));
    assert_eq!(bounds(&kind), bounds(&soak));
    assert_eq!(
        (&kind.metadata_url, &kind.targets_url, &kind.root_json),
        (&soak.metadata_url, &soak.targets_url, &soak.root_json)
    );
    assert_eq!(kind.metadata_url, "https://release-edge/metadata/");

    let repository = repository(kind);
    assert_eq!(repository.bucket, RELEASE_BUCKET);
    assert_eq!(repository.endpoint, RELEASE_ENDPOINT);
    assert_eq!(repository.public_endpoint, RELEASE_PUBLIC_ENDPOINT);
    assert_eq!(repository.state_max_shards, 8);
    assert_eq!(repository.enrollment.mode, EnrollmentMode::Open);
    assert!(repository.enrollment.labels.is_empty());
}

#[test]
fn every_set_belongs_to_the_repository() {
    let set = group_set_resource("set-0", vec![label("e2e.updated.dev/set", "set-0")], Some(3));
    assert_eq!((set.name.as_str(), set.max_concurrent), ("set-0", Some(3)));
    assert_eq!((set.repository, set.namespace), ("default", "updated-system"));
    assert_eq!(set.on_regression, RegressionResponse::Halt);
    assert_eq!((set.max_regressions, set.stuck_after_seconds), (None, None));
    let soak = group_set();
    assert_eq!((soak.repository, soak.namespace), ("default", "updated-system"));
    assert_eq!(soak.stuck_after_seconds, Some(300));
}

fn texts(items: &[&str]) -> Vec<String> {
    items.iter().map(|item| item.to_string()).collect()
}

#[test]
fn the_small_fleet_needs_its_arguments_in_order() {
    let given = ["linux-x86_64", "a", "b", "c", "root.json", "overlap", "more"];
    let expected = [
        "resources needs a platform",
        "resources needs the v1 sha256",
        "resources needs the v2 sha256",
        "resources needs the v3 sha256",
        "resources needs a root.json path",
    ];
    for (count, message) in expected.iter().enumerate() {
        assert_eq!(
            kind_arguments(&texts(&given[..count])).err().as_deref(),
            Some(*message)
        );
    }
    assert_eq!(
        kind_arguments(&texts(&given)).err().as_deref(),
        Some("resources received unexpected arguments")
    );
}

#[test]
fn the_small_fleet_has_two_groups_and_a_repository() {
    let given = texts(&["linux-x86_64", "a", "b", "c", "root.json"]);
    let arguments = match kind_arguments(&given) {
        Ok(arguments) => arguments,
        Err(message) => panic!("{message}"),
    };
    let resources = match kind_resources(&arguments, "{}") {
        Ok(resources) => resources,
        Err(message) => panic!("{message}"),
    };
    let names: Vec<&str> = resources.groups.iter().map(|group| group.name.as_str()).collect();
    assert_eq!(names, vec!["edge", "batch"]);
    assert_eq!(resources.groups[0].deployment.application.target_sha().as_deref(), Some("b"));
    assert_eq!(resources.groups[1].deployment.application.target_sha().as_deref(), Some("c"));
    let whole = resources.repository.as_ref().unwrap();
    for deployment in resources.groups.iter().map(|group| &group.deployment) {
        assert_eq!(bounds(deployment), bounds(&whole.default_deployment));
        assert_eq!(deployment.runtime.product, "app");
        assert_eq!(deployment.runtime.install_root, "/var/lib/updated");
    }
    assert!(resources.groups.iter().all(|group| group.depends_on.is_empty()
        && group.inputs.is_empty()
        && !group.emergency_correction));

    let mut overlapping = given.clone();
    overlapping.push("overlap".into());
    let overlap = kind_resources(&kind_arguments(&overlapping).ok().unwrap(), "{}").ok().unwrap();
    assert_eq!(overlap.groups[0].name, "overlapping-edge");
    assert!(overlap.repository.is_none());

    let mut wrong = given;
    wrong.push("sideways".into());
    assert_eq!(
        kind_resources(&kind_arguments(&wrong).ok().unwrap(), "{}").err().as_deref(),
        Some("unknown resources mode \"sideways\"")
    );
}
