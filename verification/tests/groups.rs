use fleet_drill::demo::groups as demo;
use fleet_drill::demo::haproxy::HaproxyRelease as DemoHaproxyRelease;
use fleet_drill::demo::releases::ReleaseBootstrap;
use fleet_drill::demo::documents::apply_demo_resources;
use fleet_drill::demo::resources::{
    magnolia_source, plan_cohort_groups, plan_magnolia_groups, FleetSource,
};
use fleet_drill::documents::{copy_template, labels_value, read_group, timeouts_value};
use fleet_drill::e2e::deployment::{deployment_with_name, repository};
use fleet_drill::e2e::fixture::kind_release_graph;
use fleet_drill::e2e::groups as fleet;
use fleet_drill::e2e::haproxy::{reserve_haproxy_agents, HaproxyRelease};
use fleet_drill::e2e::resources::apply_resources;
use fleet_drill::e2e::specs::{deployment_value, update_group_value, update_repository_value};
use fleet_drill::e2e::workloads::{haproxy_statefulset, jenkins_statefulset};
use fleet_drill::resources::{label, TargetReference};
use fleet_drill::soak::resources::{group as soak_group_of, group_set};
use fleet_drill::workloads::agent_set;
use serde_json::Value;

const EDGE: &str = r#"{
  "metadata": {"name": "edge", "uid": "1"},
  "spec": {"deployment": {
    "name": "edge-1.0.0",
    "releaseRepository": {
      "metadataUrl": "https://release/metadata/",
      "targetsUrl": "https://release/targets/",
      "rootJson": "{}"
    },
    "application": {
      "target": "1.0.0",
      "releases": {"1.0.0": {
        "package": {"path": "app-1.0.0.tar.zst", "sha256": "aaaa"},
        "installable": true,
        "upgradeFrom": [],
        "rollbackFrom": []
      }}
    },
    "runtime": {
      "product": "sampleapp",
      "channel": "stable",
      "installRoot": "/var/lib/updated/app",
      "repository": {
        "metadataLimit": 1048576,
        "targetLimit": 536870912,
        "transportTimeoutSeconds": 30
      },
      "storage": {
        "inactiveReleases": 2,
        "inactiveBytes": 1073741824,
        "inactiveRepositoryCaches": 2
      },
      "timeouts": {
        "checkIntervalSeconds": 15,
        "healthGraceSeconds": 30,
        "healthSuccesses": 1,
        "healthIntervalSeconds": 1,
        "refreshRetrySeconds": 5,
        "confirmationWindowSeconds": 120
      }
    }
  }}
}"#;

fn value(text: &str) -> Value {
    serde_json::from_str(text).unwrap()
}

fn template() -> Value {
    value(EDGE)["spec"]["deployment"].clone()
}

fn keys(value: &Value) -> Vec<&str> {
    let mut keys: Vec<&str> =
        value.as_object().unwrap().keys().map(|key| key.as_str()).collect();
    keys.sort();
    keys
}

fn haproxy_release() -> HaproxyRelease {
    HaproxyRelease {
        v1_path: "haproxy-1.0.0.tar.zst".into(),
        v1_sha: "d".repeat(64),
        v2_path: "haproxy-2.0.0.tar.zst".into(),
        v2_sha: "e".repeat(64),
    }
}

#[test]
fn the_haproxy_deployment_says_only_what_the_contract_can_express() {
    let root = "{\"signed\":{}}";
    let built = fleet::haproxy_group_deployment(EDGE, root, &haproxy_release()).unwrap();
    assert_eq!(keys(&built), vec!["application", "name", "releaseRepository", "runtime"]);
    assert_eq!(
        keys(&built["runtime"]),
        vec!["channel", "installRoot", "product", "repository", "storage", "timeouts"]
    );
    assert_eq!(
        keys(&built["runtime"]["timeouts"]),
        keys(&template()["runtime"]["timeouts"])
    );
    assert_eq!(keys(&built["application"]), vec!["releases", "target"]);
    assert_eq!(
        keys(&built["application"]["releases"]["1.0.0"]),
        vec!["installable", "package", "rollbackFrom", "upgradeFrom"]
    );

    assert_eq!(built["name"], "haproxy-1.0.0");
    assert_eq!(built["application"]["target"], "1.0.0");
    let release = &built["application"]["releases"]["1.0.0"];
    assert_eq!(release["package"]["path"], "haproxy-1.0.0.tar.zst");
    assert_eq!(release["package"]["sha256"], "d".repeat(64));
    assert_eq!(release["installable"], true);
    assert_eq!(release["upgradeFrom"], value("[]"));
    assert_eq!(built["releaseRepository"]["rootJson"], root);
    assert_eq!(
        built["releaseRepository"]["metadataUrl"],
        "https://minio-direct.updated-system.svc/updates/releases/metadata/"
    );
    assert_eq!(built["runtime"]["product"], "haproxy");
    assert_eq!(built["runtime"]["timeouts"]["healthGraceSeconds"], 12);
    for kept in ["channel", "installRoot", "repository", "storage"] {
        assert_eq!(built["runtime"][kept], template()["runtime"][kept]);
    }
}

#[test]
fn the_load_balancers_are_one_group_that_protects_itself() {
    let built = fleet::prepare_haproxy_tier(EDGE, "root", &haproxy_release()).unwrap();
    assert_eq!(built["apiVersion"], "updated.dev/v1alpha1");
    assert_eq!(built["kind"], "UpdateGroup");
    assert_eq!(built["metadata"]["name"], "haproxy");
    assert_eq!(built["metadata"]["namespace"], "updated-system");
    assert_eq!(
        built["metadata"]["annotations"]["e2e.updated.dev/next-path"],
        "haproxy-2.0.0.tar.zst"
    );
    assert_eq!(
        built["metadata"]["annotations"]["e2e.updated.dev/next-sha256"],
        "e".repeat(64)
    );
    assert_eq!(built["spec"]["maxUnavailable"], 1);
    assert_eq!(built["spec"]["repositoryRef"]["name"], "default");
    let deployment = fleet::haproxy_group_deployment(EDGE, "root", &haproxy_release()).unwrap();
    assert_eq!(built["spec"]["deployment"], deployment);
}

#[test]
fn a_seed_is_the_template_but_for_its_repository() {
    let built = demo::seed_deployment(EDGE, "the root").unwrap();
    let mut expected = template();
    expected["releaseRepository"] = value(
        r#"{
          "metadataUrl": "http://minio:9000/updates/releases/metadata/",
          "targetsUrl": "http://minio:9000/updates/releases/targets/",
          "rootJson": "the root"
        }"#,
    );
    assert_eq!(built, expected);
    assert_eq!(demo::seed_on(&value(EDGE), "the root"), Ok(expected));
}

#[test]
fn numbers_of_every_kind_are_kept() {
    let edge = r#"{"spec": {"deployment": {"a": -7, "b": 2.5, "c": 1e300, "d": 18446744073709551615, "e": null}}}"#;
    let built = demo::seed_deployment(edge, "root").unwrap();
    for name in ["a", "b", "c", "d", "e"] {
        assert_eq!(built[name], value(edge)["spec"]["deployment"][name]);
    }
    assert_eq!(keys(&built), vec!["a", "b", "c", "d", "e", "releaseRepository"]);
}

#[test]
fn nothing_is_replaced_where_nothing_can_be() {
    let complaint = "the group's deployment is no object";
    for edge in [
        "{\"spec\": {\"deployment\": \"text\"}}",
        "{\"spec\": {\"deployment\": [1]}}",
        "{\"spec\": {\"deployment\": 1}}",
        "{\"spec\": {\"deployment\": true}}",
    ] {
        assert_eq!(demo::seed_deployment(edge, "root"), Err(complaint.to_owned()));
        assert_eq!(
            fleet::haproxy_group_deployment(edge, "root", &haproxy_release()),
            Err(complaint.to_owned())
        );
    }
    let edge = "{\"spec\": {\"deployment\": {\"runtime\": \"text\"}}}";
    assert!(demo::seed_deployment(edge, "root").is_ok());
    assert_eq!(
        copy_template(&value(edge)),
        Err("the group's runtime is no object".to_owned())
    );
    assert_eq!(
        fleet::haproxy_group_deployment(edge, "root", &haproxy_release()),
        Err("the group's runtime is no object".to_owned())
    );
    let broken = serde_json::from_str::<Value>("{").err().map(|error| error.to_string());
    assert_eq!(demo::seed_deployment("{", "root").err(), broken);
    assert_eq!(read_group("{").err(), broken);
}

#[test]
fn what_is_not_there_yet_is_made() {
    for edge in ["{}", "[]", "{\"spec\": {\"deployment\": null}}"] {
        let built = demo::seed_deployment(edge, "root").unwrap();
        assert_eq!(keys(&built), vec!["releaseRepository"]);
        let tier = fleet::haproxy_group_deployment(edge, "root", &haproxy_release()).unwrap();
        assert_eq!(keys(&tier), vec!["application", "name", "releaseRepository", "runtime"]);
        assert_eq!(keys(&tier["runtime"]), vec!["product", "timeouts"]);
    }
}

fn source() -> FleetSource {
    FleetSource {
        bootstrap: ReleaseBootstrap {
            release_root: "root".into(),
            baseline_path: "app-22".into(),
            baseline_sha: "b".repeat(64),
            provider_sha: "c".repeat(64),
        },
        provider_path: "provider".into(),
    }
}

#[test]
fn a_cohort_keeps_what_its_plan_does_not_replace() {
    let plans = plan_cohort_groups(&source());
    let built = demo::demo_group(EDGE, &plans[3]).unwrap();
    assert_eq!(built["metadata"]["name"], plans[3].name.as_str());
    assert_eq!(
        built["metadata"]["labels"]["demo.updated.dev/set"],
        plans[3].labels[1].value.as_str()
    );
    assert_eq!(
        built["spec"]["selector"]["matchLabels"]["demo.updated.dev/cohort"],
        plans[3].selector[0].value.as_str()
    );
    let deployment = &built["spec"]["deployment"];
    assert_eq!(deployment["name"], plans[3].name.as_str());
    assert_eq!(deployment["application"]["path"], "app-22");
    assert_eq!(deployment["providerSet"]["sha256"], "c".repeat(64));
    assert_eq!(deployment["orderedInstallFallback"], true);
    assert_eq!(deployment["releaseRepository"]["rootJson"], "root");
    assert_eq!(deployment["runtime"]["timeouts"]["drainHoldSeconds"], 4);
    assert_eq!(deployment["runtime"]["timeouts"]["supervisorCheckIntervalSeconds"], 3600);
    assert!(deployment["runtime"]["timeouts"].get("retryAfterSeconds").is_none());
    for kept in ["product", "channel", "installRoot", "repository", "storage"] {
        assert_eq!(deployment["runtime"][kept], template()["runtime"][kept]);
    }
}

#[test]
fn magnolia_keeps_the_repository_of_the_template() {
    let magnolia = Some(magnolia_source("magnolia", "sha\n", "provider", " other "));
    let plans = plan_magnolia_groups(&magnolia);
    let built = demo::demo_group(EDGE, &plans[0]).unwrap();
    assert!(built["metadata"].get("labels").is_none());
    let deployment = &built["spec"]["deployment"];
    assert_eq!(deployment["releaseRepository"], template()["releaseRepository"]);
    assert_eq!(deployment["application"]["sha256"], "sha");
    assert_eq!(deployment["orderedInstallFallback"], false);
    assert_eq!(deployment["runtime"]["product"], "magnolia");
    assert_eq!(deployment["runtime"]["mode"], "managed");
    assert_eq!(deployment["runtime"]["args"], value("[]"));
    assert_eq!(deployment["runtime"]["installRoot"], "/var/lib/updated/app");
    assert_eq!(deployment["runtime"]["timeouts"]["healthGraceSeconds"], 360);
}

fn of_kind<'a>(items: &'a [Value], kind: &str) -> Vec<&'a Value> {
    items.iter().filter(|item| item["kind"] == kind).collect()
}

#[test]
fn the_demo_is_made_of_groups_sets_services_and_routes() {
    let made = apply_demo_resources(EDGE, &source(), &None).unwrap();
    let groups = of_kind(&made, "UpdateGroup");
    let cohorts = plan_cohort_groups(&source()).len();
    assert_eq!(groups.len(), cohorts + 1);
    let external = groups[cohorts];
    assert_eq!(external["metadata"]["name"], "external");
    assert!(external["metadata"].get("labels").is_none());
    assert_eq!(
        external["spec"]["deployment"]["application"],
        groups[0]["spec"]["deployment"]["application"]
    );

    let sets = of_kind(&made, "UpdateGroupSet");
    assert!(sets[0]["spec"].get("maxConcurrent").is_none());
    assert_eq!(
        sets[0]["spec"]["selector"]["matchLabels"]["demo.updated.dev/set"],
        sets[0]["metadata"]["name"]
    );
    assert!(sets[sets.len() - 1]["spec"]["maxConcurrent"].is_u64());

    let services = of_kind(&made, "Service");
    assert_eq!(services.len(), sets.len() + 1);
    assert_eq!(services[0]["spec"]["selector"]["app"], "updated-agent");
    assert_eq!(services[0]["spec"]["ports"][0]["targetPort"], "http");
    let outside = services[sets.len() - 1];
    assert!(outside["spec"].get("selector").is_none());
    assert_eq!(outside["spec"]["ports"][0]["targetPort"], 8080);
    assert_eq!(services[sets.len()]["spec"]["ports"][0]["port"], 80);

    let ingress = of_kind(&made, "Ingress");
    let paths = ingress[0]["spec"]["rules"][0]["http"]["paths"].as_array().unwrap();
    assert_eq!(paths.len(), sets.len());
    assert_eq!(paths[0]["path"], "/set-0(/|$)(.*)");
    assert_eq!(paths[0]["backend"]["service"]["name"], services[0]["metadata"]["name"]);
    assert_eq!(paths[0]["backend"]["service"]["port"]["number"], 8080);
    assert_eq!(
        ingress[0]["metadata"]["annotations"]["nginx.ingress.kubernetes.io/rewrite-target"],
        "/$2"
    );

    let roles = of_kind(&made, "Role");
    let bindings = of_kind(&made, "RoleBinding");
    assert_eq!((roles.len(), bindings.len()), (2, 2));
    assert_eq!(
        roles[1]["rules"],
        value(
            "[{\"apiGroups\": [\"discovery.k8s.io\"], \"resources\": [\"endpointslices\"], \"verbs\": [\"get\", \"list\", \"watch\", \"create\", \"update\", \"patch\"]}]"
        )
    );
    assert_eq!(bindings[0]["roleRef"]["name"], "updatec-demo");
    assert_eq!(bindings[0]["subjects"][0]["name"], "updatec-demo");
    assert_eq!(of_kind(&made, "ServiceAccount").len(), 2);

    let console = of_kind(&made, "Deployment")[0];
    let container = &console["spec"]["template"]["spec"]["containers"][0];
    assert_eq!(container["image"], "updatec-e2e:kind");
    assert_eq!(container["env"][0]["name"], "DEMO_PROVIDER_PATH");
    assert_eq!(container["env"][0]["value"], "provider");
    assert_eq!(container["env"][1]["value"], "c".repeat(64));
    assert_eq!(console["spec"]["selector"]["matchLabels"]["app"], "updatec-demo");

    let magnolia = Some(magnolia_source("magnolia", "sha", "provider", "other"));
    let more = apply_demo_resources(EDGE, &source(), &magnolia).unwrap();
    assert_eq!(more.len(), made.len() + 3);
    assert_eq!(of_kind(&more, "UpdateGroup")[0], groups[0]);
    let broken = "{\"spec\": {\"deployment\": {\"runtime\": 1}}}";
    assert_eq!(
        apply_demo_resources(broken, &source(), &None).err().as_deref(),
        Some("the group's runtime is no object")
    );
}

#[test]
fn the_demos_load_balancers_are_installed_on_their_own() {
    let release = DemoHaproxyRelease {
        provider_path: "provider".into(),
        provider_sha: "p".into(),
        v1_path: "one".into(),
        v1_sha: "1".into(),
        v2_path: "two".into(),
        v2_sha: "2".into(),
    };
    let built = demo::prepare_haproxy_tier(EDGE, "root", &release).unwrap();
    assert_eq!(built["metadata"]["annotations"]["demo.updated.dev/next-path"], "two");
    assert_eq!(built["spec"]["maxUnavailable"], 1);
    let deployment = &built["spec"]["deployment"];
    assert_eq!(
        *deployment,
        demo::haproxy_group_deployment(EDGE, "root", &release).unwrap()
    );
    assert_eq!(deployment["name"], "haproxy@1.0.0");
    assert_eq!(deployment["runtime"]["installRoot"], "/var/lib/updated/haproxy");
    assert_eq!(deployment["runtime"]["timeouts"]["retryAfterSeconds"], 2);
    assert_eq!(deployment["runtime"]["storage"], template()["runtime"]["storage"]);
}

#[test]
fn the_fleet_is_made_of_groups_sets_and_services() {
    let digests = ["a".repeat(64), "b".repeat(64), "c".repeat(64)];
    let bootstrap =
        kind_release_graph("linux-x86_64", "2.0.0", &digests[0], &digests[1], &digests[2]);
    let made = apply_resources(
        EDGE,
        &bootstrap,
        TargetReference {
            path: "products/app/baseline".into(),
            sha256: "d".repeat(64),
        },
        "root",
        "products/jenkins",
        &format!("{}\n", "e".repeat(64)),
    )
    .unwrap();
    assert_eq!(made.baseline.target_sha(), Some("d".repeat(64)));
    let sets = of_kind(&made.items, "UpdateGroupSet");
    assert_eq!(sets.len(), 9);
    for set in &sets {
        assert_eq!(set["spec"]["repositoryRef"]["name"], "default");
        assert_eq!(set["spec"]["onRegression"], "halt");
        assert_eq!(set["metadata"]["namespace"], "updated-system");
    }
    assert_eq!(of_kind(&made.items, "Service").len(), 9);
    let groups = of_kind(&made.items, "UpdateGroup");
    let find = |name: &str| {
        *groups
            .iter()
            .find(|group| group["metadata"]["name"] == name)
            .unwrap()
    };
    let cohort = find("fleet-cohort-15");
    let deployment = &cohort["spec"]["deployment"];
    assert_eq!(deployment["application"], fleet::graph_value(&made.baseline));
    assert_eq!(
        deployment["application"]["releases"]["22.0.0"]["upgradeFrom"],
        value("[\"1.0.0\", \"2.0.0\", \"3.0.0\"]")
    );
    assert_eq!(deployment["application"]["releases"]["2.0.0"]["installable"], false);
    assert_eq!(deployment["releaseRepository"]["rootJson"], "root");
    assert_eq!(deployment["runtime"]["product"], "sampleapp");
    let jenkins = &find("jenkins-ci")["spec"]["deployment"];
    assert_eq!(jenkins["application"]["target"], "1.0.0");
    let release = &jenkins["application"]["releases"]["1.0.0"];
    assert_eq!(keys(release), vec!["installable", "package"]);
    assert_eq!(release["package"]["sha256"], "e".repeat(64));
    assert_eq!(release["installable"], true);
    assert_eq!(jenkins["runtime"]["product"], "jenkins");
    assert_eq!(jenkins["releaseRepository"], template()["releaseRepository"]);
    assert_eq!(jenkins["runtime"]["installRoot"], "/var/lib/updated/app");
    let external = groups[groups.len() - 1];
    assert_eq!(external["metadata"]["name"], "external");
    assert!(external["metadata"].get("labels").is_none());
    let guarded = fleet::set_value(&group_set());
    assert_eq!(guarded["spec"]["onRegression"], "rollback");
    assert_eq!(guarded["spec"]["maxRegressions"], 1);
    assert_eq!(guarded["spec"]["stuckAfterSeconds"], 300);
    assert_eq!(guarded["spec"]["repositoryRef"]["name"], "default");

    assert_eq!(
        fleet::template_application(EDGE).unwrap(),
        template()["application"]
    );
    let broken = "{\"spec\": {\"deployment\": 1}}";
    let refused = apply_resources(
        broken,
        &bootstrap,
        TargetReference { path: "p".into(), sha256: "s".into() },
        "root",
        "j",
        "s",
    );
    assert_eq!(refused.err().as_deref(), Some("the group's deployment is no object"));
}

#[test]
fn parts_of_documents_are_written() {
    let labels = vec![label("a", "1"), label("b", "2"), label("a", "3")];
    assert_eq!(labels_value(&labels), value("{\"a\": \"3\", \"b\": \"2\"}"));
    assert_eq!(labels_value(&Vec::new()), value("{}"));
    let plans = plan_cohort_groups(&source());
    assert_eq!(
        timeouts_value(&plans[0].timeouts),
        value(
            r#"{
              "checkIntervalSeconds": 1,
              "healthGraceSeconds": 8,
              "healthSuccesses": 1,
              "healthIntervalSeconds": 1,
              "refreshRetrySeconds": 1,
              "confirmationWindowSeconds": 3,
              "supervisorCheckIntervalSeconds": 3600,
              "drainHoldSeconds": 4
            }"#
        )
    );
}

#[test]
fn agent_sets_are_confined_and_keep_their_volumes() {
    let built = agent_set(&jenkins_statefulset("ci", 2));
    assert_eq!(built["kind"], "StatefulSet");
    assert_eq!(built["metadata"]["name"], "jenkins-ci");
    assert_eq!(built["spec"]["replicas"], 2);
    assert_eq!(built["spec"]["podManagementPolicy"], "Parallel");
    assert_eq!(
        built["spec"]["selector"]["matchLabels"],
        built["spec"]["template"]["metadata"]["labels"]
    );
    let pod = &built["spec"]["template"]["spec"];
    assert_eq!(
        pod["securityContext"],
        value("{\"fsGroup\": 65532, \"seccompProfile\": {\"type\": \"RuntimeDefault\"}}")
    );
    let container = &pod["containers"][0];
    assert_eq!(
        container["securityContext"],
        value(
            "{\"allowPrivilegeEscalation\": false, \"capabilities\": {\"drop\": [\"ALL\"]}, \"runAsNonRoot\": true, \"runAsUser\": 65532}"
        )
    );
    assert_eq!(container["command"], value("[\"/usr/local/bin/run-agent\"]"));
    assert_eq!(
        container["env"][0],
        value("{\"name\": \"JENKINS_DATA\", \"value\": \"/var/lib/jenkins\"}")
    );
    assert_eq!(
        container["readinessProbe"],
        value(
            "{\"httpGet\": {\"path\": \"/login\", \"port\": \"http\"}, \"periodSeconds\": 3, \"failureThreshold\": 200}"
        )
    );
    assert_eq!(
        container["volumeMounts"][3],
        value("{\"name\": \"agent-tls\", \"mountPath\": \"/etc/agent-tls\", \"readOnly\": true}")
    );
    assert_eq!(
        pod["volumes"],
        value(
            "[{\"name\": \"tmp\", \"emptyDir\": {}}, {\"name\": \"agent-tls\", \"secret\": {\"secretName\": \"agent-tls\"}}]"
        )
    );
    assert_eq!(
        built["spec"]["volumeClaimTemplates"][1],
        value(
            "{\"metadata\": {\"name\": \"jenkins-data\"}, \"spec\": {\"accessModes\": [\"ReadWriteOnce\"], \"resources\": {\"requests\": {\"storage\": \"2Gi\"}}}}"
        )
    );
    let front = agent_set(&haproxy_statefulset());
    let container = &front["spec"]["template"]["spec"]["containers"][0];
    assert!(container.get("env").is_none());
    assert_eq!(container["readinessProbe"]["tcpSocket"]["port"], "http");
    assert_eq!(
        container["resources"],
        value("{\"requests\": {\"cpu\": \"50m\", \"memory\": \"64Mi\"}, \"limits\": {\"memory\": \"256Mi\"}}")
    );
}

#[test]
fn agents_are_reserved_with_their_labels() {
    let agents = reserve_haproxy_agents();
    let built = fleet::reserved_agent(&agents[1]);
    assert_eq!(built["kind"], "UpdateAgent");
    assert_eq!(built["metadata"]["name"], agents[1].resource.as_str());
    assert_eq!(built["spec"]["identity"]["kind"], "reserved");
    assert_eq!(built["spec"]["repositoryRef"]["name"], "default");
    assert_eq!(built["spec"]["labels"]["e2e.updated.dev/cohort"], "haproxy");
}

#[test]
fn backends_program_the_agents_outside_the_sets() {
    let front = fleet::haproxy_backend();
    assert_eq!(front["kind"], "UpdateBackend");
    assert_eq!(front["spec"]["target"]["kind"], "haProxy");
    assert_eq!(front["spec"]["target"]["backend"], "fleet");
    assert_eq!(front["spec"]["target"]["endpoints"].as_array().unwrap().len(), 2);
    let slice = fleet::external_backend();
    assert_eq!(
        slice["spec"]["selector"]["matchLabels"]["e2e.updated.dev/cohort"],
        "external"
    );
    assert_eq!(slice["spec"]["target"]["port"], 8080);
    assert_eq!(slice["spec"]["healthBase"], front["spec"]["healthBase"]);
}

#[test]
fn fixtures_are_written_with_the_shared_runtime() {
    let deployment = deployment_with_name("edge", "edge", "2.0.0", "linux-x86_64", "a", "{}");
    let other = deployment_with_name("batch", "batch", "3.0.0", "linux-x86_64", "c", "{}");
    let written = deployment_value(&deployment);
    assert_eq!(written["runtime"], deployment_value(&other)["runtime"]);
    assert_eq!(written["runtime"]["repository"]["targetLimit"], 536870912);
    assert_eq!(written["releaseRepository"]["metadataUrl"], "https://release-edge/metadata/");
    assert_eq!(
        written["application"]["releases"]["2.0.0"]["package"]["path"],
        "products/app/stable/2.0.0/linux-x86_64/app"
    );

    let group = update_group_value(&soak_group_of("soak-0", other));
    assert_eq!(group["spec"]["maxUnavailable"], 1);
    assert_eq!(group["spec"]["dependsOn"], value("[]"));
    assert_eq!(group["spec"]["inputs"], value("{}"));
    assert_eq!(group["spec"]["emergencyCorrection"], false);

    let whole = update_repository_value(&repository(deployment));
    assert_eq!(whole["kind"], "UpdateRepository");
    assert_eq!(
        whole["spec"]["enrollment"],
        value("{\"mode\": \"open\", \"labels\": {}}")
    );
    assert_eq!(whole["spec"]["stateMaxShards"], 8);
    assert_eq!(whole["spec"]["defaultDeployment"], written);
    assert_eq!(whole["spec"]["s3"]["credentialsSecretRef"]["name"], "s3-credentials");
}
