use fleet_drill::naming::agent_hostname;
use fleet_drill::resources::label;
use fleet_drill::soak::catalog::{
    key_arguments, no_baseline_message, not_ready_message, plan_candidate, publisher_failure,
    validate_signing_secret, CandidateKind, EntryPoint, KeyEntry,
};
use fleet_drill::soak::fleet::{
    agent_group, agent_is_converged, check_enrollment, check_fleet, fleet_timeout_message,
    group_has_rejected, group_is_stable, rejection_timeout_message, status_observed_rejection,
    AgentReport, EnrolledAgent, Enrollment, GroupCondition, GroupStatus, StatusWords,
};
use fleet_drill::soak::plan::soak_group;
use fleet_drill::soak::resources::plan_control;
use fleet_drill::soak::state::{CampaignState, GroupVersion};

fn words() -> StatusWords {
    StatusWords {
        ready_condition: "Ready".into(),
        halted_condition: "DeploymentHalted".into(),
        condition_true: "True".into(),
        condition_false: "False".into(),
        rejected_reason: "Rejected".into(),
        regression_reason: "RegressionEvidence".into(),
    }
}

#[test]
fn rejection_evidence_accepts_the_only_two_controller_verdicts_for_current_generation() {
    let words = words();
    let condition = |condition_type: &str, status: &str, reason: &str, generation: i64| {
        GroupCondition {
            condition_type: condition_type.into(),
            status: status.into(),
            reason: reason.into(),
            observed_generation: Some(generation),
        }
    };
    for verdict in [
        condition(&words.ready_condition, &words.condition_false, &words.rejected_reason, 7),
        condition(&words.halted_condition, &words.condition_true, &words.regression_reason, 7),
    ] {
        let status = GroupStatus {
            observed_generation: Some(7),
            conditions: vec![verdict],
        };
        assert!(status_observed_rejection(&status, 7, &words));
        assert!(!status_observed_rejection(&status, 8, &words));
        assert!(!group_has_rejected(None, &Some(status), &words));
    }

    let status = GroupStatus {
        observed_generation: Some(7),
        conditions: vec![condition(
            &words.halted_condition,
            &words.condition_false,
            "NoRegression",
            7,
        )],
    };
    assert!(!status_observed_rejection(&status, 7, &words));
    assert!(!group_has_rejected(Some(7), &None, &words));
}

fn report(group: &str, version: &str, ready: bool) -> Option<AgentReport> {
    Some(AgentReport {
        group: Some(group.into()),
        version: Some(version.into()),
        ready: Some(ready),
    })
}

#[test]
fn a_soak_fleet_converges_with_its_last_agent() {
    let desired = CampaignState::fresh(1).desired;
    let mut agents: Vec<Option<AgentReport>> = (0..6)
        .map(|ordinal| report(agent_group(ordinal), "1.0.0", true))
        .collect();
    let standing = check_fleet(&agents, &desired).ok().unwrap();
    assert_eq!(standing.converged, 6);
    assert!(standing.lagging.is_empty());
    agents[1] = None;
    agents[2] = report(agent_group(2), "0.9.0", false);
    let standing = check_fleet(&agents, &desired).ok().unwrap();
    assert_eq!(standing.converged, 4);
    assert_eq!(
        standing.lagging,
        vec![
            "agent-1=missing".to_owned(),
            format!("agent-2={}/0.9.0/false", agent_group(2)),
        ]
    );
    assert_eq!(
        fleet_timeout_message(300, &standing.lagging[..1].to_vec()),
        "fleet did not converge within 300s; lagging [agent-1=missing]"
    );
    assert!(check_fleet(&agents, &Vec::new()).is_err());
    assert!(agent_is_converged(&report("g", "1.0.0", true).unwrap(), "g", "1.0.0"));
    assert!(!agent_is_converged(&report("h", "1.0.0", true).unwrap(), "g", "1.0.0"));
}

#[test]
fn a_group_that_rejects_stays_on_its_stable_version() {
    let stable = vec![GroupVersion {
        group: soak_group(0).into(),
        version: "1.0.0".into(),
    }];
    let mut agents: Vec<Option<AgentReport>> = (0..6)
        .map(|ordinal| report(agent_group(ordinal), "1.0.0", true))
        .collect();
    assert_eq!(group_is_stable(&agents, soak_group(0), &stable), Ok(true));
    agents[0] = None;
    assert_eq!(group_is_stable(&agents, agent_group(0), &stable), Ok(false));
    assert_eq!(
        group_is_stable(&agents, "elsewhere", &stable),
        Err("no stable version for elsewhere".to_owned())
    );
    assert_eq!(
        rejection_timeout_message("g", 300),
        "g did not reach the expected rejected-and-recovered state within 300s"
    );
}

#[test]
fn an_agent_is_relabelled_once() {
    assert!(matches!(check_enrollment(&None, 2), Enrollment::Awaited));
    let agent = |enrolled: bool, labels| {
        Some(EnrolledAgent { enrolled, labels })
    };
    assert!(matches!(check_enrollment(&agent(false, Vec::new()), 2), Enrollment::Awaited));
    match check_enrollment(&agent(true, vec![label("x", "y")]), 2) {
        Enrollment::Relabel(labels) => {
            assert_eq!(labels.len(), 2);
            assert!(labels.iter().any(|label| label.value == agent_hostname(2)));
            assert!(matches!(check_enrollment(&agent(true, labels), 2), Enrollment::Settled));
        }
        _ => panic!("an agent with other labels is relabelled"),
    }
}

#[test]
fn candidates_take_turns() {
    let even = plan_candidate(2, CandidateKind::Valid, "linux-x86_64", "/data");
    assert_eq!(even.version, "1000000.2.0");
    assert_eq!(even.source, "/data/soak-fixtures/1000000.2.0");
    assert_eq!(even.description, "version = \"1000000.2.0\"\n");
    assert!(matches!(even.entry_point, EntryPoint::Copied("/usr/local/bin/stateful-like")));
    let odd = plan_candidate(3, CandidateKind::Valid, "linux-x86_64", "/data");
    assert!(matches!(odd.entry_point, EntryPoint::Copied("/usr/local/bin/sampleapp")));
    let corrupt = plan_candidate(3, CandidateKind::Corrupt, "linux-x86_64", "/data");
    assert!(matches!(corrupt.entry_point, EntryPoint::Written(_)));
    assert_eq!(corrupt.arguments.last().map(String::as_str), Some("linux-x86_64=/data/soak-fixtures/1000000.3.0"));
    assert_eq!(
        publisher_failure(&odd.arguments, "boom"),
        "server publish-app failed: boom"
    );
    assert_eq!(publisher_failure(&Vec::new(), ""), "server command failed: ");
    assert_eq!(not_ready_message("/data"), "release repository is not ready at /data");
    assert_eq!(no_baseline_message("e"), "release catalog has no usable baseline: e");
    assert_eq!(key_arguments("r", "k"), vec!["init", "--repo", "r", "--keys", "k"]);
}

#[test]
fn a_signing_secret_has_exactly_its_keys() {
    let expected = vec!["root.pk8".to_owned(), "targets.pk8".to_owned()];
    let key = |name: &str, identity: Result<&str, &str>| KeyEntry {
        name: name.into(),
        identity: identity.map(String::from).map_err(String::from),
    };
    let judge = |kind: &str, keys: Option<Vec<KeyEntry>>| {
        validate_signing_secret(&Some(kind.into()), &keys, &expected)
    };
    let valid = || vec![key("root.pk8", Ok("1")), key("targets.pk8", Ok("2"))];
    assert_eq!(judge("Opaque", Some(valid())), Ok(()));
    assert_eq!(
        judge("kubernetes.io/tls", Some(valid())),
        Err("the TUF signing Secret must have type Opaque".to_owned())
    );
    assert_eq!(
        judge("Opaque", None),
        Err("the TUF signing Secret has no binary data".to_owned())
    );
    let mut extra = valid();
    extra.insert(0, key("extra.pk8", Ok("3")));
    assert_eq!(
        judge("Opaque", Some(extra)),
        Err("the TUF signing Secret has non-canonical keys: {\"extra.pk8\", \"root.pk8\", \"targets.pk8\"}".to_owned())
    );
    assert_eq!(
        judge("Opaque", Some(vec![key("root.pk8", Ok("1")), key("targets.pk8", Ok("1"))])),
        Err("the TUF signing Secret reuses one private key for multiple roles".to_owned())
    );
    assert_eq!(
        judge("Opaque", Some(vec![key("root.pk8", Err("bad")), key("targets.pk8", Ok("1"))])),
        Err("the TUF signing Secret's root.pk8 is invalid: bad".to_owned())
    );
}

#[test]
fn control_states_every_group() {
    let state = CampaignState::fresh(1);
    let planned = plan_control(&state.desired).ok().unwrap();
    assert_eq!(planned.len(), 3);
    assert_eq!(planned[0].group, soak_group(0));
    assert_eq!(
        plan_control(&Vec::new()).err(),
        Some(format!("no persisted desired version for {}", soak_group(0)))
    );
}
