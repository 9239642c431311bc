use fleet_drill::e2e::chaos::{
    all_groups, chaos_majors, convergence_timeout_message, list_cohorts, list_groups,
    write_convergence_notice, Generation, Role,
};
use fleet_drill::e2e::controls::{
    address_in, all_hold, closed_window, deploy_failure, deploy_release, has_left, inputs_carry, is_back,
    is_quarantined, is_released, judge_bench, lists_emergency, moved_in_quarantine,
    moved_while_closed, reports_version, scenario_cohort, settled_around, signal_agent,
    silent_node_passed, BenchEvidence, RollbackEvidence, RollbackStep, IMPOSSIBLE_DIGEST,
};
use fleet_drill::e2e::disruption::draw_victims;
use fleet_drill::e2e::enrollment::{
    assert_jenkins_installed, label_cohort_agents, label_external_agents, reserve_jenkins_agents,
};
use fleet_drill::e2e::entry::{read_entry, scenario_versions, Entry};
use fleet_drill::e2e::fleet::{
    condition_field, count_cohorts, halted_deployments, is_cohort_member, node_converged,
    pod_ip_by_app, rejected_release, FleetLook, FleetNode, FleetWait,
};
use fleet_drill::e2e::releases::{published_reference, read_publication};
use fleet_drill::e2e::scenarios::{Act, Goal, Hold, Scenario, Step};
use fleet_drill::identity::agent_resource_name;
use fleet_drill::resources::TargetReference;

fn node(ordinal: usize, version: &str, healthy: bool) -> FleetNode {
    FleetNode {
        node: format!("agent-{ordinal}"),
        selected_group: Some(format!("fleet-cohort-{:02}", ordinal / 2)),
        version: Some(version.into()),
        healthy,
    }
}

#[test]
fn only_the_cohorts_are_counted() {
    let mut nodes = fleet("25.0.0");
    for group in [None, Some("external"), Some("haproxy"), Some("jenkins-ci"), Some("fleet-set-00")] {
        let mut other = node(40, "1.0.0", false);
        other.selected_group = group.map(String::from);
        assert!(!is_cohort_member(&other), "{group:?}");
        nodes.insert(3, other);
    }
    assert!(count_cohorts(&nodes, "25.0.0").is_whole());
    nodes.reverse();
    assert!(count_cohorts(&nodes, "25.0.0").is_whole());
}

fn fleet(version: &str) -> Vec<FleetNode> {
    (0..32).map(|ordinal| node(ordinal, version, true)).collect()
}

#[test]
fn a_fleet_converges_with_its_last_node() {
    assert!(node_converged(&node(3, "22.0.0", true), "22.0.0"));
    assert!(!node_converged(&node(3, "22.0.0", false), "22.0.0"));
    assert!(!node_converged(&node(3, "21.0.0", true), "22.0.0"));

    let mut wait = FleetWait::new("22.0.0", 3);
    assert!(matches!(wait.look(Err("refused".into())), FleetLook::Again(None)));
    let mut behind = fleet("22.0.0");
    behind[31].version = Some("21.0.0".into());
    let count = count_cohorts(&behind, "22.0.0");
    assert_eq!((count.members, count.converged), (32, 31));
    assert!(matches!(wait.look(Ok(behind)), FleetLook::Again(_)));
    assert!(matches!(wait.look(Ok(fleet("22.0.0"))), FleetLook::Converged));

    let mut wait = FleetWait::new("22.0.0", 1);
    match wait.look(Ok(Vec::new())) {
        FleetLook::Again(Some(notice)) => {
            assert_eq!(notice, "waiting for fleet convergence (0/32 exact)")
        }
        _ => panic!("an empty fleet has not converged"),
    }
    assert!(wait.is_over());
}

#[test]
fn a_generation_settles_when_the_valid_advance_and_the_broken_are_held() {
    assert_eq!(list_cohorts(Role::Broken), vec![0, 4, 8, 12]);
    assert_eq!(list_cohorts(Role::Queued), vec![1, 5, 9, 13]);
    assert_eq!(list_cohorts(Role::Valid).len(), 12);
    assert_eq!(list_cohorts(Role::Leading).len(), 8);
    assert_eq!(all_groups().len(), 16);

    let mut generation = Generation::new(23, 24);
    let broken = list_groups(Role::Broken);
    let mut nodes = fleet("24.0.0");
    for cohort in list_cohorts(Role::Broken) {
        for member in 0..2 {
            nodes[cohort * 2 + member].version = Some("22.0.0".into());
        }
    }
    let look = generation.look(&nodes, &Vec::new(), 1);
    assert!(!look.settled);
    assert_eq!(look.advanced.len(), 12);
    assert!(look.contained.is_empty());
    let look = generation.look(&nodes, &broken, 16);
    assert!(look.settled);
    assert_eq!(look.contained, broken);
}

#[test]
fn a_generation_says_what_is_wedged() {
    let mut generation = Generation::new(23, 24);
    let look = generation.look(&fleet("22.0.0"), &Vec::new(), 15);
    assert_eq!(
        look.notice.as_deref(),
        Some("0/16 cohorts settled (0 rolled back, 0 advanced), 15s elapsed")
    );
    assert!(generation.timeout_message().contains(
        "4 of the cohorts queued behind a rejecting sibling never advanced [\"fleet-cohort-01\", \"fleet-cohort-05\", \"fleet-cohort-09\", \"fleet-cohort-13\"]"
    ));
}

#[test]
fn generations_follow_the_baseline() {
    let majors = chaos_majors("22.0.0").ok().unwrap();
    assert_eq!((majors.bad, majors.good, majors.converge), (23, 24, 25));
    assert!(chaos_majors("latest").is_err());
    assert!(scenario_versions("22.0.0").is_ok());
    assert!(scenario_versions("x").is_err());
    assert_eq!(write_convergence_notice(1, 3, "24.0.0", false), None);
    assert_eq!(
        write_convergence_notice(15, 3, "24.0.0", true).as_deref(),
        Some("convergence: 3/32 agents on 24.0.0 (frozen — clock paused)")
    );
    assert_eq!(
        convergence_timeout_message("24.0.0"),
        "fleet did not converge onto 24.0.0 within 900 seconds"
    );
}

#[test]
fn victims_are_whole_cohorts_that_roll() {
    let rolling = vec!["fleet-cohort-00".to_owned(), "fleet-cohort-05".to_owned()];
    let victims = draw_victims(&rolling, 7);
    assert!(victims
        .iter()
        .all(|pod| ["agent-0", "agent-1", "agent-10", "agent-11"].contains(&pod.as_str())));
    assert_eq!(victims.len() % 2, 0);
    assert!(draw_victims(&Vec::new(), 7).is_empty());
    assert_eq!(draw_victims(&rolling, 7), victims);
}

#[test]
fn a_cohort_has_its_members() {
    let cohort = scenario_cohort(3);
    assert_eq!(cohort.group, "fleet-cohort-03");
    assert_eq!(cohort.set, "fleet-set-01");
    assert_eq!(cohort.members[1].pod, "agent-7");
    assert_eq!(cohort.members[1].resource, agent_resource_name(7));
}

#[test]
fn deploying_needs_a_group() {
    let provider = TargetReference {
        path: "providers/p".into(),
        sha256: "a".repeat(64),
    };
    assert_eq!(
        deploy_release(&Vec::new(), "23.0.0", false, "linux-x86_64", &provider)
            .err()
            .as_deref(),
        Some("a deploy needs at least one group")
    );
    let groups = vec!["fleet-cohort-00".to_owned()];
    let plan = deploy_release(&groups, "23.0.0", true, "linux-x86_64", &provider)
        .ok()
        .unwrap();
    assert_eq!(plan.identities, vec!["fleet-cohort-00-23.0.0"]);
    assert!(plan.script.contains("intentionally corrupt entrypoint"));
    assert!(plan.script.contains("fleet-cohort-00"));
    assert!(plan.script.ends_with(&format!(
        " --source /tmp/gen --provider-set-path providers/p --provider-set-sha256 {}",
        "a".repeat(64)
    )));
    assert_eq!(deploy_failure("23.0.0"), "updatectl deploy failed for 23.0.0");
}

#[test]
fn a_benched_node_stays_where_it_is() {
    let evidence = |moved: bool, held: &str, cordoned: bool| BenchEvidence {
        moved,
        held_agents: held.into(),
        cordoned,
        held: true,
    };
    let judge =
        |evidence: BenchEvidence| judge_bench(&evidence, "agent-1", "r", "g", "23.0.0").err();
    assert_eq!(judge(evidence(false, " 1\n", true)), None);
    assert_eq!(
        judge(evidence(true, "1", true)).as_deref(),
        Some("agent-1 was held, so it must NOT have been moved to 23.0.0")
    );
    assert_eq!(
        judge(evidence(false, "", true)).as_deref(),
        Some("g.status.heldAgents reads \"\"; a forgotten hold must be a visible count, not a mystery")
    );
    assert_eq!(
        judge(evidence(false, "1", false)).as_deref(),
        Some("r's own status does not carry its hold and cordon")
    );
    assert!(settled_around(true, &Some("True".into()), "True"));
    assert!(!settled_around(true, &None, "True"));
    assert!(!settled_around(false, &Some("True".into()), "True"));
}

#[test]
fn addresses_and_reports_are_read() {
    assert_eq!(address_in("agent-1", " 10.0.0.1\n", "x"), Ok("10.0.0.1".to_owned()));
    assert_eq!(
        address_in("agent-1", "\n", "leave rotation"),
        Err("agent-1 has no address to leave rotation".to_owned())
    );
    let addresses = vec!["10.0.0.1".to_owned()];
    assert!(is_back(&vec![true, true], &addresses, "10.0.0.1"));
    assert!(!is_back(&vec![true, false], &addresses, "10.0.0.1"));
    assert!(!is_back(&vec![true], &addresses, "10.0.0.2"));
    assert!(reports_version(&Some("23.0.0 true\n".into()), "23.0.0"));
    assert!(!reports_version(&Some("23.0.0 false".into()), "23.0.0"));
    assert!(!reports_version(&None, "23.0.0"));
    assert!(pod_ip_by_app("alert-sink", "").is_err());
    assert_eq!(pod_ip_by_app("alert-sink", "10.1.1.1"), Ok("10.1.1.1".to_owned()));
    assert_eq!(condition_field(&None), None);
    assert_eq!(halted_deployments(&Some("a b\n".into())), vec!["a", "b"]);
    assert!(halted_deployments(&None).is_empty());
    assert!(rejected_release(&Some("x\nkey:rejected-1:more\n".into()), &Some("rejected-1".into())));
    assert!(!rejected_release(&None, &Some("rejected-1".into())));
    assert!(!rejected_release(&Some("x".into()), &None));
}

#[test]
fn the_rollback_scenario_goes_through_its_steps() {
    let mut step = RollbackStep::AllowRollback;
    let mut steps = 0;
    while step != RollbackStep::Done {
        step = step.next();
        steps += 1;
    }
    assert_eq!(steps, 10);
    let evidence = RollbackEvidence {
        on_predecessor: vec![true, true],
        on_fixed: vec![true, false],
        rejecting: vec![false, true],
        halted: vec!["g-23.0.0".into()],
        rolled_back: true,
    };
    assert!(RollbackStep::AwaitContained.is_met(&evidence, "g-23.0.0"));
    assert!(RollbackStep::AwaitAnswered.is_met(&evidence, "g-23.0.0"));
    assert!(RollbackStep::AwaitRemembered.is_met(&evidence, "g-23.0.0"));
    assert!(!RollbackStep::AwaitConverged.is_met(&evidence, "g-23.0.0"));
    assert!(!RollbackStep::AwaitCleared.is_met(&evidence, "g-23.0.0"));
    assert!(RollbackStep::AwaitCleared.is_met(&evidence, "g-24.0.0"));
    assert_eq!(RollbackStep::AwaitContained.wait().map(|wait| wait.seconds), Some(240));
    assert!(RollbackStep::DeployFixed.wait().is_none());
}

#[test]
fn a_closed_window_opens_six_hours_later() {
    let window = closed_window(0);
    assert_eq!((window.start.as_str(), window.end.as_str()), ("06:00", "06:01"));
    let window = closed_window(1079);
    assert_eq!((window.start.as_str(), window.end.as_str()), ("23:59", "00:00"));
    assert!(lists_emergency(&vec!["g".into()], "g"));
    assert!(!lists_emergency(&Vec::new(), "g"));
    assert_eq!(
        moved_while_closed("g", "22.0.0"),
        "g moved off 22.0.0 while its set's schedule was closed"
    );
}

#[test]
fn quarantine_is_told_by_its_reason() {
    assert!(is_quarantined(&Some("InvalidDeployment".into())));
    assert!(!is_quarantined(&None));
    assert!(is_released(&Some("Ready".into())));
    assert!(!is_released(&Some("InvalidDeployment".into())));
    assert!(!is_released(&None));
    assert_eq!(IMPOSSIBLE_DIGEST.len(), 64);
    assert_eq!(
        moved_in_quarantine("agent-1", "22.0.0"),
        "agent-1 left 22.0.0 while its group was quarantined — an ungated swap"
    );
    assert!(silent_node_passed("agent-1", "23.0.0").starts_with("agent-1 was moved to 23.0.0"));
    assert!(signal_agent("STOP").contains("STOP"));
}

#[test]
fn inputs_are_carried_byte_for_byte() {
    let value = b"token".to_vec();
    assert!(inputs_carry(
        &vec![vec![b"x".to_vec(), value.clone()], vec![value.clone()]],
        &value
    ));
    assert!(!inputs_carry(&vec![vec![value.clone()], vec![b"tokens".to_vec()]], &value));
    assert!(inputs_carry(&Vec::new(), &value));
}

#[test]
fn a_publication_names_its_release() {
    let sha = "0".repeat(64);
    let output = format!("{{\"target\":\"products/app/x\",\"sha256\":\"{sha}\"}}");
    let read = |output: &str| read_publication(output).map(|found| (found.path, found.sha256));
    assert_eq!(read(&output), Ok(("products/app/x".to_owned(), sha.clone())));
    assert_eq!(
        read("{"),
        Err("EOF while parsing an object at line 1 column 1".to_owned())
    );
    assert_eq!(read("{}"), Err("publication has no target".to_owned()));
    assert_eq!(
        read("{\"target\":\"a\"}"),
        Err("publication has no digest".to_owned())
    );
    let judge = |confined: bool, canonical: bool| {
        published_reference(read_publication(&output).unwrap_or_else(|_| unreachable!()), confined, canonical)
    };
    assert_eq!(judge(true, true), Ok(("products/app/x".to_owned(), sha.clone())));
    for (confined, canonical) in [(true, false), (false, true), (false, false)] {
        assert_eq!(
            judge(confined, canonical),
            Err("invalid publication reference".to_owned())
        );
    }
}

#[test]
fn nodes_are_labelled_for_their_cohorts() {
    let patches = label_cohort_agents();
    assert_eq!(patches.len(), 32);
    assert_eq!(patches[9].resource, agent_resource_name(9));
    assert!(patches[9]
        .changes
        .iter()
        .any(|change| change.value.as_deref() == Some("cohort-04")));
    assert_eq!(label_external_agents().len(), 2);
    assert!(!reserve_jenkins_agents().is_empty());
    assert!(!assert_jenkins_installed(&Vec::new()));
}

#[test]
fn the_entry_is_told_by_its_arguments() {
    let texts = |items: &[&str]| -> Vec<String> {
        items.iter().map(|item| item.to_string()).collect()
    };
    assert!(matches!(read_entry(&texts(&[])), Ok(Entry::Test)));
    assert!(matches!(
        read_entry(&texts(&["agent-name", "agent-0"])),
        Ok(Entry::AgentName(host)) if host == "agent-0"
    ));
    assert!(matches!(read_entry(&texts(&["alert-sink"])), Ok(Entry::AlertSink)));
    assert!(matches!(
        read_entry(&texts(&["load-probe", "http://front", "25"])),
        Ok(Entry::LoadProbe(url, 25)) if url == "http://front"
    ));
    let error = |items: &[&str]| match read_entry(&texts(items)) {
        Ok(_) => panic!("the arguments ask for nothing"),
        Err(message) => message,
    };
    assert_eq!(
        error(&["agent-name"]),
        "agent-name needs a hostname: `updatec-e2e agent-name <hostname>`"
    );
    assert_eq!(
        error(&["load-probe"]),
        "load-probe needs a URL: `updatec-e2e load-probe <url> <interval_ms>`"
    );
    assert_eq!(
        error(&["load-probe", "u"]),
        "load-probe needs an interval: `updatec-e2e load-probe <url> <interval_ms>`"
    );
    assert_eq!(
        error(&["load-probe", "u", "soon"]),
        "invalid digit found in string"
    );
    assert!(error(&["nonsense"]).starts_with("unknown command \"nonsense\"; use"));
}

const SCENARIOS: [Scenario; 5] = [
    Scenario::NodeControls,
    Scenario::Staleness,
    Scenario::Dataflow,
    Scenario::Schedule,
    Scenario::Quarantine,
];

#[test]
fn scenarios_take_back_what_they_do() {
    let pairs = [
        (Act::Bench, Act::Release),
        (Act::Stop, Act::Resume),
        (Act::Wire, Act::Unwire),
        (Act::CloseWindow, Act::LiftWindow),
        (Act::StateEmergency, Act::WithdrawEmergency),
        (Act::Corrupt, Act::Repair),
    ];
    let mut seen = 0;
    for scenario in SCENARIOS {
        let steps = scenario.steps();
        for (done, taken_back) in pairs {
            let first = steps.iter().position(|step| *step == Step::Do(done));
            let last = steps.iter().position(|step| *step == Step::Do(taken_back));
            assert_eq!(first.is_some(), last.is_some());
            if let (Some(first), Some(last)) = (first, last) {
                assert!(first < last);
                seen += 1;
            }
        }
    }
    assert_eq!(seen, pairs.len());
}

#[test]
fn a_silent_node_is_out_of_rotation_before_anything_rolls() {
    assert_eq!(
        Scenario::Staleness.steps(),
        [
            Step::Do(Act::Stop),
            Step::Await(Goal::Dropped),
            Step::Do(Act::Deploy),
            Step::See(Hold::HeldBack),
            Step::Do(Act::Resume),
            Step::Await(Goal::Recovered),
        ]
    );
    assert_eq!(Scenario::NodeControls.steps()[1], Step::Await(Goal::Drained));
    assert_eq!(Scenario::NodeControls.steps()[2], Step::Do(Act::Deploy));
}

#[test]
fn a_restraint_ends_after_it_held() {
    for (scenario, hold, act) in [
        (Scenario::NodeControls, Hold::PassedOver, Act::Release),
        (Scenario::Staleness, Hold::HeldBack, Act::Resume),
        (Scenario::Schedule, Hold::StillClosed, Act::StateEmergency),
        (Scenario::Quarantine, Hold::StillServing, Act::Repair),
    ] {
        let steps = scenario.steps();
        let place = steps.iter().position(|step| *step == Step::See(hold)).unwrap();
        assert_eq!(steps[place + 1], Step::Do(act));
    }
}

#[test]
fn scenarios_wait_as_long_as_they_must() {
    assert_eq!(Goal::Dropped.seconds(120), 180);
    assert_eq!(Goal::Drained.seconds(120), 90);
    assert_eq!(Goal::Recovered.seconds(120), 900);
    assert_eq!(Goal::InputArrived.seconds(0), 180);
    assert_eq!(Goal::InputFollowed.seconds(0), 300);
    assert_eq!(Goal::EmergencyConverged.seconds(0), 240);
    assert_eq!(Goal::Repaired.seconds(0), 120);
    assert_eq!(Goal::Quarantined.what(), "the group to be quarantined for its invalid deployment");
    assert_eq!((Hold::StillClosed.pause(), Hold::StillClosed.looks()), (15, 1));
    assert_eq!((Hold::HeldBack.pause(), Hold::HeldBack.looks()), (0, 30));
}

#[test]
fn a_node_leaves_rotation_with_its_address() {
    let addresses = vec!["10.0.0.1".to_string(), "10.0.0.2".to_string()];
    assert!(!has_left(&addresses, "10.0.0.2"));
    assert!(has_left(&addresses, "10.0.0.3"));
    assert!(count_cohorts(&fleet("4.0.0"), "4.0.0").is_whole());
    assert!(!count_cohorts(&fleet("4.0.0"), "5.0.0").is_whole());
    assert!(all_hold(&vec![true, true]));
    assert!(!all_hold(&vec![true, false]));
}
