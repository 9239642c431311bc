use fleet_drill::clock::AdmissionClock;
use fleet_drill::demo::access::{plan_console_role, plan_deployer_role, plan_reconciler_role};
use fleet_drill::demo::disruption::{draw_disruption, draw_victims};
use fleet_drill::demo::enrollment::{
    host_ip, label_demo_agents, label_external_vm_agent, reconciler_members, ExternalNode,
};
use fleet_drill::demo::entry::{read_entry, Entry};
use fleet_drill::demo::epochs::{
    baseline_major, begin_convergence, close_epoch, convergence_event, end_convergence, enter_epoch,
    enter_loop, look_at_convergence, start_run,
};
use fleet_drill::demo::exercise::{
    chaos_progress, check_unified, exercise_seed, reset_demo, ChaosProgress,
};
use fleet_drill::demo::fleet::FleetNode;
use fleet_drill::demo::generation::{select_generation, Generation};
use fleet_drill::demo::haproxy::{judge_upgrade, needs_samples, provider_digest};
use fleet_drill::demo::layout::{CHAOS_SEED_BASE, DEMO_COHORT_COUNT, MAX_EVENTS};
use fleet_drill::demo::releases::{setting_or, switched_on, write_identity};
use fleet_drill::demo::resources::{plan_routes, plan_sets};
use fleet_drill::demo::run::{ChaosRun, RunStep};
use fleet_drill::demo::state::ChaosState;
use fleet_drill::json::parse_json;

fn node(ordinal: usize, version: &str) -> FleetNode {
    FleetNode {
        node: format!("agent-{ordinal}"),
        resource: format!("agent-{ordinal}"),
        selected_group: Some(format!("demo-cohort-{:02}", ordinal / 2)),
        version: Some(version.into()),
        kind: None,
        healthy: true,
        in_load_balancer: true,
        readyz_probe_millis: 0,
        probe_note: None,
    }
}

fn fleet(version: &str) -> Vec<FleetNode> {
    (0..32).map(|ordinal| node(ordinal, version)).collect()
}

#[test]
fn a_generation_drives_every_cohort_of_the_epoch() {
    let mut state = ChaosState::default();
    let first_loop = start_run(&mut state, 7, 1, true);
    assert_eq!(first_loop, 0);
    assert_eq!(
        state.events.last().map(String::as_str),
        Some("pod-kill chaos disabled (DEMO_DISABLE_CHAOS): rolling without injected disruption")
    );
    let epoch = enter_epoch(&mut state, 1, 1);
    assert_eq!((epoch.number, epoch.converge_major), (1, 101));
    let assignments = select_generation(&state).unwrap();
    assert_eq!(assignments.len(), DEMO_COHORT_COUNT);
    assert_eq!(assignments[0], (0, true));
    assert_eq!(assignments[2], (2, false));
    enter_loop(&mut state, 7, 1, 2, 3);
    assert_eq!((state.bad_version.as_str(), state.good_version.as_str()), ("2.0.0", "3.0.0"));

    let mut generation = Generation::new(7, &assignments, 2, 3);
    generation.announce(&mut state, 4);
    assert_eq!(state.active_broken.len(), 8);
    generation.note_patched(&mut state, 12);
    let mut nodes = fleet("3.0.0");
    for (cohort, broken) in &assignments {
        if *broken {
            for member in 0..2 {
                nodes[cohort * 2 + member].version = Some("1.0.0".into());
            }
        }
    }
    let everyone: Vec<String> = (0..32).map(|ordinal| format!("agent-{ordinal}")).collect();
    assert!(!generation.look(&mut state, &nodes, &Vec::new(), 1));
    assert!(generation.look(&mut state, &nodes, &everyone, 2));
    assert_eq!(state.updated_groups.len() + state.rolled_back_groups.len(), 16);
    assert!(select_generation(&state).is_none());
    assert!(generation.timeout_message().contains("did not settle within 900 seconds"));

    begin_convergence(&mut state, epoch.converge_major);
    assert!(state.converging);
    let sight = look_at_convergence(&fleet("101.0.0"), "101.0.0");
    assert_eq!(sight.on_target, 32);
    end_convergence(&mut state);
    assert!(!state.converging);
    let _ = close_epoch(&mut state, &epoch, 1, Some(1));
    assert_eq!(state.completed_epochs, 1);
}

#[test]
fn the_log_keeps_the_newest_events_only() {
    let mut state = ChaosState::default();
    for index in 0..MAX_EVENTS + 5 {
        state.event(format!("event {index}"));
    }
    assert_eq!(state.events.len(), MAX_EVENTS);
    assert_eq!(state.events[0], "event 5");
    state.fail("boom");
    assert_eq!(state.error.as_deref(), Some("boom"));
    assert!(!state.running);
}

#[test]
fn a_run_starts_from_the_highest_version() {
    assert_eq!(baseline_major(&fleet("101.0.0")), Some(101));
    assert_eq!(baseline_major(&Vec::new()), None);
    let mut nodes = fleet("101.0.0");
    assert_eq!(check_unified(&nodes).as_deref(), Ok("101.0.0"));
    nodes[3].version = Some("102.0.0".into());
    assert_eq!(
        check_unified(&nodes),
        Err("fleet chaos completed without a healthy fleet converged onto one version".to_owned())
    );
}

#[test]
fn disruptions_are_drawn_from_the_seed() {
    assert_eq!(exercise_seed(1), CHAOS_SEED_BASE);
    assert_ne!(exercise_seed(2), CHAOS_SEED_BASE);
    let first = draw_disruption(9);
    let again = draw_disruption(9);
    assert!(first.delay_millis < 5000);
    assert_eq!(first.delay_millis, again.delay_millis);
    assert_eq!(first.state, again.state);
    let nodes = fleet("101.0.0");
    let victims = draw_victims(&nodes, 9);
    assert_eq!(victims, draw_victims(&nodes, 9));
    assert!(victims.iter().all(|pod| nodes.iter().any(|node| node.node == *pod)));
}

#[test]
fn a_frozen_fleet_stops_the_clock() {
    let mut clock = AdmissionClock::new();
    clock.see(false);
    clock.tick();
    clock.see(true);
    for _ in 0..5 {
        clock.tick();
    }
    clock.see(false);
    clock.tick();
    assert!(clock.is_spent(1));
    assert!(!clock.is_spent(2));
}

#[test]
fn progress_is_read_from_the_state() {
    let progress = |text: &str| chaos_progress(&parse_json(text).unwrap());
    assert!(matches!(progress("{\"completedEpochs\":0}"), ChaosProgress::Running));
    assert!(matches!(progress("{\"completedEpochs\":2}"), ChaosProgress::EpochDone));
    assert!(matches!(progress("{}"), ChaosProgress::Running));
    assert!(matches!(
        progress("{\"completedEpochs\":2,\"error\":\"boom\"}"),
        ChaosProgress::Failed(message) if message == "fleet chaos failed: boom"
    ));
}

#[test]
fn a_host_finds_its_address() {
    let some = |text: &str| Some(text.to_owned());
    assert_eq!(host_ip(&some("10.0.0.9"), &some("1.1.1.1"), &None).as_deref(), Ok("10.0.0.9"));
    assert_eq!(host_ip(&some(""), &some(" 1.1.1.1\n"), &None).as_deref(), Ok("1.1.1.1"));
    assert_eq!(host_ip(&None, &some("\n"), &some("2.2.2.2 3.3.3.3")).as_deref(), Ok("2.2.2.2"));
    assert_eq!(
        host_ip(&None, &None, &None),
        Err("could not determine the host LAN IP (set DEMO_HOST_IP) to expose the gateway".to_owned())
    );
}

#[test]
fn nodes_outside_the_cluster_are_listed() {
    let external = |address: &str| ExternalNode {
        address: address.into(),
        key: "key".into(),
    };
    let members = reconciler_members(&vec![external("10.0.0.1")], &Some(external("10.0.0.2")));
    assert_eq!(members.split(',').count(), 2);
    assert!(members.contains("10.0.0.1") && members.contains("10.0.0.2"));
    assert_eq!(label_demo_agents().len(), 32);
    assert!(!label_external_vm_agent().changes.is_empty());
}

#[test]
fn the_demo_is_told_by_its_arguments() {
    let texts = |items: &[&str]| -> Vec<String> {
        items.iter().map(|item| item.to_string()).collect()
    };
    assert!(matches!(read_entry(&texts(&["serve"])), Ok(Entry::Serve)));
    assert!(read_entry(&texts(&["nonsense"])).is_err());
    assert_eq!(reset_demo("demo"), vec!["delete", "cluster", "--name", "demo"]);
    assert_eq!(setting_or(None, "a"), "a");
    assert_eq!(setting_or(Some("b".into()), "a"), "b");
    assert!(!switched_on(&None));
    assert!(write_identity("g", "1.0.0").contains("1.0.0"));
}

#[test]
fn an_upgrade_of_the_balancers_needs_samples() {
    assert!(needs_samples(0));
    assert!(judge_upgrade(Err("late".into()), true, 1000).is_err());
    assert!(judge_upgrade(Ok(()), false, 1000).is_err());
    assert!(judge_upgrade(Ok(()), true, 0).is_err());
    assert!(judge_upgrade(Ok(()), true, 1_000_000).is_ok());
    assert!(provider_digest("").is_err());
}

#[test]
fn every_set_is_throttled_and_routed() {
    assert_eq!(plan_sets().len(), 9);
    assert!(!plan_routes().is_empty());
}

fn generation(step: RunStep) -> (u64, usize, usize, usize) {
    match step {
        RunStep::Generation(rollout) => {
            (rollout.seed, rollout.assignments.len(), rollout.bad_major, rollout.good_major)
        }
        RunStep::Converge(major) => panic!("converges on {major} too soon"),
    }
}

#[test]
fn a_run_goes_through_its_epochs() {
    let mut state = ChaosState::default();
    let first_loop = start_run(&mut state, u64::MAX, 1, false);
    let mut run = ChaosRun::begin(&mut state, u64::MAX, Some(2), first_loop, 1);
    assert!(run.has_room());
    assert_eq!(generation(run.next(&mut state)), (u64::MAX, DEMO_COHORT_COUNT, 2, 3));
    assert_eq!((state.loop_number, state.good_version.as_str()), (1, "3.0.0"));
    state.updated_groups = (0..15).map(|index| format!("demo-cohort-{index:02}")).collect();
    assert_eq!(generation(run.next(&mut state)), (0, 1, 4, 5));
    state.rolled_back_groups.push("demo-cohort-15".into());
    assert!(matches!(run.next(&mut state), RunStep::Converge(101)));
    end_convergence(&mut state);
    assert!(!run.converged(&mut state));
    assert_eq!((state.epoch, state.loop_number, state.completed_epochs), (2, 101, 1));
    assert_eq!(generation(run.next(&mut state)), (1, DEMO_COHORT_COUNT, 102, 103));
    end_convergence(&mut state);
    assert!(matches!(run.next(&mut state), RunStep::Converge(201)));
    assert!(run.converged(&mut state));
    assert!(state.complete && !state.running);
    assert_eq!(state.completed_epochs, 2);
}

#[test]
fn a_run_converges_above_the_versions_that_it_finds() {
    let mut state = ChaosState::default();
    let first_loop = start_run(&mut state, 5, 101, false);
    assert_eq!(first_loop, 0);
    let mut run = ChaosRun::begin(&mut state, 5, Some(1), first_loop, 101);
    assert_eq!((run.epoch.number, run.epoch.converge_major), (2, 201));
    assert_eq!((state.epoch, state.loop_number, run.loop_number), (2, 101, 101));
    assert_eq!(generation(run.next(&mut state)), (5, DEMO_COHORT_COUNT, 102, 103));
    assert_eq!(state.loop_number, 102);
    end_convergence(&mut state);
    assert!(matches!(run.next(&mut state), RunStep::Converge(201)));
    assert!(run.converged(&mut state));
    assert_eq!((run.major, run.loop_number, state.loop_number), (201, 201, 201));
}

#[test]
fn an_epoch_is_as_the_versions_are() {
    for (baseline, converge_major) in [(0, 101), (1, 101), (95, 101), (98, 101), (99, 201), (100, 201), (101, 201)] {
        let mut state = ChaosState::default();
        let epoch = enter_epoch(&mut state, 0, baseline);
        assert_eq!(epoch.converge_major, converge_major, "from {baseline}");
    }
}

#[test]
fn a_run_resumes_the_epoch_that_was_left() {
    let mut state = ChaosState::default();
    let first_loop = start_run(&mut state, 5, 1, false);
    let mut run = ChaosRun::begin(&mut state, 5, None, first_loop, 1);
    run.next(&mut state);
    state.updated_groups = (0..15).map(|index| format!("demo-cohort-{index:02}")).collect();
    let first_loop = start_run(&mut state, 6, 3, false);
    assert_eq!(first_loop, 1);
    let mut resumed = ChaosRun::begin(&mut state, 6, None, first_loop, 3);
    assert_eq!((resumed.epoch, resumed.loop_number), (run.epoch, 1));
    assert_eq!(generation(resumed.next(&mut state)), (6, 1, 4, 5));
}

#[test]
fn a_run_moves_on_where_an_epoch_has_no_room() {
    let mut state = ChaosState::default();
    let first_loop = start_run(&mut state, 5, 97, false);
    let mut run = ChaosRun::begin(&mut state, 5, None, first_loop, 97);
    assert_eq!(run.epoch.converge_major, 101);
    assert_eq!(generation(run.next(&mut state)), (5, DEMO_COHORT_COUNT, 98, 99));
    state.updated_groups = (0..15).map(|index| format!("demo-cohort-{index:02}")).collect();
    assert_eq!(generation(run.next(&mut state)), (6, 1, 100, 101));
    assert_eq!((run.epoch.converge_major, state.epoch, state.loop_number), (201, 2, 102));
    assert_eq!(state.updated_groups.len(), 15);
    assert_eq!(
        state.events.last().map(String::as_str),
        Some("epoch 2: diverging the fleet from 99.0.0 toward convergence on 201.0.0")
    );
    state.rolled_back_groups.push("demo-cohort-15".into());
    assert!(matches!(run.next(&mut state), RunStep::Converge(201)));
}

#[test]
fn every_second_look_tells_of_a_convergence() {
    assert_eq!(
        convergence_event(2, 30, "101.0.0", true).as_deref(),
        Some("convergence: 30/32 agents on 101.0.0 (frozen \u{2014} clock paused)")
    );
    assert_eq!(
        convergence_event(0, 31, "101.0.0", false).as_deref(),
        Some("convergence: 31/32 agents on 101.0.0")
    );
    assert_eq!(convergence_event(3, 31, "101.0.0", false), None);
}

#[test]
fn only_the_console_deletes_and_only_pods() {
    let console = plan_console_role();
    assert_eq!((console.name, console.account), ("updatec-demo", "updatec-demo"));
    let deletes = |rules: &[fleet_drill::demo::access::AccessRule]| -> Vec<&'static str> {
        rules
            .iter()
            .filter(|rule| rule.verbs.contains(&"delete"))
            .map(|rule| rule.resource)
            .collect()
    };
    assert_eq!(deletes(&console.rules), ["pods"]);
    assert!(deletes(&plan_reconciler_role().rules).is_empty());
    let deployer = plan_deployer_role();
    assert!(deletes(&deployer.rules).is_empty());
    assert_eq!(deployer.account, "default");
    assert_eq!(deployer.rules[1].verbs, ["get", "list", "create", "patch"]);
    for rule in &deployer.rules {
        assert!(console
            .rules
            .iter()
            .any(|own| own.resource == rule.resource && own.verbs == rule.verbs));
    }
}
