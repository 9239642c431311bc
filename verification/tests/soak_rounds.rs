use fleet_drill::soak::config::{Config, NAMESPACE};
use fleet_drill::soak::drive::{
    has_room, stable_release, take_step, News, RecoveryStep, RoundStep,
};
use fleet_drill::soak::plan::{plan_round, RoundPlan};
use fleet_drill::soak::rounds::{assign_version, every_group};
use fleet_drill::soak::signing::SecretStep;
use fleet_drill::soak::state::{campaign_version_text, CampaignState, BASELINE_VERSION};

const SEED: u64 = 42;

fn config() -> Config {
    Config {
        namespace: NAMESPACE.into(),
        seed: SEED,
        agent_count: 6,
        round_interval: 90,
        fault_duration: 20,
        convergence_timeout: 300,
        release_data: "/release-data".into(),
        state_dir: "/state".into(),
    }
}

fn news(version: &str) -> News {
    News {
        version: version.into(),
        convergence_bits: 1.5f64.to_bits(),
        injected: true,
        assertion: None,
        fault: None,
    }
}

/// Drives a round until it is over or a step fails; the steps that were taken are returned.
fn drive(
    state: &mut CampaignState,
    plan: &RoundPlan,
    assertion: Option<&str>,
    fault: Option<&str>,
) -> (Vec<RoundStep>, Option<String>) {
    let mut steps = vec![RoundStep::Reserve];
    loop {
        let step = steps[steps.len() - 1];
        if step == RoundStep::Done {
            return (steps, None);
        }
        let version = campaign_version_text(state.release_generation);
        let mut seen = news(&version);
        if step == RoundStep::Prove {
            seen.assertion = assertion.map(String::from);
            seen.fault = fault.map(String::from);
        }
        assert!(has_room(state));
        match take_step(step, state, plan, seen) {
            Ok(next) => steps.push(next),
            Err(message) => return (steps, Some(message)),
        }
    }
}

#[test]
fn a_valid_round_moves_its_groups() {
    let mut state = CampaignState::fresh(SEED);
    let plan = plan_round(SEED, 0, 6);
    let (steps, failure) = drive(&mut state, &plan, None, None);
    assert_eq!(failure, None);
    assert_eq!(
        steps[..4],
        [RoundStep::Reserve, RoundStep::Record, RoundStep::Publish, RoundStep::Assign(0)]
    );
    assert_eq!(steps.len(), 5 + plan.groups.len());
    assert_eq!(state.release_generation, 1);
    assert_eq!(state.release_assignments, plan.groups.len() as u64);
    for group in &plan.groups {
        assert_eq!(stable_release(&state, group), Ok(campaign_version_text(1)));
    }
    state.close_round(&plan, true, 7);
    assert_eq!(state.validate(&config()), Ok(()));
}

#[test]
fn a_rejected_release_is_taken_back() {
    let mut state = CampaignState::fresh(SEED);
    state.round = 9;
    let plan = plan_round(SEED, 9, 6);
    assert!(plan.expected_rejection);
    let (steps, failure) = drive(&mut state, &plan, None, None);
    assert_eq!(failure, None);
    assert_eq!(
        steps[4..],
        [RoundStep::Prove, RoundStep::Restore, RoundStep::Confirm, RoundStep::Done]
    );
    assert_eq!((state.expected_rejections, state.release_assignments), (1, 2));
    assert_eq!(stable_release(&state, &plan.groups[0]).as_deref(), Ok(BASELINE_VERSION));
    assert_eq!(state.last_convergence_bits, 1.5f64.to_bits());
}

#[test]
fn a_round_that_stops_leaves_a_valid_state() {
    for (assertion, fault, message) in [
        (Some("lag"), None, "lag"),
        (None, Some("stuck"), "stuck"),
        (
            Some("lag"),
            Some("stuck"),
            "round assertion failed: lag; fault lifecycle also failed: stuck",
        ),
    ] {
        let mut state = CampaignState::fresh(SEED);
        let plan = plan_round(SEED, 0, 6);
        let (steps, failure) = drive(&mut state, &plan, assertion, fault);
        assert_eq!(failure.as_deref(), Some(message));
        assert_eq!(steps[steps.len() - 1], RoundStep::Prove);
        let injected: u64 = state.faults.iter().map(|entry| entry.count).sum();
        let failed: u64 = state.fault_failures.iter().map(|entry| entry.count).sum();
        assert_eq!((injected, failed), (1, u64::from(fault.is_some())));
        assert_eq!(stable_release(&state, &plan.groups[0]).as_deref(), Ok(BASELINE_VERSION));
        state.close_round(&plan, false, 7);
        assert_eq!(state.validate(&config()), Ok(()));
        assert!(state.recovery_pending);
    }
}

#[test]
fn a_spent_generation_stops_a_round() {
    let mut state = CampaignState::fresh(SEED);
    state.release_generation = u64::MAX;
    let plan = plan_round(SEED, 0, 6);
    let taken = take_step(RoundStep::Reserve, &mut state, &plan, news(""));
    assert_eq!(taken, Err("release generation overflow".to_owned()));
    state.release_assignments = u64::MAX;
    assert!(!has_room(&state));
    assert!(state.can_run_round() && state.can_settle());
    state.recoveries = u64::MAX;
    state.consecutive_failures = u64::MAX;
    assert!(!state.can_run_round() && !state.can_settle());
}

#[test]
fn a_group_that_is_not_listed_has_no_stable_release() {
    let state = CampaignState::fresh(SEED);
    assert_eq!(
        stable_release(&state, "soak-z"),
        Err("no stable version for soak-z".to_owned())
    );
}

#[test]
fn a_recovery_records_the_target_that_it_chose() {
    let mut step = RecoveryStep::CleanUp;
    let mut chosen = vec![step];
    while step != RecoveryStep::Done {
        step = step.next(true);
        chosen.push(step);
    }
    assert_eq!(chosen.len(), 9);
    assert_eq!(chosen[1..4], [RecoveryStep::Target, RecoveryStep::Record, RecoveryStep::Publish]);
    assert_eq!(RecoveryStep::Target.next(false), RecoveryStep::Publish);
    let state = CampaignState::fresh(SEED);
    let desired = assign_version(&state.desired, &every_group(), "10.3.0");
    assert_eq!(desired.len(), 3);
    assert!(desired.iter().all(|entry| entry.version == "10.3.0"));
}

#[test]
fn keys_become_a_secret_once_they_are_ready() {
    let path = |answers: &[bool]| {
        let mut step = SecretStep::Look;
        for answer in answers {
            step = step.next(*answer);
        }
        step
    };
    assert_eq!(path(&[true]), SecretStep::Check);
    assert_eq!(path(&[true, true]), SecretStep::Done);
    assert_eq!(path(&[false, true]), SecretStep::Create);
    assert_eq!(path(&[false, false]), SecretStep::Clear);
    assert_eq!(path(&[false, false, true, true, true]), SecretStep::MarkReady);
    assert_eq!(path(&[false, true, false]), SecretStep::Check);
    assert_eq!(path(&[false; 8]), SecretStep::Done);
}
