use fleet_drill::json::parse_json;
use fleet_drill::soak::campaign::{
    action_word, controller_pod, fault_object, fault_selector, is_injected, journal_error,
    merge_errors, needs_controller, next_fault_step, not_deleted_message, not_injected_message,
    outcome_word, starts_fresh, write_fault_name, Event, FaultAction, FaultNext, FaultStep, Phase,
    Run,
};
use fleet_drill::soak::config::{
    write_setting_error, Config, ConfigError, Setting, SettingError, SoakSettings, NAMESPACE,
};
use fleet_drill::soak::faults::{FaultDescriptor, FaultKind};
use fleet_drill::soak::metrics::{
    metrics_path, metrics_reply, read_metrics_request, write_metrics_response, Metrics,
    MetricsRead, PathError, METRICS_MAX_REQUEST,
};
use fleet_drill::soak::plan::{plan_round, soak_group};
use fleet_drill::soak::rounds::find_version;
use fleet_drill::soak::state::{
    campaign_version, campaign_version_text, validate_stable_version, CampaignState,
    BASELINE_VERSION,
};
use serde_json::Value;

fn config() -> Config {
    Config {
        namespace: NAMESPACE.into(),
        seed: 42,
        agent_count: 6,
        round_interval: 90,
        fault_duration: 20,
        convergence_timeout: 300,
        release_data: "/release-data".into(),
        state_dir: "/state".into(),
    }
}

fn convergence(state: &CampaignState) -> String {
    f64::from_bits(state.last_convergence_bits).to_string()
}

fn set_count(state: &mut CampaignState, kind: FaultKind, count: u64) {
    for entry in &mut state.faults {
        if entry.kind == kind {
            entry.count = count;
        }
    }
}

fn set_failures(state: &mut CampaignState, kind: FaultKind, count: u64) {
    for entry in &mut state.fault_failures {
        if entry.kind == kind {
            entry.count = count;
        }
    }
}

fn set_desired(state: &mut CampaignState, group: &str, version: &str) {
    for entry in &mut state.desired {
        if entry.group == group {
            entry.version = version.into();
        }
    }
}

fn set_every_version(state: &mut CampaignState, version: &str) {
    for entry in &mut state.desired {
        entry.version = version.into();
    }
}

#[test]
fn fleet_layout_must_divide_evenly_and_faults_are_bounded() {
    assert!(config().validate().is_ok());
    let mut invalid = config();
    invalid.agent_count = 5;
    assert!(invalid.validate().is_err());
    let mut invalid = config();
    invalid.fault_duration = invalid.convergence_timeout;
    assert!(invalid.validate().is_err());
}

#[test]
fn plans_are_reproducible_and_every_tenth_round_rejects() {
    let mut state = CampaignState::fresh(42);
    let first = plan_round(state.seed, state.round, 6);
    assert_eq!(first.seed, plan_round(state.seed, state.round, 6).seed);
    assert_eq!(first.groups, plan_round(state.seed, state.round, 6).groups);
    assert!(!first.expected_rejection);
    state.round = 9;
    let tenth = plan_round(state.seed, state.round, 6);
    assert!(tenth.expected_rejection);
    assert_eq!(tenth.groups.len(), 1);
}

#[test]
fn campaign_versions_are_strictly_monotonic() {
    let mut previous = semver::Version::parse(BASELINE_VERSION).unwrap();
    for round in 1..=10_000 {
        let version = campaign_version(round);
        let current = semver::Version::new(version.major, version.minor, version.patch);
        assert!(current > previous, "{current} did not follow {previous}");
        previous = current;
    }
    assert_eq!(campaign_version_text(7), "1000000.7.0");
}

#[test]
fn metrics_have_fixed_fault_labels_and_no_round_label() {
    let state = CampaignState::fresh(42);
    let mut metrics = Metrics::from_state(&state, 6, 0);
    metrics.active_fault = Some(FaultKind::IoError);
    let text = metrics.render(&convergence(&state));
    for kind in FaultKind::all() {
        let descriptor: FaultDescriptor = kind.descriptor();
        assert!(text.contains(&format!("kind=\"{}\"", descriptor.metric_name)));
    }
    assert!(!text.contains("round=\""));
    assert!(text.contains("updatec_soak_fault_active{kind=\"io_error\"} 1"));
}

fn successful_state() -> CampaignState {
    let mut state = CampaignState::fresh(42);
    state.round = 1;
    state.release_generation = 1;
    state.campaigns = 1;
    state.successful_campaigns = 1;
    state.release_assignments = 1;
    state.last_success_timestamp = 1;
    set_count(&mut state, FaultKind::IoError, 1);
    state
}

fn written(state: &CampaignState) -> Vec<u8> {
    let mut document = serde_json::Map::new();
    let numbers = [
        ("schema", u64::from(state.schema)),
        ("seed", state.seed),
        ("round", state.round),
        ("release_generation", state.release_generation),
        ("campaigns", state.campaigns),
        ("successful_campaigns", state.successful_campaigns),
        ("failed_campaigns", state.failed_campaigns),
        ("release_assignments", state.release_assignments),
        ("expected_rejections", state.expected_rejections),
        ("recoveries", state.recoveries),
        ("forward_recoveries", state.forward_recoveries),
        ("consecutive_failures", state.consecutive_failures),
    ];
    for (name, number) in numbers {
        document.insert(name.into(), Value::from(number));
    }
    document.insert(
        "last_success_timestamp".into(),
        Value::from(state.last_success_timestamp),
    );
    document.insert(
        "last_failure_timestamp".into(),
        Value::from(state.last_failure_timestamp),
    );
    document.insert(
        "last_convergence_seconds".into(),
        Value::from(f64::from_bits(state.last_convergence_bits)),
    );
    let mut desired = serde_json::Map::new();
    for entry in &state.desired {
        desired.insert(entry.group.clone(), Value::from(entry.version.as_str()));
    }
    document.insert("desired".into(), Value::Object(desired));
    let counts = |entries: &[fleet_drill::soak::state::FaultCount]| {
        let mut map = serde_json::Map::new();
        for entry in entries {
            map.insert(
                entry.kind.descriptor().metric_name.into(),
                Value::from(entry.count),
            );
        }
        Value::Object(map)
    };
    document.insert("recovery_pending".into(), Value::from(state.recovery_pending));
    let target = match &state.recovery_target {
        Some(target) => Value::from(target.as_str()),
        None => Value::Null,
    };
    document.insert("recovery_target".into(), target);
    document.insert("faults".into(), counts(&state.faults));
    document.insert("fault_failures".into(), counts(&state.fault_failures));
    serde_json::to_vec(&Value::Object(document)).unwrap()
}

fn restored(bytes: &[u8]) -> CampaignState {
    let document: Value = serde_json::from_slice(bytes).unwrap();
    let number = |name: &str| document[name].as_u64().unwrap();
    let mut state = CampaignState::fresh(number("seed"));
    state.schema = number("schema") as u8;
    state.round = number("round");
    state.release_generation = number("release_generation");
    state.campaigns = number("campaigns");
    state.successful_campaigns = number("successful_campaigns");
    state.failed_campaigns = number("failed_campaigns");
    state.release_assignments = number("release_assignments");
    state.expected_rejections = number("expected_rejections");
    state.recoveries = number("recoveries");
    state.forward_recoveries = number("forward_recoveries");
    state.consecutive_failures = number("consecutive_failures");
    state.recovery_pending = document["recovery_pending"].as_bool().unwrap();
    state.recovery_target = match &document["recovery_target"] {
        Value::Null => None,
        target => Some(target.as_str().unwrap().into()),
    };
    state.last_success_timestamp = document["last_success_timestamp"].as_i64().unwrap();
    state.last_failure_timestamp = document["last_failure_timestamp"].as_i64().unwrap();
    state.last_convergence_bits =
        document["last_convergence_seconds"].as_f64().unwrap().to_bits();
    for entry in &mut state.desired {
        entry.version = document["desired"][&entry.group].as_str().unwrap().into();
    }
    for entry in &mut state.faults {
        entry.count = document["faults"][entry.kind.descriptor().metric_name]
            .as_u64()
            .unwrap();
    }
    for entry in &mut state.fault_failures {
        entry.count = document["fault_failures"][entry.kind.descriptor().metric_name]
            .as_u64()
            .unwrap();
    }
    state
}

#[test]
fn restart_serialization_preserves_every_aggregate_metric() {
    let config = config();
    let mut state = successful_state();
    state.last_convergence_bits = 12.5f64.to_bits();
    set_desired(&mut state, soak_group(0), "1000000.1.0");

    let restored = restored(&written(&state));
    restored.validate(&config).unwrap();
    let rendered =
        Metrics::from_state(&restored, config.agent_count, 0).render(&convergence(&restored));
    assert!(rendered.contains("updatec_soak_campaigns_total 1\n"));
    assert!(rendered.contains("updatec_soak_release_generation 1\n"));
    assert!(rendered.contains("updatec_soak_faults_total{kind=\"io_error\"} 1\n"));
    assert!(rendered.contains("updatec_soak_last_convergence_seconds 12.5\n"));
    assert_eq!(written(&restored), written(&state));
}

#[test]
fn a_restart_preserves_a_pending_recovery_and_its_target() {
    let mut state = CampaignState::fresh(42);
    let plan = plan_round(state.seed, state.round, 6);
    assert_eq!(state.reserve_generation(), Ok(1));
    state.close_round(&plan, false, 7);
    let target = match state.begin_recovery() {
        Ok(target) => target,
        Err(message) => panic!("{message}"),
    };
    assert!(target.allocated);
    let mut restored = restored(&written(&state));
    assert!(restored.recovery_pending);
    assert_eq!(restored.recovery_target, state.recovery_target);
    assert_eq!(written(&restored), written(&state));
    let again = match restored.begin_recovery() {
        Ok(target) => target,
        Err(message) => panic!("{message}"),
    };
    assert_eq!((again.generation, again.allocated), (target.generation, false));
}

#[test]
fn state_rejects_a_seed_or_group_layout_change() {
    let config = config();
    let mut state = CampaignState::fresh(config.seed);
    assert!(state.validate(&config).is_ok());
    state.seed += 1;
    assert!(state.validate(&config).is_err());
    state.seed = config.seed;
    state.desired.retain(|entry| entry.group != soak_group(0));
    assert!(state.validate(&config).is_err());
}

#[test]
fn state_rejects_impossible_counters_fault_sets_and_desired_versions() {
    let config = config();
    let mut state = CampaignState::fresh(config.seed);
    state.campaigns = 1;
    assert!(state.validate(&config).is_err());

    let mut state = CampaignState::fresh(config.seed);
    state.faults.retain(|entry| entry.kind != FaultKind::IoError);
    assert!(state.validate(&config).is_err());

    let valid = successful_state();
    assert!(valid.validate(&config).is_ok());

    let mut impossible = valid.clone();
    set_count(&mut impossible, FaultKind::IoError, 2);
    assert!(impossible.validate(&config).is_err());
    let mut impossible = valid.clone();
    set_count(&mut impossible, FaultKind::IoError, 0);
    assert!(impossible.validate(&config).is_err());
    let mut impossible = valid.clone();
    set_failures(&mut impossible, FaultKind::IoError, 1);
    assert!(impossible.validate(&config).is_err());
    let mut impossible = valid.clone();
    impossible.expected_rejections = 1;
    assert!(impossible.validate(&config).is_err());
    let mut impossible = valid;
    impossible.release_assignments = 0;
    assert!(impossible.validate(&config).is_err());

    assert!(validate_stable_version(BASELINE_VERSION, 0).is_ok());
    assert!(validate_stable_version("1000000.1.0", 1).is_ok());
    assert!(validate_stable_version("1000000.10.0", 10).is_ok());
    assert!(validate_stable_version("1000000.11.0", 10).is_err());
    assert!(validate_stable_version("999999.1.0", 1).is_err());
}

#[test]
fn only_the_one_spelling_of_a_release_is_stable() {
    for other in [
        "1000000.1.0-rc",
        "1000000.1.0+build",
        "1000000.01.0",
        "01000000.1.0",
        "+1000000.1.0",
        "1000000.1.0 ",
        "1000000.1",
        "1000000.1.0-",
        "1000000.0.0",
        "1.0.1",
        "",
    ] {
        assert!(validate_stable_version(other, 9).is_err(), "{other}");
    }
    assert_eq!(
        validate_stable_version("1000000.10.0", 9).err().as_deref(),
        Some("persisted desired version \"1000000.10.0\" is not a stable release through generation 9")
    );
    assert!(validate_stable_version("x", 9)
        .err()
        .unwrap()
        .starts_with("persisted desired version \"x\" is invalid: "));
    let version = validate_stable_version("1000000.9.0", 9).ok().unwrap();
    assert_eq!((version.major, version.minor, version.patch), (1_000_000, 9, 0));
}

#[test]
fn an_observed_rejection_remains_valid_when_its_recovery_fails() {
    let config = config();
    let mut state = CampaignState::fresh(config.seed);
    state.round = 10;
    state.release_generation = 10;
    state.campaigns = 10;
    state.failed_campaigns = 10;
    state.recoveries = 9;
    state.forward_recoveries = 9;
    state.recovery_pending = true;
    state.consecutive_failures = 10;
    state.release_assignments = 29;
    state.expected_rejections = 1;
    state.last_failure_timestamp = 1;
    set_every_version(&mut state, "1000000.9.0");
    set_count(&mut state, FaultKind::IoError, 1);

    state.validate(&config).unwrap();
}

#[test]
fn forward_recovery_is_newer_than_the_failed_round_and_resumable() {
    let config = config();
    let mut recovered = CampaignState::fresh(config.seed);
    recovered.round = 1;
    recovered.campaigns = 1;
    recovered.failed_campaigns = 1;
    recovered.recoveries = 1;
    recovered.forward_recoveries = 1;
    recovered.release_generation = 2;
    recovered.release_assignments = 3;
    recovered.consecutive_failures = 1;
    recovered.last_failure_timestamp = 1;
    set_every_version(&mut recovered, "1000000.2.0");
    recovered.validate(&config).unwrap();

    let mut pending = recovered;
    pending.round = 2;
    pending.campaigns = 2;
    pending.failed_campaigns = 2;
    pending.recovery_pending = true;
    pending.release_generation = 3;
    pending.recovery_target = Some("1000000.3.0".into());
    pending.consecutive_failures = 2;
    pending.validate(&config).unwrap();

    pending.recovery_target = Some("1000000.2.0".into());
    assert!(pending.validate(&config).is_err());
}

#[test]
fn a_round_that_fails_is_recovered_from_by_a_newer_release() {
    let config = config();
    let mut state = CampaignState::fresh(config.seed);
    let plan = plan_round(state.seed, state.round, 6);
    assert_eq!(state.reserve_generation(), Ok(1));
    state.record_assignment();
    state.record_fault(plan.fault, true, false);
    state.close_round(&plan, false, 5);
    state.validate(&config).unwrap();

    let target = state.begin_recovery().ok().unwrap();
    assert_eq!(target.generation, 2);
    assert!(target.allocated);
    state.validate(&config).unwrap();
    let version = campaign_version_text(target.generation);
    state.finish_recovery(&version, 1.5f64.to_bits()).unwrap();
    state.settle_recovery();
    state.validate(&config).unwrap();
    assert_eq!(state.recoveries, 1);
    assert_eq!(state.forward_recoveries, 1);
    for index in 0..3 {
        assert_eq!(
            find_version(&state.desired, soak_group(index)).as_deref(),
            Some("1000000.2.0")
        );
    }
    assert_eq!(find_version(&state.desired, "elsewhere"), None);
}

#[test]
fn a_copy_of_a_state_is_that_state() {
    let state = successful_state();
    assert_eq!(format!("{:?}", state.copied()), format!("{state:?}"));
    assert!(!starts_fresh(&state));
    assert!(starts_fresh(&CampaignState::fresh(1)));
}

fn settings() -> SoakSettings {
    SoakSettings {
        namespace: None,
        seed: Setting::Absent,
        agent_count: Setting::Absent,
        round_interval: Setting::Absent,
        fault_duration: Setting::Absent,
        convergence_timeout: Setting::Absent,
        release_data: None,
        state_dir: None,
    }
}

#[test]
fn a_campaign_has_defaults() {
    let config = match Config::from_env(settings()) {
        Ok(config) => config,
        Err(_) => panic!("the defaults make a configuration"),
    };
    assert_eq!(config.namespace, "updated-system");
    assert_eq!(config.agent_count, 6);
    assert!(config.validate().is_ok());
    assert_eq!(config.state_path(), "/state/campaign.json");
}

#[test]
fn settings_that_are_wrong_are_named() {
    let mut wrong = settings();
    wrong.agent_count = Setting::Text("many".into());
    assert!(matches!(
        Config::from_env(wrong),
        Err(ConfigError::Setting(_, SettingError::NotAnInteger(reason)))
            if reason == "invalid digit found in string"
    ));
    let mut wrong = settings();
    wrong.agent_count = Setting::Text("100000".into());
    assert!(matches!(
        Config::from_env(wrong),
        Err(ConfigError::Setting(_, SettingError::OutOfRange { value: 100000, .. }))
    ));
    let mut wrong = settings();
    wrong.seed = Setting::Unreadable("not unicode".into());
    assert!(matches!(
        Config::from_env(wrong),
        Err(ConfigError::Setting(_, SettingError::Unreadable(_)))
    ));
    let wrong = SettingError::OutOfRange { value: 2, least: 3, most: 60 };
    assert_eq!(
        write_setting_error("UPDATEC_SOAK_AGENT_COUNT", &wrong),
        "UPDATEC_SOAK_AGENT_COUNT must be in 3..=60, got 2"
    );
    assert_eq!(
        write_setting_error("UPDATEC_SOAK_SEED", &SettingError::Unreadable("not unicode".into())),
        "cannot read UPDATEC_SOAK_SEED: not unicode"
    );
    assert_eq!(
        write_setting_error("X", &SettingError::NotAnInteger("empty".into())),
        "X must be an integer: empty"
    );
    let mut wrong = settings();
    wrong.agent_count = Setting::Text("7".into());
    assert!(matches!(
        Config::from_env(wrong),
        Err(ConfigError::Invalid(_))
    ));
}

#[test]
fn a_request_for_metrics_is_read_up_to_its_blank_line() {
    let mut bytes = Vec::new();
    assert!(matches!(
        read_metrics_request(&mut bytes, &b"GET /metrics HT".to_vec()),
        MetricsRead::ReadOn
    ));
    assert!(matches!(
        read_metrics_request(&mut bytes, &b"TP/1.1\r\n\r\n".to_vec()),
        MetricsRead::Complete
    ));
    assert_eq!(metrics_path(&bytes), Ok("/metrics".to_owned()));

    let mut empty = Vec::new();
    assert!(matches!(
        read_metrics_request(&mut empty, &Vec::new()),
        MetricsRead::Refuse("metrics peer closed before completing headers")
    ));
    let mut long = Vec::new();
    assert!(matches!(
        read_metrics_request(&mut long, &vec![b'a'; METRICS_MAX_REQUEST + 1]),
        MetricsRead::Refuse("metrics request headers exceed the bound")
    ));

    assert_eq!(metrics_path(&vec![0xff]), Err(PathError::NotUtf8));
    assert_eq!(metrics_path(&Vec::new()), Err(PathError::NoRequestLine));
    assert_eq!(metrics_path(&b"GET\r\n\r\n".to_vec()), Err(PathError::NoPath));
}

#[test]
fn the_metrics_server_answers_four_paths() {
    let state = CampaignState::fresh(42);
    let mut metrics = Metrics::from_state(&state, 6, 3);
    let status = |metrics: &Metrics, path: &str| metrics_reply(path, metrics, "0").status;
    assert_eq!(status(&metrics, "/metrics"), "200 OK");
    assert_eq!(status(&metrics, "/healthz"), "200 OK");
    assert_eq!(status(&metrics, "/readyz"), "503 Service Unavailable");
    assert_eq!(status(&metrics, "/elsewhere"), "404 Not Found");
    metrics.finish_bootstrap(&state);
    assert_eq!(status(&metrics, "/readyz"), "200 OK");
    assert_eq!(
        write_metrics_response(&metrics_reply("/healthz", &metrics, "0")),
        "HTTP/1.1 200 OK\r\ncontent-type: text/plain\r\ncontent-length: 3\r\nconnection: close\r\n\r\nok\n"
    );
}

#[test]
fn a_campaign_goes_through_its_phases() {
    let run = Run::new();
    assert_eq!(run.phase, Phase::Lock);
    let run = run.next(Event::Failed).next(Event::Succeeded);
    assert_eq!(run.phase, Phase::Bootstrap);
    let run = run.next(Event::Succeeded);
    assert_eq!(run.phase, Phase::Round);
    let recovering = run.next(Event::Failed);
    assert_eq!(recovering.phase, Phase::Recover);
    assert_eq!(recovering.next(Event::Failed).phase, Phase::Recover);
    assert_eq!(recovering.next(Event::Succeeded).phase, Phase::Rest);
    let stopping = run.next(Event::Signal);
    assert_eq!(stopping.phase, Phase::Round);
    assert_eq!(stopping.next(Event::Succeeded).phase, Phase::CleanUp);
    assert_eq!(stopping.next(Event::Succeeded).next(Event::Succeeded).phase, Phase::Done);
}

#[test]
fn faults_hit_their_targets() {
    let mut plan = plan_round(42, 0, 6);
    plan.round = 12;
    plan.target_ordinal = 4;
    plan.fault = FaultKind::IoError;
    let fault = fault_object(&plan, "updatec-0");
    assert_eq!(fault.name, "soak-round-12");
    assert_eq!(fault.resource_kind, "IOChaos");
    assert_eq!(fault.target, "agent-4");
    assert_eq!(fault.action, FaultAction::FailAccess { errno: 5, percent: 25 });
    assert_eq!(action_word(fault.action), "fault");
    assert!(!needs_controller(&plan));

    plan.fault = FaultKind::ControllerKill;
    assert!(needs_controller(&plan));
    let fault = fault_object(&plan, "updatec-0");
    assert_eq!(fault.target, "updatec-0");
    assert_eq!(action_word(fault.action), "pod-kill");
    assert_eq!(write_fault_name(3), "soak-round-3");
    assert_eq!(fault_selector(), "soak.updated.dev/campaign=managed");
}

#[test]
fn there_is_one_controller() {
    assert_eq!(controller_pod(&vec!["a".into()]), Ok("a".to_owned()));
    assert_eq!(
        controller_pod(&vec![]),
        Err("expected one updatec controller pod, found []".to_owned())
    );
    assert_eq!(
        controller_pod(&vec!["a".into(), "b".into()]),
        Err("expected one updatec controller pod, found [\"a\", \"b\"]".to_owned())
    );
}

#[test]
fn an_injected_fault_says_so() {
    let object = parse_json(
        "{\"status\":{\"conditions\":[{\"type\":\"Selected\",\"status\":\"True\"},{\"type\":\"AllInjected\",\"status\":\"True\"}]}}",
    )
    .unwrap();
    assert!(is_injected(&object));
    let object = parse_json("{\"status\":{\"conditions\":[{\"type\":\"AllInjected\",\"status\":\"False\"}]}}")
        .unwrap();
    assert!(!is_injected(&object));
    assert!(!is_injected(&parse_json("{}").unwrap()));
}

#[test]
fn a_fault_ends_with_its_deletion() {
    assert_eq!(
        next_fault_step(FaultStep::Create, true),
        FaultNext::Go(FaultStep::AwaitInjection)
    );
    assert_eq!(
        next_fault_step(FaultStep::Hold, true),
        FaultNext::Go(FaultStep::Delete)
    );
    assert_eq!(next_fault_step(FaultStep::Delete, true), FaultNext::Finished);
    assert_eq!(
        next_fault_step(FaultStep::AwaitInjection, false),
        FaultNext::Abandon { injected: false }
    );
    assert_eq!(
        next_fault_step(FaultStep::Delete, false),
        FaultNext::Abandon { injected: true }
    );
    assert_eq!(
        not_injected_message("soak-round-1"),
        "Chaos Mesh did not report soak-round-1 injected within 30s"
    );
    assert_eq!(
        not_deleted_message("soak-round-1"),
        "Chaos Mesh did not recover and delete soak-round-1 within 60s"
    );
}

#[test]
fn a_round_reports_both_of_its_errors() {
    assert_eq!(merge_errors(None, None), None);
    assert_eq!(merge_errors(Some("a".into()), None).as_deref(), Some("a"));
    assert_eq!(merge_errors(None, Some("b".into())).as_deref(), Some("b"));
    assert_eq!(
        merge_errors(Some("a".into()), Some("b".into())).as_deref(),
        Some("round assertion failed: a; fault lifecycle also failed: b")
    );
    assert_eq!(outcome_word(true), "failed");
    assert_eq!(outcome_word(false), "succeeded");
    assert_eq!(journal_error(&"x".repeat(3000)).len(), 2048);
}
