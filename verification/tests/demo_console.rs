use fleet_drill::demo::console::{
    add_calendar_date, any_set_frozen, calendar_added_event, calendar_cleared_event, fleet,
    fleet_for_ui, groups, sets, whole_day, AgentRecord, AgentStatus, GroupRecord, SetRecord,
    SetStatus, READYZ_DEBOUNCE_NANOS,
};
use fleet_drill::demo::fleet::{
    fleet_converged, fleet_node_converged, is_cohort_member, FleetNode,
};
use fleet_drill::demo::golden::{
    count_window, latency_at, pool_windows, LoadSample, LoadWindow,
};
use fleet_drill::demo::readiness::{
    endpoints_of_set, look_up, pod_ready, NodeReadiness, PodCondition, ReadinessWatch, SetWarmup,
    WatchEvent,
};
use fleet_drill::demo::layout::READINESS_WATCH_STALE_NANOS;
use fleet_drill::resources::label;

fn agent(node: &str, group: &str) -> AgentRecord {
    AgentRecord {
        resource: format!("resource-{node}"),
        labels: vec![label("demo.updated.dev/node", node)],
        status: Some(AgentStatus {
            selected_group: Some(group.into()),
            reported_version: Some("101.0.0".into()),
            reported_ready: Some(true),
        }),
    }
}

fn ready(node: &str, ready: bool) -> NodeReadiness {
    NodeReadiness {
        node: node.into(),
        ready,
    }
}

#[test]
fn the_fleet_is_listed_by_node() {
    let agents = vec![
        agent("agent-1", "g"),
        agent("agent-0", "g"),
        AgentRecord {
            resource: "unlabelled".into(),
            labels: Vec::new(),
            status: None,
        },
    ];
    let nodes = fleet(&agents, &vec![ready("agent-0", true), ready("agent-1", false)], false);
    let names: Vec<&str> = nodes.iter().map(|node| node.node.as_str()).collect();
    assert_eq!(names, vec!["agent-0", "agent-1"]);
    assert!(nodes[0].in_load_balancer);
    assert!(!nodes[1].in_load_balancer);
    assert_eq!(nodes[1].probe_note.as_deref(), Some("readiness withdrawn (watch)"));
    let stale = fleet(&agents, &vec![ready("agent-0", true)], true);
    assert!(!stale[0].in_load_balancer);
    assert_eq!(
        stale[0].probe_note.as_deref(),
        Some("readiness unknown (watch stalled) — failing closed")
    );
}

#[test]
fn a_short_absence_is_not_shown() {
    let agents = vec![agent("agent-0", "g")];
    let seen = |is_ready: bool| fleet(&agents, &vec![ready("agent-0", is_ready)], false);
    let mut failing = Vec::new();
    let shown = fleet_for_ui(&seen(false), &mut failing, 10);
    assert!(shown[0].in_load_balancer);
    let shown = fleet_for_ui(&seen(false), &mut failing, 9 + READYZ_DEBOUNCE_NANOS);
    assert!(shown[0].in_load_balancer);
    let shown = fleet_for_ui(&seen(false), &mut failing, 10 + READYZ_DEBOUNCE_NANOS);
    assert!(!shown[0].in_load_balancer);
    let shown = fleet_for_ui(&seen(true), &mut failing, 11 + READYZ_DEBOUNCE_NANOS);
    assert!(shown[0].in_load_balancer);
    assert!(failing.is_empty());
}

#[test]
fn groups_are_shown_with_their_nodes() {
    let record = |name: &str, path: &str| GroupRecord {
        name: name.into(),
        labels: vec![label("demo.updated.dev/set", "demo-set-00")],
        match_labels: vec![label("a", "b"), label("c", "d")],
        application_path: path.into(),
    };
    let records = vec![
        record("z", "products/101.0.0/app"),
        record("a", "products/app"),
        record("overlapping-a", "x"),
    ];
    let shown = groups(&records, &vec![agent("agent-1", "z"), agent("agent-0", "z")]);
    assert_eq!(shown.len(), 2);
    assert_eq!(shown[0].name, "a");
    assert_eq!(shown[0].desired_version, "unknown");
    assert_eq!(shown[1].desired_version, "101.0.0");
    assert_eq!(shown[1].set, "demo-set-00");
    assert_eq!(shown[1].selector, "a=b, c=d");
    assert_eq!(shown[1].selected_nodes, vec!["agent-0", "agent-1"]);
}

#[test]
fn sets_are_shown_with_their_calendars() {
    let record = |name: &str, frozen: Option<bool>| SetRecord {
        name: name.into(),
        calendar: vec![whole_day("2026-07-04")],
        status: Some(SetStatus {
            frozen,
            member_count: Some(4),
            rolling_count: None,
        }),
    };
    let shown = sets(&vec![record("b", Some(false)), record("a", None)]);
    assert_eq!(shown[0].name, "a");
    assert_eq!(shown[1].frozen, Some(false));
    assert_eq!(shown[0].calendar[0].end, "24:00");
    assert!(!any_set_frozen(&Some(shown)));
    assert!(!any_set_frozen(&None));
    assert!(any_set_frozen(&Some(sets(&vec![record("b", Some(true))]))));
}

#[test]
fn a_date_is_added_once() {
    let calendar = add_calendar_date(&Vec::new(), "2026-07-04", Ok(())).unwrap();
    let again = add_calendar_date(&calendar, "2026-07-04", Ok(())).unwrap();
    assert_eq!(again.len(), 1);
    assert_eq!(
        (again[0].date.as_str(), again[0].start.as_str(), again[0].end.as_str()),
        ("2026-07-04", "00:00", "24:00")
    );
    assert_eq!(add_calendar_date(&again, "2026-07-05", Ok(())).unwrap().len(), 2);
    assert_eq!(
        add_calendar_date(&again, "tomorrow", Err("not a date".into())).err().as_deref(),
        Some("not a date")
    );
    assert!(calendar_added_event("2026-07-04", "s").contains("2026-07-04"));
    assert!(calendar_cleared_event("s").contains('s'));
}

#[test]
fn only_the_cohorts_converge() {
    let grouped = |group: Option<&str>| {
        let mut found = node(40, "1.0.0", false);
        found.selected_group = group.map(String::from);
        found
    };
    let others = [
        None,
        Some("external"),
        Some("haproxy"),
        Some("magnolia-author"),
        Some("demo-set-00"),
        Some("demo-fleet"),
    ];
    let mut nodes: Vec<FleetNode> = (0..32).map(|ordinal| node(ordinal, "101.0.0", true)).collect();
    for group in others {
        assert!(!is_cohort_member(&grouped(group)), "{group:?}");
        nodes.insert(7, grouped(group));
    }
    for index in 0..16 {
        assert!(is_cohort_member(&grouped(Some(&format!("demo-cohort-{index:02}")))));
    }
    assert!(fleet_converged(&nodes, "101.0.0"));
    nodes.reverse();
    assert!(fleet_converged(&nodes, "101.0.0"));
    nodes.push(node(32, "101.0.0", true));
    assert!(!fleet_converged(&nodes, "101.0.0"));
}

fn node(ordinal: usize, version: &str, healthy: bool) -> FleetNode {
    FleetNode {
        node: format!("agent-{ordinal}"),
        resource: format!("agent-{ordinal}"),
        selected_group: Some(format!("demo-cohort-{:02}", ordinal / 2)),
        version: Some(version.into()),
        kind: None,
        healthy,
        in_load_balancer: true,
        readyz_probe_millis: 0,
        probe_note: None,
    }
}

#[test]
fn a_fleet_converges_only_when_it_is_whole() {
    assert!(fleet_node_converged(&node(0, "101.0.0", true), "101.0.0"));
    assert!(!fleet_node_converged(&node(0, "101.0.0", false), "101.0.0"));
    let mut nodes: Vec<FleetNode> = (0..32).map(|ordinal| node(ordinal, "101.0.0", true)).collect();
    assert!(fleet_converged(&nodes, "101.0.0"));
    nodes.pop();
    assert!(!fleet_converged(&nodes, "101.0.0"));
}

#[test]
fn readiness_follows_the_watch() {
    let mut watch = ReadinessWatch::new(0);
    watch.observe(WatchEvent::ListBegins, 1);
    watch.observe(WatchEvent::Listed("agent-0".into(), true), 2);
    watch.observe(WatchEvent::Listed("agent-1".into(), false), 3);
    assert!(watch.ready_endpoints(3).is_empty());
    watch.observe(WatchEvent::ListEnds, 4);
    assert_eq!(watch.ready_endpoints(4), vec!["agent-0"]);
    assert!(watch.left.is_empty());
    watch.observe(WatchEvent::Changed("agent-0".into(), false), 5);
    assert_eq!(watch.left, vec!["agent-0"]);
    assert!(watch.ready_endpoints(5).is_empty());
    watch.observe(WatchEvent::Changed("agent-0".into(), true), 6);
    assert!(!watch.is_stale(6 + READINESS_WATCH_STALE_NANOS));
    assert!(watch.is_stale(7 + READINESS_WATCH_STALE_NANOS));
    assert!(watch.ready_endpoints(7 + READINESS_WATCH_STALE_NANOS).is_empty());
    watch.observe(WatchEvent::Gone("agent-0".into()), 8);
    assert_eq!(look_up(&watch.readiness, "agent-0"), Some(false));
    watch.observe(WatchEvent::ListBegins, 9);
    watch.reconnect();
    watch.observe(WatchEvent::ListEnds, 10);
    assert_eq!(look_up(&watch.readiness, "agent-1"), Some(false));
    watch.begin_generation();
    assert!(watch.left.is_empty());
}

#[test]
fn a_pod_is_ready_when_it_says_so() {
    let condition = |kind: &str, status: &str| PodCondition {
        kind: kind.into(),
        status: status.into(),
    };
    assert!(pod_ready(&Some(vec![condition("Initialized", "True"), condition("Ready", "True")])));
    assert!(!pod_ready(&Some(vec![condition("Ready", "False")])));
    assert!(!pod_ready(&None));
}

#[test]
fn load_counts_after_a_grace_period() {
    let mut warmup = SetWarmup {
        full_since: None,
        counting: false,
    };
    warmup.look(4, 100_000_000_000);
    warmup.look(3, 105_000_000_000);
    warmup.look(4, 106_000_000_000);
    warmup.look(4, 115_000_000_000);
    assert!(!warmup.counting);
    warmup.look(4, 116_000_000_000);
    assert!(warmup.counting);
    warmup.look(0, 117_000_000_000);
    assert!(warmup.counting);
    let nodes = vec!["agent-0".to_owned(), "agent-4".to_owned(), "other".to_owned()];
    assert_eq!(endpoints_of_set(&nodes, 1), vec!["agent-4"]);
}

#[test]
fn the_golden_signals_cover_the_last_half_minute() {
    let second = 1_000_000_000;
    let sample = |at: u64, ok: bool, latency_ms: u64| LoadSample {
        at: at * second,
        ok,
        latency_ms,
    };
    let mut window = LoadWindow::new();
    window.record(sample(1, true, 9));
    window.record(sample(2, false, 7));
    window.record(sample(32, true, 8));
    let counts = count_window(&window);
    assert_eq!((counts.requests, counts.errors), (2, 1));
    assert_eq!(counts.latencies, vec![7, 8]);
    assert_eq!(counts.oldest, Some(2 * second));
    assert_eq!(latency_at(&counts.latencies, 0), 7);
    assert_eq!(latency_at(&counts.latencies, 5), 8);
    assert_eq!(latency_at(&Vec::new(), 0), 0);
    let mut other = LoadWindow::new();
    other.record(sample(3, true, 1));
    assert_eq!(count_window(&pool_windows(&vec![window, other])).requests, 3);
}
