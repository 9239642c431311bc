use fleet_drill::e2e::haproxy::{
    backend_servers, count_answers, drive_haproxy_upgrade, haproxy_cfg, is_observing,
    is_reexecuted, probe_summary, requests_so_far,
};
use fleet_drill::e2e::metrics::{
    complain_of_controller, complain_of_healthproxy, judge_controller, judge_healthproxy, samples,
    MetricsFault, Reading,
};
use fleet_drill::e2e::probe::{judge_body, Probe, Summary};

fn read(text: &str, name: &str) -> Vec<(String, f64)> {
    samples(text, name)
        .into_iter()
        .filter_map(|sample| {
            let value: Result<f64, _> = sample.value.parse();
            value.ok().map(|value| (sample.labels, value))
        })
        .collect()
}

#[test]
fn a_declared_but_empty_series_yields_no_samples() {
    let empty =
        "# HELP updatec_group_progress One-hot projection of the planner verdict per group.\n\
         # TYPE updatec_group_progress gauge\n";
    assert!(empty.contains("updatec_group_progress"));
    assert!(samples(empty, "updatec_group_progress").is_empty());
}

#[test]
fn samples_read_values_and_do_not_match_a_longer_series_name() {
    let text = "# TYPE updatec_reports_fresh gauge\n\
                updatec_reports_fresh 34\n\
                updatec_reports_fresh_total 999\n\
                updatec_group_progress{group=\"cohort-00\",state=\"settled\"} 1\n\
                updatec_group_progress{group=\"cohort-00\",state=\"failed\"} 0\n";
    assert_eq!(
        read(text, "updatec_reports_fresh"),
        vec![(String::new(), 34.0)]
    );
    assert_eq!(
        read(text, "updatec_group_progress"),
        vec![
            (
                "{group=\"cohort-00\",state=\"settled\"}".to_owned(),
                1.0
            ),
            ("{group=\"cohort-00\",state=\"failed\"}".to_owned(), 0.0),
        ]
    );
}

fn reading(value: f64) -> Reading {
    Reading {
        labels: String::new(),
        below_one: value < 1.0,
        is_one: value == 1.0,
        above_zero: value > 0.0,
        covers_fleet: value >= 32.0,
        shown: format!("{value:?}"),
    }
}

fn readings(values: &[f64]) -> Vec<Reading> {
    values.iter().map(|value| reading(*value)).collect()
}

#[test]
fn an_exposition_is_judged_by_its_values() {
    let groups = readings(&[1.0; 16]);
    assert_eq!(
        judge_controller(&readings(&[3.0]), &readings(&[34.0]), &groups),
        None
    );
    assert_eq!(
        judge_controller(&readings(&[]), &readings(&[34.0]), &groups),
        Some(MetricsFault::NoGeneration)
    );
    assert_eq!(
        judge_controller(&readings(&[0.0]), &readings(&[34.0]), &groups),
        Some(MetricsFault::NoGeneration)
    );
    assert_eq!(
        judge_controller(&readings(&[3.0]), &readings(&[31.0]), &groups),
        Some(MetricsFault::FewReports)
    );
    assert_eq!(
        judge_controller(&readings(&[3.0]), &readings(&[34.0]), &readings(&[1.0, 0.0])),
        Some(MetricsFault::FewVerdicts(1))
    );
    let backends = |up: f64| {
        let mut down = reading(4.0);
        down.labels = "{state=\"down\"}".into();
        let mut found = reading(up);
        found.labels = "{state=\"up\"}".into();
        vec![down, found]
    };
    assert_eq!(judge_healthproxy(&backends(2.0), &readings(&[5.0])), None);
    assert_eq!(
        judge_healthproxy(&backends(0.0), &readings(&[5.0])),
        Some(MetricsFault::NoBackend)
    );
    assert_eq!(
        judge_healthproxy(&readings(&[2.0]), &readings(&[5.0])),
        Some(MetricsFault::NoBackend)
    );
    assert_eq!(
        judge_healthproxy(&backends(2.0), &readings(&[0.0])),
        Some(MetricsFault::NeverRead)
    );
}

#[test]
fn an_exposition_is_complained_of_with_its_readings() {
    let groups = readings(&[1.0; 16]);
    let controller = |generations: &[f64], fresh: &[f64], progress: &[f64]| {
        complain_of_controller(&readings(generations), &readings(fresh), &readings(progress))
    };
    assert_eq!(complain_of_controller(&readings(&[3.0]), &readings(&[34.0]), &groups), None);
    assert_eq!(
        controller(&[], &[34.0], &[]).as_deref(),
        Some("controller exposition carries no published generation: []")
    );
    assert_eq!(
        controller(&[3.0], &[31.0, 2.0], &[]).as_deref(),
        Some("controller exposition reports fewer than the fleet's 32 fresh reports: [(\"\", 31.0), (\"\", 2.0)]")
    );
    assert_eq!(
        controller(&[3.0], &[34.0], &[1.0, 0.0]).as_deref(),
        Some("controller exposition projects a verdict for 1 groups, not the fleet's 16: [(\"\", 1.0), (\"\", 0.0)]")
    );
    let mut up = reading(0.0);
    up.labels = "{state=\"up\"}".into();
    assert_eq!(
        complain_of_healthproxy(&vec![up], &readings(&[5.0])).as_deref(),
        Some("healthproxy exposition programs no ready backend (state=\"up\" is Some(0.0))")
    );
    assert_eq!(
        complain_of_healthproxy(&Vec::new(), &readings(&[5.0])).as_deref(),
        Some("healthproxy exposition programs no ready backend (state=\"up\" is None)")
    );
    let mut up = reading(2.0);
    up.labels = "{state=\"up\"}".into();
    assert_eq!(
        complain_of_healthproxy(&vec![up], &readings(&[0.0])).as_deref(),
        Some("healthproxy exposition never observed the document behind healthproxy_reports_timestamp_seconds: [(\"\", 0.0)]")
    );
}

fn numbers(summary: &Summary) -> (u64, u64, u64, &str) {
    (
        summary.total,
        summary.failed,
        summary.max_gap_ms,
        summary.first_failure.as_str(),
    )
}

#[test]
fn the_last_cumulative_summary_line_is_authoritative() {
    let emitted = Summary {
        total: 400,
        failed: 1,
        max_gap_ms: 900,
        first_failure: "request 37: status 503".into(),
    };
    let earlier = Summary {
        total: 10,
        failed: 0,
        max_gap_ms: 40,
        first_failure: String::new(),
    };
    let logs = format!(
        "{}\nstarting up noise\n{}\n",
        earlier.to_line(),
        emitted.to_line(),
    );
    let found = Summary::from_logs(&logs).unwrap();
    assert_eq!(numbers(&found), numbers(&emitted));
    assert!(Summary::from_logs("no summaries at all\n").is_none());
}

#[test]
fn a_summary_is_one_line_of_json() {
    let summary = Summary {
        total: 1,
        failed: 1,
        max_gap_ms: 2,
        first_failure: "a \"b\"\n".into(),
    };
    let line = summary.to_line();
    assert!(!line.contains('\n'));
    let document: serde_json::Value = serde_json::from_str(&line).unwrap();
    assert_eq!(document["total"].as_u64(), Some(1));
    assert_eq!(document["first_failure"].as_str(), Some("a \"b\"\n"));
}

#[test]
fn a_probe_counts_requests_failures_and_gaps() {
    let second = 1_000_000_000;
    let mut probe = Probe::new(0);
    probe.count(Ok(()), second / 10);
    assert!(probe.summarize(second / 4).is_none());
    probe.count(Err("status 503".into()), second / 5);
    probe.count(Err("status 500".into()), second / 4);
    let summary = probe.summarize(second).unwrap();
    assert_eq!(
        numbers(&summary),
        (3, 2, 900, "request 2: status 503")
    );
    assert!(probe.summarize(second + 1).is_none());
}

#[test]
fn a_response_must_say_something() {
    assert_eq!(judge_body(&b"running 1.0.0".to_vec()), Ok(()));
    assert_eq!(
        judge_body(&b" \n".to_vec()),
        Err("empty response body".to_owned())
    );
    assert_eq!(
        judge_body(&vec![0xff]),
        Err("response body is not UTF-8".to_owned())
    );
}

fn summary(total: u64, failed: u64, max_gap_ms: u64) -> Option<Summary> {
    Some(Summary {
        total,
        failed,
        max_gap_ms,
        first_failure: String::new(),
    })
}

#[test]
fn an_upgrade_may_lose_no_request() {
    assert_eq!(
        drive_haproxy_upgrade("Running\n", &summary(1000, 0, 100), 500),
        Ok(500)
    );
    let error = |phase: &str, summary: Option<Summary>| {
        drive_haproxy_upgrade(phase, &summary, 500).unwrap_err()
    };
    assert_eq!(
        error("Failed", summary(1000, 0, 100)),
        "the load probe pod is Failed and not Running, so its summary does not cover the re-exec it would certify"
    );
    assert_eq!(
        error("Running", None),
        "the load probe emitted no summary to judge the upgrade by"
    );
    assert_eq!(
        error("Running", summary(600, 1, 100)),
        "the load probe recorded too few samples (100 of 600) after the group was patched to judge the upgrade"
    );
    assert_eq!(
        error("Running", summary(1000, 1, 100)),
        "HAProxy upgrade dropped traffic: 1/1000 requests failed (first: )"
    );
    assert_eq!(
        error("Running", summary(1000, 0, 2001)),
        "HAProxy upgrade stalled the front for 2001ms (bound 2000ms) even though no request failed outright"
    );
    assert!(is_observing(&summary(1, 0, 0)));
    assert!(!is_observing(&None));
    assert_eq!(requests_so_far(&summary(7, 0, 0)), 7);
    assert_eq!(requests_so_far(&None), 0);
    assert!(probe_summary(&None).is_none());
}

#[test]
fn a_front_is_back_after_ten_answers_in_a_row() {
    let mut answers = 0;
    for _ in 0..10 {
        assert!(!is_reexecuted(answers));
        answers = count_answers(answers, " haproxy 2.0.0\n");
    }
    assert!(is_reexecuted(answers));
    assert_eq!(count_answers(answers, "haproxy 1.0.0"), 0);
}

#[test]
fn the_balancer_lists_the_agents_outside_the_sets() {
    let servers = backend_servers();
    assert_eq!(servers.len(), 2);
    assert_eq!(servers[0].address, "agent-32.agents:8080");
    let text = haproxy_cfg("1.0.0", &servers);
    for server in &servers {
        assert!(text.contains(&server.address));
    }
    let none = haproxy_cfg("1.0.0", &Vec::new());
    assert!(none.ends_with("\nbackend fleet\n"));
    let lines: String = servers
        .iter()
        .map(|server| format!("    server {} {}\n", server.node, server.address))
        .collect();
    assert_eq!(text, format!("{none}{lines}"));
    assert_eq!(
        text.replace("lf-string \"haproxy 1.0.0\"", "lf-string \"haproxy 2.0.0\""),
        haproxy_cfg("2.0.0", &servers)
    );
    assert_eq!(text, fleet_drill::demo::haproxy::haproxy_cfg("1.0.0", &servers));
}
