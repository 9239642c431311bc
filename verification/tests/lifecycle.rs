use fleet_drill::demo::exercise::{
    latest_completed_transaction, scratch_dir_is_abandoned, SCRATCH_SWEEP_MIN_IDLE_SECS,
};
use fleet_drill::e2e;
use fleet_drill::lifecycle::{
    check_markers, check_receipt, lifecycle_attempt_markers, lifecycle_sub_phases,
    missing_sub_phase_markers,
};

#[test]
fn only_a_completed_apply_under_a_deployment_attempt_counts_as_a_transaction() {
    let audit = "\
healthcheck\tboot\tstarted
healthcheck\tboot\tcompleted
apply\ta-1\tstarted
apply\ta-1\tcompleted
healthcheck\tperiodic\tcompleted
inspect\tfingerprint\tcompleted
apply\ta-2\tstarted
";
    assert_eq!(latest_completed_transaction(audit).as_deref(), Some("a-1"));
}

#[test]
fn the_newest_completed_transaction_wins() {
    let audit = "\
apply\ta-1\tcompleted
rollback\ta-1\tcompleted
apply\ta-2\tcompleted
healthcheck\tperiodic\tcompleted
";
    assert_eq!(latest_completed_transaction(audit).as_deref(), Some("a-2"));
}

#[test]
fn an_audit_without_a_completed_transaction_yields_nothing() {
    let audit = "\
apply\ta-1\tstarted
healthcheck\tperiodic\tcompleted
inspect\tfingerprint\tcompleted
";
    assert_eq!(latest_completed_transaction(audit), None);
}

#[test]
fn a_converged_attempt_is_a_transaction_and_a_reserved_one_is_not() {
    let audit = "\
converge\ta-7\tcompleted
converge\tconverge\tcompleted
converge\tboot\tcompleted
apply\ta-9\tcompleted
";
    assert_eq!(
        e2e::releases::latest_completed_transaction(audit).as_deref(),
        Some("a-7")
    );
    assert_eq!(e2e::releases::latest_completed_transaction("converge\ta-1"), None);
}

#[test]
fn a_skipped_sub_phase_is_reported_as_a_missing_marker() {
    let mut markers = lifecycle_sub_phases()
        .iter()
        .map(|phase| format!("{phase}.done"))
        .collect::<Vec<_>>();
    markers.push("generated-install.properties".to_owned());
    markers.push("stopped-process.pid".to_owned());
    assert!(missing_sub_phase_markers(&markers).is_empty());

    markers.retain(|marker| marker != "verify.done" && marker != "drain.done");
    assert_eq!(
        missing_sub_phase_markers(&markers),
        vec!["drain", "verify"],
        "the check must name every skipped sub-phase"
    );
    assert_eq!(
        check_markers("a-1", &markers),
        Err("lifecycle transaction a-1 completed without its ordered sub-phases: missing [\"drain\", \"verify\"]".to_owned())
    );
}

#[test]
fn markers_are_the_lines_of_a_listing() {
    assert_eq!(
        lifecycle_attempt_markers(" drain.done \n\nstop.done\n"),
        vec!["drain.done", "stop.done"]
    );
}

#[test]
fn a_receipt_names_the_green_release() {
    assert_eq!(check_receipt("ticket: green release 22.0.0 ok", "22.0.0"), Ok(()));
    assert_eq!(
        check_receipt("a \"quote\"", "22.0.0"),
        Err("missing lifecycle audit receipt: \"a \\\"quote\\\"\"".to_owned())
    );
}

#[test]
fn only_a_long_idle_scratch_directory_is_swept() {
    assert!(!scratch_dir_is_abandoned(Some(0)));
    assert!(!scratch_dir_is_abandoned(Some(
        SCRATCH_SWEEP_MIN_IDLE_SECS - 1
    )));
    assert!(!scratch_dir_is_abandoned(None));
    assert!(scratch_dir_is_abandoned(Some(SCRATCH_SWEEP_MIN_IDLE_SECS)));
}
