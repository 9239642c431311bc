use fleet_drill::demo::state::ChaosState;

/// A restart must not inherit the previous run's completed-epoch count, or whoever waits for the
/// first epoch of the new run sees it at once.
#[test]
fn begin_run_clears_the_previous_runs_completed_epochs() {
    let mut state = ChaosState {
        running: false,
        complete: true,
        completed_epochs: 3,
        seed: 1,
        loop_number: 301,
        epoch: 4,
        error: Some("boom".into()),
        active_broken: vec!["set-0".into()],
        active_valid: vec!["set-1".into()],
        converging: true,
        updated_groups: vec!["set-1".into()],
        rolled_back_groups: vec!["set-0".into()],
        ..Default::default()
    };

    let first_loop = state.begin_run(7);

    assert_eq!(state.completed_epochs, 0);
    assert!(state.running);
    assert!(!state.complete);
    assert_eq!(state.seed, 7);
    assert_eq!(state.error, None);
    assert!(state.active_broken.is_empty());
    assert!(state.active_valid.is_empty());
    assert!(!state.converging);
    assert_eq!(first_loop, 301);
    assert_eq!(state.loop_number, 301);
    assert_eq!(state.epoch, 4);
    assert_eq!(state.updated_groups, vec!["set-1".to_owned()]);
    assert_eq!(state.rolled_back_groups, vec!["set-0".to_owned()]);
}
