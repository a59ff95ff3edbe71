use mirakc::teardown::{StreamTeardown, TeardownAction};

#[test]
fn test_cancel_kills_all_and_releases_once() {
    let mut t = StreamTeardown::new(5, 3);
    assert!(!t.is_finished());
    assert_eq!(
        t.cancel(),
        vec![
            TeardownAction::Kill { stage: 0 },
            TeardownAction::Kill { stage: 1 },
            TeardownAction::Kill { stage: 2 },
            TeardownAction::ReleaseTuner { user_id: 5 },
        ]
    );
    assert!(t.is_finished());
    assert!(t.cancel().is_empty());
}

#[test]
fn test_stage_exit_stops_the_rest() {
    let mut t = StreamTeardown::new(9, 3);
    assert_eq!(
        t.stage_exited(1),
        vec![
            TeardownAction::Kill { stage: 0 },
            TeardownAction::Kill { stage: 2 },
            TeardownAction::ReleaseTuner { user_id: 9 },
        ]
    );
    assert!(t.is_finished());
    assert!(t.stage_exited(0).is_empty());
}

#[test]
fn test_teardown_without_processes() {
    let mut t = StreamTeardown::new(1, 0);
    assert_eq!(t.cancel(), vec![TeardownAction::ReleaseTuner { user_id: 1 }]);
    assert!(t.cancel().is_empty());
}
