use agent_host::recovery::CrashDetector;

#[test]
fn new_detector_is_empty() {
    let d = CrashDetector::new(5);
    assert_eq!(d.len(), 0);
    assert_eq!(d.failures(), 0);
    assert_eq!(d.consecutive_failures(), 0);
}

#[test]
fn no_rollback_before_window_is_full() {
    let mut d = CrashDetector::new(5);
    for _ in 0..4 {
        d.record(false);
    }
    // four failures in a row, but the window is not full yet
    assert!(!d.should_rollback(3, 5, 3));
}

#[test]
fn rollback_on_failure_rate() {
    let mut d = CrashDetector::new(5);
    for s in [false, true, false, true, false] {
        d.record(s);
    }
    // 3 of 5 failed: 60% reaches the threshold; streak is 1
    assert_eq!(d.failures(), 3);
    assert_eq!(d.consecutive_failures(), 1);
    assert!(d.should_rollback(3, 5, 3));
    // a 70% threshold is not reached
    assert!(!d.should_rollback(7, 10, 3));
}

#[test]
fn rollback_on_failure_streak() {
    let mut d = CrashDetector::new(5);
    for s in [true, true, false, false, false] {
        d.record(s);
    }
    assert_eq!(d.consecutive_failures(), 3);
    // rate is 60% as well; with a 90% threshold only the streak counts
    assert!(d.should_rollback(9, 10, 3));
    assert!(!d.should_rollback(9, 10, 4));
}

#[test]
fn success_resets_streak() {
    let mut d = CrashDetector::new(5);
    d.record(false);
    d.record(false);
    assert_eq!(d.consecutive_failures(), 2);
    d.record(true);
    assert_eq!(d.consecutive_failures(), 0);
}

#[test]
fn window_slides_out_old_failures() {
    let mut d = CrashDetector::new(5);
    for _ in 0..5 {
        d.record(false);
    }
    assert!(d.should_rollback(3, 5, 3));
    for _ in 0..5 {
        d.record(true);
    }
    assert_eq!(d.len(), 5);
    assert_eq!(d.failures(), 0);
    assert!(!d.should_rollback(3, 5, 3));
}

#[test]
fn zero_sized_window_uses_streak_only() {
    let mut d = CrashDetector::new(0);
    d.record(false);
    assert_eq!(d.len(), 0);
    assert!(!d.should_rollback(0, 1, 2));
    d.record(false);
    assert!(d.should_rollback(0, 1, 2));
}

#[test]
fn history_keeps_last_outcomes_and_trailing_streak() {
    let mut d = CrashDetector::new(3);
    for ok in [false, false, true, false, false, false, false] {
        d.record(ok);
    }
    assert_eq!(d.len(), 3);
    assert_eq!(d.failures(), 3);
    // the streak runs past the window's size
    assert_eq!(d.consecutive_failures(), 4);
}
