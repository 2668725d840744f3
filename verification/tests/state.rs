use musicsync::state::{LoginThrottle, LOCKOUT_MS, MAX_FAILURES};

#[test]
fn throttle_allows_until_max_failures() {
    let now: u64 = 1_000_000;
    let mut t = LoginThrottle::default();
    for _ in 0..MAX_FAILURES - 1 {
        t.record_failure(now);
        assert!(t.remaining(now).is_none());
    }
    t.record_failure(now);
    assert!(t.remaining(now).is_some(), "5th failure must lock out");
}

#[test]
fn throttle_expires_and_resets() {
    let now: u64 = 1_000_000;
    let mut t = LoginThrottle::default();
    for _ in 0..MAX_FAILURES {
        t.record_failure(now);
    }
    let later = now + LOCKOUT_MS + 1_000;
    assert!(t.remaining(later).is_none(), "lockout must expire");

    t.record_failure(later);
    assert!(t.remaining(later).is_none());
}

#[test]
fn throttle_reset_clears_lockout() {
    let now: u64 = 1_000_000;
    let mut t = LoginThrottle::default();
    for _ in 0..MAX_FAILURES {
        t.record_failure(now);
    }
    t.reset();
    assert!(t.remaining(now).is_none());
}

#[test]
fn lockout_reports_the_time_left() {
    let mut t = LoginThrottle::default();
    for _ in 0..MAX_FAILURES {
        t.record_failure(10_000);
    }
    assert_eq!(t.remaining(10_000), Some(30_000));
    assert_eq!(t.remaining(25_000), Some(15_000));
    assert_eq!(t.remaining(40_000), None);
}

#[test]
fn the_cool_down_only_runs_down_and_ends_after_thirty_seconds() {
    let mut t = LoginThrottle::default();
    for now in [0u64, 100, 200, 300, 400] {
        t.record_failure(now);
    }
    assert_eq!(t.remaining(400), Some(LOCKOUT_MS));
    assert_eq!(t.remaining(10_400), Some(LOCKOUT_MS - 10_000));
    assert_eq!(t.remaining(30_399), Some(1));
    assert_eq!(t.remaining(30_400), None);
    assert_eq!(t.remaining(1_000_000), None);
}

#[test]
fn a_reset_throttle_behaves_as_new() {
    let now: u64 = 5_000;
    let mut t = LoginThrottle::default();
    for _ in 0..MAX_FAILURES {
        t.record_failure(now);
    }
    t.reset();
    assert_eq!(t, LoginThrottle::default());
    assert_eq!(t.remaining(0), None);
    for _ in 0..MAX_FAILURES - 1 {
        t.record_failure(now);
    }
    assert_eq!(t.remaining(now), None);
    t.record_failure(now);
    assert_eq!(t.remaining(now), Some(LOCKOUT_MS));
}
