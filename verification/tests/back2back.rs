use fastlane::back2back::{calc_back2back_threshold, TrialOutcome};

fn trial(passed: bool, tx: u64, rx: u64) -> TrialOutcome {
    TrialOutcome { passed, tx_packets: tx, rx_packets: rx }
}

#[test]
fn test_calc_threshold_all_passed() {
    let trials = vec![trial(true, 100, 100), trial(true, 200, 200)];
    let threshold = calc_back2back_threshold(64, &trials);
    assert_eq!(threshold, Some(200));
}

#[test]
fn test_calc_threshold_first_fail() {
    let trials = vec![trial(true, 100, 100), trial(false, 200, 195)];
    let threshold = calc_back2back_threshold(64, &trials);
    assert_eq!(threshold, Some(100));
}

#[test]
fn threshold_no_trials() {
    assert_eq!(calc_back2back_threshold(64, &[]), None);
}

#[test]
fn threshold_first_trial_failed() {
    // Loss appears at the first burst: that burst is the threshold.
    let trials = vec![trial(false, 100, 90), trial(true, 200, 200)];
    assert_eq!(calc_back2back_threshold(64, &trials), Some(100));
}

#[test]
fn threshold_ignores_trials_after_first_loss() {
    let trials = vec![
        trial(true, 100, 100),
        trial(true, 200, 200),
        trial(false, 300, 290),
        trial(true, 400, 400),
    ];
    assert_eq!(calc_back2back_threshold(1518, &trials), Some(200));
}

use fastlane::back2back::BurstSearch;

#[test]
fn burst_search_grows_and_shrinks() {
    let mut s = BurstSearch::new(1000);
    s.record(true);
    assert_eq!(s, BurstSearch { burst_size: 1100, max_burst: 1000, passed_trials: 1 });
    s.record(true);
    assert_eq!(s, BurstSearch { burst_size: 1200, max_burst: 1100, passed_trials: 2 });
    s.record(false);
    assert_eq!(s, BurstSearch { burst_size: 1100, max_burst: 1100, passed_trials: 2 });
    s.record(true);
    assert_eq!(s, BurstSearch { burst_size: 1200, max_burst: 1100, passed_trials: 3 });
}

#[test]
fn burst_search_single_frame_does_not_shrink() {
    let mut s = BurstSearch::new(1);
    assert!(s.record_allowed(false));
    s.record(false);
    assert_eq!(s.burst_size, 1);
}

#[test]
fn burst_search_limits() {
    assert!(!BurstSearch::new(50).record_allowed(false));
    assert!(BurstSearch::new(50).record_allowed(true));
    assert!(!BurstSearch::new(u64::MAX - 99).record_allowed(true));
    assert!(BurstSearch::new(u64::MAX - 100).record_allowed(true));
}
