// Frame loss percentage, (sent - received) / sent * 100, as the frame loss
// test reports it.

#[test]
fn test_frameloss_pct_calculation() {
    let tx: u64 = 1000;
    let rx: u64 = 990;
    let frameloss_pct = (tx as f64 - rx as f64) / (tx as f64) * 100.0;
    assert!((frameloss_pct - 1.0).abs() < 0.01);
}

#[test]
fn test_zero_frameloss() {
    let tx: u64 = 1000;
    let rx: u64 = 1000;
    let frameloss_pct = (tx as f64 - rx as f64) / (tx as f64) * 100.0;
    assert_eq!(frameloss_pct, 0.0);
}

#[test]
fn test_full_frameloss() {
    let tx: u64 = 1000;
    let rx: u64 = 0;
    let frameloss_pct = (tx as f64 - rx as f64) / (tx as f64) * 100.0;
    assert_eq!(frameloss_pct, 100.0);
}

use fastlane::frameloss::{frame_totals, frames_lost, FrameCount, LossSeries, StopRule};

#[test]
fn first_loss_free_trial_stops() {
    let mut s = LossSeries::new(StopRule::FirstLossFree);
    assert!(!s.record(FrameCount { sent: 1000, received: 990 }));
    assert!(s.record(FrameCount { sent: 1000, received: 1000 }));
}

#[test]
fn ratio_method_needs_two_loss_free_trials_in_a_row() {
    let mut s = LossSeries::new(StopRule::TwoLossFreeInARow);
    assert!(!s.record(FrameCount { sent: 1000, received: 1000 }));
    assert!(!s.record(FrameCount { sent: 1000, received: 999 }));
    assert!(!s.record(FrameCount { sent: 1000, received: 1000 }));
    assert!(s.record(FrameCount { sent: 1000, received: 1000 }));
}

#[test]
fn lost_and_totals() {
    assert_eq!(frames_lost(FrameCount { sent: 1000, received: 990 }), 10);
    let counts = [
        FrameCount { sent: 1000, received: 990 },
        FrameCount { sent: 500, received: 500 },
    ];
    assert_eq!(frame_totals(&counts), Some((1500, 1490)));
    assert_eq!(frame_totals(&[]), Some((0, 0)));
    let big = [
        FrameCount { sent: u64::MAX, received: 0 },
        FrameCount { sent: 1, received: 0 },
    ];
    assert_eq!(frame_totals(&big), None);
}
