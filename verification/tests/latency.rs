use fastlane::latency::{LatencyHistogram, LatencySample};
use std::time::{Duration, Instant};

fn histogram(latencies: &[u64]) -> LatencyHistogram {
    LatencyHistogram {
        samples: latencies
            .iter()
            .map(|&us| LatencySample { latency_us: us, timestamp: Instant::now() })
            .collect(),
        frame_size: 128,
        duration: Duration::from_secs(1),
    }
}

/// The percentile as the rank it stands for among `n` samples.
fn rank(pct: f64, n: usize) -> usize {
    (pct / 100.0 * n as f64) as usize
}

/// The average latency, from the sum and the count.
fn avg(h: &LatencyHistogram) -> Option<f64> {
    if h.samples.is_empty() {
        None
    } else {
        Some(h.total_latency_us().unwrap() as f64 / h.samples.len() as f64)
    }
}

/// The standard deviation of the latencies, around the average.
fn stddev(h: &LatencyHistogram) -> Option<f64> {
    let avg = avg(h)?;
    let variance: f64 = h
        .samples
        .iter()
        .map(|s| {
            let diff = s.latency_us as f64 - avg;
            diff * diff
        })
        .sum::<f64>()
        / h.samples.len() as f64;
    Some(variance.sqrt())
}

#[test]
fn test_histogram_empty() {
    let histo = LatencyHistogram {
        samples: vec![],
        frame_size: 64,
        duration: Duration::from_secs(1),
    };
    assert!(histo.min().is_none());
    assert!(histo.max().is_none());
    assert!(avg(&histo).is_none());
    assert!(stddev(&histo).is_none());
    assert!(histo.latency_at(rank(50.0, histo.samples.len())).is_none());
    assert_eq!(histo.quartiles(), (0, 0, 0));
}

#[test]
fn test_histogram_stats() {
    let histo = histogram(&[10, 20, 30, 40, 50]);
    assert_eq!(histo.min(), Some(10));
    assert_eq!(histo.max(), Some(50));
    assert_eq!(avg(&histo), Some(30.0));
    assert_eq!(stddev(&histo), Some(200.0f64.sqrt()));
    assert_eq!(histo.latency_at(rank(50.0, histo.samples.len())), Some(30));
}

#[test]
fn unsorted_samples_stats() {
    let histo = histogram(&[40, 10, 50, 30, 20, 10]);
    assert_eq!(histo.min(), Some(10));
    assert_eq!(histo.max(), Some(50));
    assert_eq!(histo.total_latency_us(), Some(160));
    assert_eq!(histo.latency_at(0), Some(10));
    assert_eq!(histo.latency_at(1), Some(10));
    assert_eq!(histo.latency_at(2), Some(20));
    assert_eq!(histo.latency_at(5), Some(50));
    assert_eq!(histo.latency_at(100), Some(50));
    // n = 6: ranks 1, 3 and 4
    assert_eq!(histo.quartiles(), (10, 30, 40));
}

#[test]
fn quartiles_single_sample() {
    assert_eq!(histogram(&[7]).quartiles(), (7, 7, 7));
}

#[test]
fn total_latency_overflow() {
    assert_eq!(histogram(&[u64::MAX, 1]).total_latency_us(), None);
    assert_eq!(histogram(&[u64::MAX - 1, 1]).total_latency_us(), Some(u64::MAX));
}
