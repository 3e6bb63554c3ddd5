use std::collections::VecDeque;

use dashboard::model::CompletionEntry;
use dashboard::throughput::{rate_milli_per_min, ArtifactRecord, ThroughputTracker};

fn rec(path: &str, modified_ms: u64, success: bool) -> ArtifactRecord {
    ArtifactRecord {
        path: path.to_string(),
        modified_ms,
        success,
        time: format!("t{}", modified_ms),
        spec_name: path.rsplit('/').next().unwrap().to_string(),
    }
}

#[test]
fn rate_needs_two_instants() {
    assert_eq!(rate_milli_per_min(&VecDeque::new(), 1_000_000), 0);
    assert_eq!(rate_milli_per_min(&VecDeque::from(vec![999_000]), 1_000_000), 0);
}

#[test]
fn rate_of_two_completions_thirty_seconds_apart() {
    // 2 completions over half a minute: 4 per minute
    assert_eq!(rate_milli_per_min(&VecDeque::from(vec![970_000, 1_000_000]), 1_000_000), 4_000);
}

#[test]
fn rate_with_oldest_in_the_future_counts_one_second() {
    assert_eq!(rate_milli_per_min(&VecDeque::from(vec![2_000_000, 2_000_000]), 1_000_000), 120_000);
    assert_eq!(rate_milli_per_min(&VecDeque::from(vec![1_000_000, 1_000_000]), 1_000_000), 0);
}

#[test]
fn tracker_window_and_rate() {
    let mut t = ThroughputTracker::new(300, 10);
    assert!(t.record(rec("/r/a", 970_000, true)));
    assert!(t.record(rec("/r/b", 1_000_000, false)));
    // 301 s before now: outside the window
    assert!(t.record(rec("/r/old", 699_000, true)));
    let snap = t.refresh(1_000_000);
    assert_eq!(t.timestamps, vec![970_000, 1_000_000]);
    assert_eq!(snap.rate_milli_per_min, 4_000);
    assert_eq!(snap.total, 3);
    assert_eq!(snap.success, 2);
    assert_eq!(snap.failure, 1);
    assert!(snap.enabled);
    // exactly at the edge of the window stays
    let mut t2 = ThroughputTracker::new(300, 10);
    t2.record(rec("/r/x", 700_000, true));
    t2.refresh(1_000_000);
    assert_eq!(t2.timestamps, vec![700_000]);
}

#[test]
fn tracker_counts_each_artifact_once() {
    let mut t = ThroughputTracker::new(60, 5);
    assert!(t.record(rec("/r/a", 10, true)));
    assert!(!t.record(rec("/r/a", 20, false)));
    assert!(t.has_seen(&"/r/a".to_string()));
    let snap = t.refresh(30);
    assert_eq!(snap.total, 1);
    assert_eq!(snap.success, 1);
    assert_eq!(snap.failure, 0);
    assert_eq!(snap.total, snap.success + snap.failure);
}

#[test]
fn recent_list_is_newest_first_and_bounded() {
    let mut t = ThroughputTracker::new(3600, 2);
    t.record(rec("/r/b", 200, true));
    t.record(rec("/r/c", 300, false));
    t.record(rec("/r/a", 100, true));
    t.record(rec("/r/d", 300, true));
    let snap = t.refresh(400);
    assert_eq!(
        snap.recent,
        vec![
            CompletionEntry { time: "t300".to_string(), spec_name: "c".to_string(), success: false },
            CompletionEntry { time: "t300".to_string(), spec_name: "d".to_string(), success: true },
        ]
    );
    assert_eq!(t.timestamps, vec![100, 200, 300, 300]);
    assert_eq!(snap.total, 4);
}

#[test]
fn total_never_decreases() {
    let mut t = ThroughputTracker::new(1, 1);
    let mut last = 0;
    for (i, now) in [5u64, 10_000, 20_000].iter().enumerate() {
        t.record(rec(&format!("/r/{}", i), *now, i % 2 == 0));
        let snap = t.refresh(*now + 5_000);
        assert!(snap.total >= last);
        last = snap.total;
    }
    assert_eq!(last, 3);
    assert!(t.timestamps.is_empty());
}
