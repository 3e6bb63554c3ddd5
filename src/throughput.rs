//! Counting completed artifacts and their rate over a sliding window.

use std::collections::VecDeque;
use vstd::prelude::*;
use crate::model::{CompletionEntry, ThroughputSnapshot};
use crate::number::clamp_u64;
use crate::sessions::{contains_id, listed};

verus! {

/// A completed artifact found on disk, with what was read about it.
#[derive(Clone, Debug, PartialEq, Eq)]
pub struct ArtifactRecord {
    /// Path of the artifact's directory; identifies it across scans.
    pub path: String,
    /// When the completion marker was written, in milliseconds since the epoch.
    pub modified_ms: u64,
    /// Whether the verification marker reported overall success.
    pub success: bool,
    /// Local time of day of `modified_ms`, for display.
    pub time: String,
    /// Name of the artifact's directory.
    pub spec_name: String,
}

/// Instants in non-decreasing order.
pub open spec fn ascending(s: Seq<u64>) -> bool {
    forall|i: int, j: int| 0 <= i < j < s.len() ==> s[i] <= s[j]
}

/// Entries in non-increasing order of their instants.
pub open spec fn newest_first(s: Seq<(u64, CompletionEntry)>) -> bool {
    forall|i: int, j: int| 0 <= i < j < s.len() ==> s[i].0 >= s[j].0
}

/// No path occurs twice.
pub open spec fn distinct_paths(s: Seq<String>) -> bool {
    forall|i: int, j: int| 0 <= i < j < s.len() ==> s[i]@ != s[j]@
}

/// Whether an instant lies within `window` milliseconds before `now`
/// (instants after `now` count as inside).
pub open spec fn in_window(t: int, now: int, window: int) -> bool {
    now - t <= window
}

/// Completions per minute, in thousandths, of the instants `ts` (oldest
/// first) as seen at `now`: none below two instants; otherwise their number
/// over the minutes since the oldest, where an oldest instant after `now`
/// counts as one second ago.
pub open spec fn window_rate(ts: Seq<u64>, now: int) -> int {
    if ts.len() < 2 {
        0
    } else {
        let elapsed = if now >= ts[0] {
            now - ts[0]
        } else {
            1000
        };
        if elapsed == 0 {
            0
        } else {
            (ts.len() as int) * 60_000_000 / elapsed
        }
    }
}

/// The first `n` entries, without their instants.
pub open spec fn recent_entries(es: Seq<(u64, CompletionEntry)>, n: int) -> Seq<CompletionEntry> {
    let k = if n < es.len() {
        n
    } else {
        es.len() as int
    };
    es.take(k).map_values(|e: (u64, CompletionEntry)| e.1)
}

/// State of the throughput collector over the life of the process.
pub struct ThroughputTracker {
    /// Directories already counted.
    pub seen: Vec<String>,
    /// Completion instants still inside the window, oldest first.
    pub timestamps: VecDeque<u64>,
    /// Every completion counted, newest first.
    pub entries: Vec<(u64, CompletionEntry)>,
    pub total: usize,
    pub success: usize,
    pub failure: usize,
    pub window_ms: u64,
    pub recent_count: usize,
}

impl ThroughputTracker {
    /// The tracker's invariant.
    pub open spec fn wf(&self) -> bool {
        &&& self.total == self.seen@.len()
        &&& self.success + self.failure == self.total
        &&& self.entries@.len() == self.total
        &&& distinct_paths(self.seen@)
        &&& ascending(self.timestamps@)
        &&& newest_first(self.entries@)
    }

    /// An empty tracker with a window of `window_secs` seconds that shows the
    /// `recent_count` newest completions.
    pub fn new(window_secs: u64, recent_count: usize) -> (r: Self)
        requires
            window_secs <= u64::MAX / 1000,
        ensures
            r.wf(),
            r.total == 0,
            r.timestamps@.len() == 0,
            r.window_ms == window_secs * 1000,
            r.recent_count == recent_count,
    {
        ThroughputTracker {
            seen: Vec::new(),
            timestamps: VecDeque::new(),
            entries: Vec::new(),
            total: 0,
            success: 0,
            failure: 0,
            window_ms: window_secs * 1000,
            recent_count,
        }
    }

    /// Whether the artifact at `path` has been counted already.
    pub fn has_seen(&self, path: &String) -> (r: bool)
        ensures
            r == listed(self.seen@, path@),
    {
        contains_id(&self.seen, path)
    }

    /// Counts a completed artifact once: a path already counted changes nothing.
    /// Returns whether it was counted now.
    pub fn record(&mut self, rec: ArtifactRecord) -> (counted: bool)
        requires
            old(self).wf(),
        ensures
            final(self).wf(),
            counted == !listed(old(self).seen@, rec.path@),
            final(self).total >= old(self).total,
            final(self).total == final(self).success + final(self).failure,
            !counted ==> *final(self) == *old(self),
            counted ==> {
                &&& final(self).seen@ == old(self).seen@.push(rec.path)
                &&& final(self).total == old(self).total + 1
                &&& final(self).success == old(self).success + if rec.success { 1int } else { 0 }
                &&& final(self).failure == old(self).failure + if rec.success { 0int } else { 1 }
                &&& exists|p: int|
                    0 <= p <= old(self).timestamps@.len() && final(self).timestamps@
                        == old(self).timestamps@.insert(p, rec.modified_ms)
                &&& exists|p: int|
                    0 <= p <= old(self).entries@.len() && final(self).entries@
                        == old(self).entries@.insert(
                        p,
                        (
                            rec.modified_ms,
                            CompletionEntry {
                                time: rec.time,
                                spec_name: rec.spec_name,
                                success: rec.success,
                            },
                        ),
                    )
            },
            final(self).window_ms == old(self).window_ms,
            final(self).recent_count == old(self).recent_count,
    {
        if self.has_seen(&rec.path) {
            return false;
        }
        let t = rec.modified_ms;
        let ghost old_seen = self.seen@;
        self.seen.push(rec.path);
        proof {
            assert forall|i: int, j: int|
                0 <= i < j < self.seen@.len() implies self.seen@[i]@ != self.seen@[j]@ by {
                if j == old_seen.len() {
                    assert(self.seen@[i] == old_seen[i]);
                }
            }
        }
        self.total = self.seen.len();
        if rec.success {
            self.success = self.success + 1;
        } else {
            self.failure = self.failure + 1;
        }

        // Oldest first: after every instant not later than `t`.
        let mut p: usize = 0;
        while p < self.timestamps.len() && self.timestamps[p] <= t
            invariant
                0 <= p <= self.timestamps@.len(),
                forall|i: int| 0 <= i < p ==> self.timestamps@[i] <= t,
            decreases self.timestamps@.len() - p,
        {
            p += 1;
        }
        let ghost old_ts = self.timestamps@;
        self.timestamps.insert(p, t);
        proof {
            assert forall|i: int, j: int|
                0 <= i < j < self.timestamps@.len() implies self.timestamps@[i]
                <= self.timestamps@[j] by {
                if p < old_ts.len() {
                    assert(old_ts[p as int] > t);
                }
            }
        }

        // Newest first: after every entry not older than `t`.
        let mut q: usize = 0;
        while q < self.entries.len() && self.entries[q].0 >= t
            invariant
                0 <= q <= self.entries@.len(),
                forall|i: int| 0 <= i < q ==> self.entries@[i].0 >= t,
            decreases self.entries@.len() - q,
        {
            q += 1;
        }
        let ghost old_es = self.entries@;
        let entry = CompletionEntry { time: rec.time, spec_name: rec.spec_name, success: rec.success };
        self.entries.insert(q, (t, entry));
        proof {
            assert forall|i: int, j: int|
                0 <= i < j < self.entries@.len() implies self.entries@[i].0
                >= self.entries@[j].0 by {
                if q < old_es.len() {
                    assert(old_es[q as int].0 < t);
                }
            }
        }
        true
    }
}

fn copy_entry(e: &CompletionEntry) -> (r: CompletionEntry)
    ensures
        r == *e,
{
    CompletionEntry { time: e.time.clone(), spec_name: e.spec_name.clone(), success: e.success }
}

/// Completions per minute, in thousandths, of the instants `ts` at `now_ms`.
pub fn rate_milli_per_min(ts: &VecDeque<u64>, now_ms: u64) -> (r: u64)
    ensures
        r == clamp_u64(window_rate(ts@, now_ms as int)),
        ts@.len() < 2 ==> r == 0,
{
    if ts.len() < 2 {
        return 0;
    }
    let elapsed: u64 = if now_ms >= ts[0] {
        now_ms - ts[0]
    } else {
        1000
    };
    if elapsed == 0 {
        return 0;
    }
    let n = ts.len() as u128;
    proof {
        assert(n * 60_000_000 <= 0xffff_ffff_ffff_ffff * 60_000_000) by (nonlinear_arith)
            requires
                n <= 0xffff_ffff_ffff_ffff,
        ;
    }
    let rate: u128 = n * 60_000_000 / (elapsed as u128);
    if rate > u64::MAX as u128 {
        u64::MAX
    } else {
        rate as u64
    }
}

impl ThroughputTracker {
    /// Drops the instants that left the window, then reports the counters, the
    /// rate over what remains and the newest completions.
    pub fn refresh(&mut self, now_ms: u64) -> (snap: ThroughputSnapshot)
        requires
            old(self).wf(),
        ensures
            final(self).wf(),
            final(self).seen == old(self).seen,
            final(self).entries == old(self).entries,
            final(self).total == old(self).total,
            final(self).success == old(self).success,
            final(self).failure == old(self).failure,
            final(self).window_ms == old(self).window_ms,
            final(self).recent_count == old(self).recent_count,
            ({
                let k = old(self).timestamps@.len() - final(self).timestamps@.len();
                &&& 0 <= k
                &&& final(self).timestamps@ == old(self).timestamps@.skip(k)
                &&& forall|i: int|
                    0 <= i < k ==> !in_window(
                        old(self).timestamps@[i] as int,
                        now_ms as int,
                        old(self).window_ms as int,
                    )
            }),
            forall|i: int|
                0 <= i < final(self).timestamps@.len() ==> in_window(
                    #[trigger] final(self).timestamps@[i] as int,
                    now_ms as int,
                    final(self).window_ms as int,
                ),
            snap.enabled,
            snap.total == snap.success + snap.failure,
            snap.total == final(self).total,
            snap.success == final(self).success,
            snap.failure == final(self).failure,
            snap.rate_milli_per_min == clamp_u64(window_rate(final(self).timestamps@, now_ms as int)),
            snap.recent@ == recent_entries(final(self).entries@, final(self).recent_count as int),
    {
        let ts = &self.timestamps;
        let mut k: usize = 0;
        while k < ts.len() && (now_ms >= ts[k] && now_ms - ts[k] > self.window_ms)
            invariant
                0 <= k <= ts@.len(),
                forall|i: int|
                    0 <= i < k ==> !in_window(ts@[i] as int, now_ms as int, self.window_ms as int),
            decreases ts@.len() - k,
        {
            k += 1;
        }
        let mut kept: VecDeque<u64> = VecDeque::new();
        let mut j: usize = k;
        while j < ts.len()
            invariant
                k <= j <= ts@.len(),
                kept@ == ts@.subrange(k as int, j as int),
            decreases ts@.len() - j,
        {
            kept.push_back(ts[j]);
            j += 1;
        }
        proof {
            assert(kept@ =~= ts@.skip(k as int));
            assert forall|i: int| 0 <= i < kept@.len() implies in_window(
                #[trigger] kept@[i] as int,
                now_ms as int,
                self.window_ms as int,
            ) by {
                if k < ts@.len() {
                    assert(ts@[k as int] <= ts@[i + k]);
                }
            }
        }
        self.timestamps = kept;

        let rate = rate_milli_per_min(&self.timestamps, now_ms);

        let es = &self.entries;
        let mut recent: Vec<CompletionEntry> = Vec::new();
        let mut r: usize = 0;
        while r < es.len() && r < self.recent_count
            invariant
                0 <= r <= es@.len(),
                r <= self.recent_count,
                recent@ == es@.take(r as int).map_values(|e: (u64, CompletionEntry)| e.1),
            decreases es@.len() - r,
        {
            recent.push(copy_entry(&es[r].1));
            r += 1;
            assert(recent@ =~= es@.take(r as int).map_values(|e: (u64, CompletionEntry)| e.1));
        }
        assert(recent@ =~= recent_entries(es@, self.recent_count as int));

        ThroughputSnapshot {
            enabled: true,
            total: self.total,
            success: self.success,
            failure: self.failure,
            rate_milli_per_min: rate,
            recent,
        }
    }
}

} // verus!
