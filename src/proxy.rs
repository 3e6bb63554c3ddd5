//! Merging one poll of the proxy into the published snapshot.

use vstd::prelude::*;
use crate::model::{ProxySnapshot, QueueResponse, StatsResponse};

verus! {

impl ProxySnapshot {
    /// Merges the outcome of one poll: each document that was fetched and
    /// decoded replaces its predecessor, a failed one leaves the previous
    /// data in place, and the proxy counts as connected when either arrived.
    pub fn apply_poll(&mut self, stats: Option<StatsResponse>, queue: Option<QueueResponse>)
        ensures
            final(self).connected == (stats is Some || queue is Some),
            final(self).stats == match stats {
                Some(s) => s,
                None => old(self).stats,
            },
            final(self).queue == match queue {
                Some(q) => q,
                None => old(self).queue,
            },
    {
        match (stats, queue) {
            (Some(s), Some(q)) => {
                self.connected = true;
                self.stats = s;
                self.queue = q;
            },
            (Some(s), None) => {
                self.connected = true;
                self.stats = s;
            },
            (None, Some(q)) => {
                self.connected = true;
                self.queue = q;
            },
            (None, None) => {
                self.connected = false;
            },
        }
    }
}

} // verus!
