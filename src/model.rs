//! Data model of the two remote documents and of the collector snapshots.
//!
//! Durations are whole microseconds; instants are microseconds since the
//! Unix epoch, where 0 stands for "not reported".

use vstd::prelude::*;

verus! {

/// Counters of the proxy's request queue.
#[derive(Clone, Copy, Debug, Default, PartialEq, Eq, Structural)]
pub struct QueueSummary {
    pub pending: u64,
    pub in_flight: u64,
    pub completed_last_minute: u64,
    pub total_tracked: u64,
}

/// One finished request of a session, with its timing breakdown.
#[derive(Clone, Debug, Default, PartialEq, Eq)]
pub struct CompletedTurn {
    pub request_id: String,
    pub backend: Option<String>,
    pub request_summary: Option<String>,
    pub response_summary: Option<String>,
    pub submitted_at_us: u64,
    pub completed_at_us: u64,
    pub total_time_us: u64,
    pub wait_time_us: u64,
    pub processing_time_us: u64,
    /// Time attributed to the backend itself, when the proxy measured it.
    pub backend_time_us: Option<u64>,
    pub agent_obs_us: Option<u64>,
    pub agent_act_us: Option<u64>,
    /// 1-based sequence number within the session, assigned by the proxy.
    pub turn_number: Option<u64>,
}

/// A multi-turn unit of work.
#[derive(Clone, Debug, Default, PartialEq, Eq)]
pub struct SessionGroup {
    pub session_id: String,
    pub task_id: String,
    pub model: String,
    pub source: String,
    pub total_requests: u64,
    pub completed_requests: u64,
    pub pending_requests: u64,
    pub in_flight_requests: u64,
    pub failed_requests: u64,
    pub completed_turns: Vec<CompletedTurn>,
    /// Turns ever assigned to the session; survives removal of turn records.
    pub total_turns: u64,
}

/// A process driving one or more sessions.
#[derive(Clone, Debug, Default, PartialEq, Eq)]
pub struct ClientGroup {
    pub client_id: String,
    pub client_command: String,
    pub sessions: Vec<SessionGroup>,
}

/// A pending or in-flight request as listed by the queue document.
#[derive(Clone, Debug, Default, PartialEq, Eq)]
pub struct QueueRequest {
    pub request_id: String,
    pub source: String,
    pub model: String,
    pub status: String,
    pub backend: Option<String>,
    pub wait_time_us: u64,
    pub processing_time_us: Option<u64>,
    pub session_id: Option<String>,
    pub task_id: Option<String>,
}

/// A backend as seen by the queue document.
#[derive(Clone, Debug, Default, PartialEq, Eq)]
pub struct QueueBackend {
    pub url: String,
    pub healthy: bool,
    pub gpu_load: u64,
    pub inflight: u64,
    pub avg_latency_us: u64,
    pub partition: String,
}

/// The queue document, normalised to one vocabulary.
#[derive(Clone, Debug, Default, PartialEq, Eq)]
pub struct QueueResponse {
    pub summary: QueueSummary,
    pub pending: Vec<QueueRequest>,
    pub in_flight: Vec<QueueRequest>,
    pub backends: Vec<QueueBackend>,
    /// Flat session list of proxies that do not group by client.
    pub sessions: Vec<SessionGroup>,
    pub clients: Vec<ClientGroup>,
    pub orphan_sessions: Vec<SessionGroup>,
}

/// A backend as seen by the stats document.
#[derive(Clone, Debug, Default, PartialEq, Eq)]
pub struct BackendStats {
    pub url: String,
    pub healthy: bool,
    pub requests: u64,
    pub errors: u64,
    pub avg_latency_us: u64,
    pub inflight: u64,
    pub partition: String,
}

/// The backends serving one model.
#[derive(Clone, Debug, Default, PartialEq, Eq)]
pub struct PoolStats {
    pub model: String,
    pub backends: Vec<BackendStats>,
}

/// The stats document.
#[derive(Clone, Debug, Default, PartialEq, Eq)]
pub struct StatsResponse {
    pub uptime_us: u64,
    pub total_requests: u64,
    pub total_errors: u64,
    /// Errors per million requests.
    pub error_rate_ppm: u64,
    /// Requests per thousand minutes.
    pub requests_per_kilominute: u64,
    pub strategy: String,
    pub models: Vec<String>,
    pub pools: Vec<PoolStats>,
}

/// Which panel of the dashboard receives navigation keys.
#[derive(Clone, Copy, Debug, PartialEq, Eq, Structural)]
pub enum FocusedPanel {
    Backends,
    Sessions,
}

/// An entry of the hierarchical sessions panel that the cursor can rest on.
#[derive(Clone, Debug, PartialEq, Eq)]
pub enum SelectableItem {
    Client(String),
    Session(String),
}

/// One artifact counted by the throughput collector.
#[derive(Clone, Debug, Default, PartialEq, Eq)]
pub struct CompletionEntry {
    /// Local time of day at which the artifact was written.
    pub time: String,
    pub spec_name: String,
    pub success: bool,
}

/// What the throughput collector publishes on each tick.
#[derive(Clone, Debug, Default, PartialEq, Eq)]
pub struct ThroughputSnapshot {
    pub enabled: bool,
    pub total: usize,
    pub success: usize,
    pub failure: usize,
    /// Completions per minute over the window, in thousandths.
    pub rate_milli_per_min: u64,
    /// Most recent completions, newest first.
    pub recent: Vec<CompletionEntry>,
}

/// What the proxy collector publishes: the last documents it could fetch.
#[derive(Clone, Debug, Default, PartialEq, Eq)]
pub struct ProxySnapshot {
    pub connected: bool,
    pub stats: StatsResponse,
    pub queue: QueueResponse,
}

} // verus!
