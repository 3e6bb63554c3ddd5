use dashboard::analysis::{
    classify, collect_timing_stats, diagnose, suggested_concurrency, turns_fit, Diagnosis,
    DiagnosisInputs, Severity, TimingStats,
};
use dashboard::model::{ClientGroup, CompletedTurn, QueueBackend, QueueResponse, SessionGroup};

fn inputs(healthy: u64, total: u64, pending: u64, load_sum: u128, samples: u64) -> DiagnosisInputs {
    DiagnosisInputs {
        healthy_backends: healthy,
        total_backends: total,
        pending,
        gpu_load_sum: load_sum,
        gpu_load_samples: samples,
    }
}

fn turn(submitted_s: u64, completed_s: u64, processing_ms: u64, backend_ms: Option<u64>) -> CompletedTurn {
    CompletedTurn {
        submitted_at_us: submitted_s * 1_000_000,
        completed_at_us: completed_s * 1_000_000,
        total_time_us: processing_ms * 1000 + 5_000,
        wait_time_us: 5_000,
        processing_time_us: processing_ms * 1000,
        backend_time_us: backend_ms.map(|b| b * 1000),
        ..Default::default()
    }
}

fn session(id: &str, turns: Vec<CompletedTurn>) -> SessionGroup {
    SessionGroup { session_id: id.to_string(), completed_turns: turns, ..Default::default() }
}

fn backend(url: &str, healthy: bool, gpu_load: u64, inflight: u64) -> QueueBackend {
    QueueBackend { url: url.to_string(), healthy, gpu_load, inflight, ..Default::default() }
}

#[test]
fn gpu_bound_when_average_load_reaches_four_fifths_of_healthy() {
    // average load 3.6 = 18 / 5 against 0.8 * 4 = 3.2
    let inp = inputs(4, 4, 5, 18, 5);
    let timing = TimingStats::default();
    let first = classify(&inp, &timing);
    let other = classify(&inputs(1, 2, 0, 0, 0), &timing);
    let second = classify(&inp, &timing);
    assert_eq!(first, Diagnosis::GpuBound);
    assert_eq!(other, Diagnosis::Unhealthy);
    assert_eq!(second, Diagnosis::GpuBound);
}

#[test]
fn gpu_bound_threshold_is_inclusive() {
    // 16 / 5 = 3.2 is exactly 0.8 * 4
    assert_eq!(classify(&inputs(4, 4, 1, 16, 5), &TimingStats::default()), Diagnosis::GpuBound);
    // 15 / 5 = 3.0 is below
    assert_eq!(classify(&inputs(4, 4, 1, 15, 5), &TimingStats::default()), Diagnosis::Balanced);
}

#[test]
fn unhealthy_comes_first() {
    let timing = TimingStats {
        count: 3,
        avg_inference_us: 100,
        avg_gap_us: 1000,
        gap_count: 2,
        ..Default::default()
    };
    assert_eq!(classify(&inputs(3, 4, 9, 100, 3), &timing), Diagnosis::Unhealthy);
}

#[test]
fn agent_bound_at_half_the_inference_time() {
    let timing = TimingStats {
        count: 3,
        avg_inference_us: 200_000,
        avg_gap_us: 100_000,
        gap_count: 2,
        ..Default::default()
    };
    assert_eq!(classify(&inputs(4, 4, 5, 20, 4), &timing), Diagnosis::AgentBound);
    let below = TimingStats { avg_gap_us: 99_999, ..timing };
    assert_eq!(classify(&inputs(4, 4, 5, 20, 4), &below), Diagnosis::GpuBound);
    let no_gaps = TimingStats { gap_count: 0, ..timing };
    assert_eq!(classify(&inputs(4, 4, 0, 20, 4), &no_gaps), Diagnosis::Balanced);
}

#[test]
fn idle_and_balanced() {
    // average 1 / 4 = 0.25 < 0.5 with nothing pending
    assert_eq!(classify(&inputs(4, 4, 0, 1, 4), &TimingStats::default()), Diagnosis::Idle);
    // average 2 / 4 = 0.5 is not below one half
    assert_eq!(classify(&inputs(4, 4, 0, 2, 4), &TimingStats::default()), Diagnosis::Balanced);
    // no backends at all: load counts as zero
    assert_eq!(classify(&inputs(0, 0, 0, 0, 0), &TimingStats::default()), Diagnosis::Idle);
    assert_eq!(classify(&inputs(0, 0, 3, 0, 0), &TimingStats::default()), Diagnosis::GpuBound);
}

#[test]
fn suggested_concurrency_hides_agent_time() {
    let timing = TimingStats {
        count: 10,
        avg_inference_us: 200_000,
        avg_gap_us: 100_000,
        gap_count: 9,
        ..Default::default()
    };
    // per gpu (200 + 100) / 200 = 1.5, times 4 gpus
    assert_eq!(suggested_concurrency(&timing, 4), Some(6));
    // ceil(3 * 1.5) = 5
    assert_eq!(suggested_concurrency(&timing, 3), Some(5));
    assert_eq!(suggested_concurrency(&timing, 0), None);
    let empty = TimingStats { count: 0, ..timing };
    assert_eq!(suggested_concurrency(&empty, 4), None);
    let no_inference = TimingStats { avg_inference_us: 0, ..timing };
    assert_eq!(suggested_concurrency(&no_inference, 4), None);
}

#[test]
fn labels_advice_and_severity() {
    assert_eq!(Diagnosis::GpuBound.label(), "GPU-BOUND");
    assert_eq!(Diagnosis::AgentBound.label(), "AGENT-BOUND");
    assert_eq!(Diagnosis::Balanced.label(), "BALANCED");
    assert_eq!(Diagnosis::Idle.label(), "IDLE");
    assert_eq!(Diagnosis::Unhealthy.label(), "UNHEALTHY");
    assert_eq!(Diagnosis::Unhealthy.advice(), "Some GPUs offline. Check backend health.");
    assert_eq!(Diagnosis::Idle.advice(), "GPUs underutilized. Can increase --num-parallel.");
    assert_eq!(Diagnosis::GpuBound.severity(), Severity::Error);
    assert_eq!(Diagnosis::AgentBound.severity(), Severity::Warn);
    assert_eq!(Diagnosis::Balanced.severity(), Severity::Good);
    assert_eq!(Diagnosis::Idle.severity(), Severity::Accent);
    assert_eq!(Diagnosis::Unhealthy.severity(), Severity::Warn);
}

#[test]
fn timing_stats_over_all_sessions() {
    // one client session with two turns, one orphan with one turn
    let client = ClientGroup {
        client_id: "c1".to_string(),
        sessions: vec![session(
            "s1",
            vec![turn(100, 101, 300, Some(200)), turn(103, 104, 500, None)],
        )],
        ..Default::default()
    };
    let queue = QueueResponse {
        clients: vec![client],
        orphan_sessions: vec![session("s2", vec![turn(200, 201, 400, Some(450))])],
        // ignored: the document is hierarchical
        sessions: vec![session("flat", vec![turn(1, 2, 9999, None)])],
        ..Default::default()
    };
    let t = collect_timing_stats(&queue);
    assert_eq!(t.count, 3);
    // inference: 200 ms, 500 ms, 450 ms
    assert_eq!(t.avg_inference_us, 383_333);
    // proxy over the two turns with backend time: 100 ms and 0 ms
    assert_eq!(t.avg_proxy_us, 50_000);
    assert!(t.has_backend_time);
    // one gap: 103 s - 101 s
    assert_eq!(t.gap_count, 1);
    assert_eq!(t.avg_gap_us, 2_000_000);
    assert_eq!(t.avg_wait_us, 5_000);
    assert_eq!(t.avg_total_us, 405_000);
}

#[test]
fn timing_stats_fall_back_to_flat_sessions() {
    let queue = QueueResponse {
        sessions: vec![session("a", vec![turn(10, 11, 100, None), turn(10, 12, 300, None)])],
        ..Default::default()
    };
    let t = collect_timing_stats(&queue);
    assert_eq!(t.count, 2);
    assert_eq!(t.avg_inference_us, 200_000);
    // submitted before the previous turn completed: negative gap, not counted
    assert_eq!(t.gap_count, 0);
    assert_eq!(t.avg_gap_us, 0);
    assert!(!t.has_backend_time);
    assert_eq!(t.avg_proxy_us, 0);
}

#[test]
fn timing_stats_skip_unknown_instants() {
    let mut second = turn(0, 5, 100, None);
    second.submitted_at_us = 0;
    let queue = QueueResponse {
        sessions: vec![session("a", vec![turn(1, 2, 100, None), second])],
        ..Default::default()
    };
    let t = collect_timing_stats(&queue);
    assert_eq!(t.gap_count, 0);
}

#[test]
fn empty_queue_has_no_timing() {
    let t = collect_timing_stats(&QueueResponse::default());
    assert_eq!(t, TimingStats::default());
    assert!(turns_fit(&QueueResponse::default()));
}

#[test]
fn diagnose_reads_backends_and_sessions() {
    let mut busy = session("busy", vec![turn(100, 101, 200, Some(200)), turn(102, 103, 200, Some(200))]);
    busy.pending_requests = 2;
    let queue = QueueResponse {
        sessions: vec![busy, session("quiet", vec![])],
        backends: vec![
            backend("http://a:1", true, 2, 3),
            backend("http://b:2", true, 4, 1),
            backend("http://c:3", false, 9, 9),
        ],
        ..Default::default()
    };
    let rep = diagnose(&queue).unwrap();
    assert_eq!(rep.inputs.healthy_backends, 2);
    assert_eq!(rep.inputs.total_backends, 3);
    assert_eq!(rep.inputs.gpu_load_sum, 6);
    assert_eq!(rep.inputs.gpu_load_samples, 2);
    assert_eq!(rep.healthy_inflight, 4);
    assert_eq!(rep.active_sessions, 1);
    assert_eq!(rep.diagnosis, Diagnosis::Unhealthy);
    assert_eq!(rep.timing.count, 2);
    // gap 1 s against 200 ms inference: per gpu 6, times 2
    assert_eq!(rep.suggested, Some(12));
}
