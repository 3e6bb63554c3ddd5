use dashboard::decode::{check_success, parse_queue, parse_stats};
use dashboard::model::{QueueResponse, SelectableItem};
use dashboard::number::{parse_decimal, parse_scaled, parse_unsigned, to_fixed};
use dashboard::sessions::selectable_items_for;

const CURRENT: &str = r#"{
  "summary": {"pending": 2, "in_flight": 1, "completed_last_minute": 7, "total_tracked": 40},
  "clients": [
    {"client_id": "host:41", "client_command": "python -m run",
     "sessions": [
       {"session_id": "s1", "task_id": "t1", "total_turns": 3,
        "completed_turns": [
          {"request_id": "r1", "submitted_at": 100.5, "completed_at": 101.25,
           "processing_time_ms": 700.5, "backend_time_ms": 650, "agent_obs_ms": 12.5,
           "turn_number": 1}
        ]}
     ]}
  ],
  "orphan_sessions": [{"session_id": "s2", "task_id": "t2"}],
  "pending": [{"request_id": "p1", "session_id": "s2", "wait_time_ms": 3.25}]
}"#;

const LEGACY: &str = r#"{
  "summary": {"pending": 2, "in_flight": 1, "completed_last_minute": 7, "total_tracked": 40},
  "processes": [
    {"process_id": "host:41", "process_command": "python -m run",
     "episodes": [
       {"episode_id": "s1", "instruction_id": "t1", "total_turns": 3,
        "completed_turns": [
          {"request_id": "r1", "submitted_at": 100.5, "completed_at": 101.25,
           "processing_time_ms": 700.5, "backend_time_ms": 650, "agent_pre_ms": 12.5,
           "turn_number": 1}
        ]}
     ]}
  ],
  "orphan_episodes": [{"episode_id": "s2", "instruction_id": "t2"}],
  "pending": [{"request_id": "p1", "episode_id": "s2", "wait_time_ms": 3.25}]
}"#;

#[test]
fn legacy_and_current_names_decode_alike() {
    let a = parse_queue(CURRENT).unwrap();
    let b = parse_queue(LEGACY).unwrap();
    assert_eq!(a, b);
    let expanded = vec!["host:41".to_string()];
    assert_eq!(selectable_items_for(&a, &expanded), selectable_items_for(&b, &expanded));
    assert_eq!(
        selectable_items_for(&a, &expanded),
        vec![
            SelectableItem::Client("host:41".to_string()),
            SelectableItem::Session("s1".to_string()),
            SelectableItem::Session("s2".to_string()),
        ]
    );
}

#[test]
fn queue_members_are_converted() {
    let q = parse_queue(CURRENT).unwrap();
    assert_eq!(q.summary.total_tracked, 40);
    let s = &q.clients[0].sessions[0];
    assert_eq!(q.clients[0].client_command, "python -m run");
    assert_eq!(s.task_id, "t1");
    assert_eq!(s.total_turns, 3);
    let t = &s.completed_turns[0];
    assert_eq!(t.submitted_at_us, 100_500_000);
    assert_eq!(t.completed_at_us, 101_250_000);
    assert_eq!(t.processing_time_us, 700_500);
    assert_eq!(t.backend_time_us, Some(650_000));
    assert_eq!(t.agent_obs_us, Some(12_500));
    assert_eq!(t.agent_act_us, None);
    assert_eq!(t.turn_number, Some(1));
    assert_eq!(t.total_time_us, 0);
    assert_eq!(q.pending[0].session_id, Some("s2".to_string()));
    assert_eq!(q.pending[0].wait_time_us, 3_250);
    assert!(q.sessions.is_empty());
}

#[test]
fn current_name_wins_over_legacy() {
    let q = parse_queue(r#"{"sessions": [{"session_id": "new"}], "episodes": [{"session_id": "old"}]}"#)
        .unwrap();
    assert_eq!(q.sessions.len(), 1);
    assert_eq!(q.sessions[0].session_id, "new");
}

#[test]
fn empty_document_takes_defaults() {
    assert_eq!(parse_queue("{}").unwrap(), QueueResponse::default());
}

#[test]
fn malformed_or_mistyped_documents_fail() {
    assert_eq!(parse_queue("{"), None);
    assert_eq!(parse_queue("[]"), None);
    assert_eq!(parse_queue(r#"{"summary": {"pending": "two"}}"#), None);
    assert_eq!(parse_queue(r#"{"summary": {"pending": 1.5}}"#), None);
    assert_eq!(parse_queue(r#"{"summary": {"pending": -1}}"#), None);
    assert_eq!(parse_queue(r#"{"sessions": [{"completed_turns": [{"wait_time_ms": "x"}]}]}"#), None);
    assert_eq!(parse_stats("not json"), None);
}

#[test]
fn stats_document() {
    let s = parse_stats(
        r#"{"uptime_seconds": 3661.5, "total_requests": 10, "total_errors": 1, "error_rate": 0.1,
            "requests_per_minute": 2.5, "strategy": "least_loaded", "models": ["m"],
            "pools": [{"model": "m", "backends": [{"url": "http://a:1", "healthy": true,
                       "requests": 4, "avg_latency_ms": 120.25, "partition": "p0"}]}]}"#,
    )
    .unwrap();
    assert_eq!(s.uptime_us, 3_661_500_000);
    assert_eq!(s.error_rate_ppm, 100_000);
    assert_eq!(s.requests_per_kilominute, 2_500);
    assert_eq!(s.strategy, "least_loaded");
    assert_eq!(s.models, vec!["m".to_string()]);
    let b = &s.pools[0].backends[0];
    assert_eq!(b.url, "http://a:1");
    assert!(b.healthy);
    assert_eq!(b.requests, 4);
    assert_eq!(b.errors, 0);
    assert_eq!(b.avg_latency_us, 120_250);
    assert_eq!(b.partition, "p0");
}

#[test]
fn missing_names_default_to_empty() {
    let s = parse_stats(r#"{"pools": [{"backends": [{"healthy": true}]}]}"#).unwrap();
    assert_eq!(s.pools[0].model, "");
    assert_eq!(s.pools[0].backends[0].url, "");
    assert!(s.pools[0].backends[0].healthy);
    let q = parse_queue(r#"{"backends": [{"healthy": true, "gpu_load": 3}]}"#).unwrap();
    assert_eq!(q.backends[0].url, "");
    assert_eq!(q.backends[0].gpu_load, 3);
}

#[test]
fn verification_markers() {
    assert!(check_success(Some(r#"{"overall_success": true}"#)));
    assert!(!check_success(Some(r#"{"overall_success": false}"#)));
    assert!(!check_success(Some(r#"{"overall_success": null}"#)));
    assert!(!check_success(Some(r#"{"overall_success": "true"}"#)));
    assert!(!check_success(Some(r#"{}"#)));
    assert!(!check_success(Some("garbage")));
    assert!(!check_success(None));
}

#[test]
fn decimal_numbers() {
    let d = parse_decimal("-12.5e+3").unwrap();
    assert!(d.negative);
    assert_eq!(d.mantissa, 125);
    assert_eq!(d.exponent, 2);
    assert!(parse_decimal("1.").is_none());
    assert!(parse_decimal("e5").is_none());
    assert!(parse_decimal("1e").is_none());
    assert!(parse_decimal("1.5x").is_none());
    assert_eq!(parse_scaled("123.456", 3), Some(123_456));
    assert_eq!(parse_scaled("1.5e-3", 6), Some(1_500));
    assert_eq!(parse_scaled("5e+02", 0), Some(500));
    assert_eq!(parse_scaled("0.0000001", 6), Some(0));
    assert_eq!(parse_scaled("-4.5", 3), Some(0));
    assert_eq!(parse_scaled("1e300", 3), Some(u64::MAX));
    assert_eq!(parse_scaled("1735000000.123456", 6), Some(1_735_000_000_123_456));
    assert_eq!(to_fixed(false, 19, -1), 1);
    assert_eq!(parse_unsigned("18446744073709551615"), Some(u64::MAX));
    assert_eq!(parse_unsigned("18446744073709551616"), None);
    assert_eq!(parse_unsigned("12a"), None);
    assert_eq!(parse_unsigned(""), None);
}
