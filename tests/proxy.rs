use dashboard::model::{ProxySnapshot, QueueResponse, QueueSummary, StatsResponse};

fn stats(uptime: u64) -> StatsResponse {
    StatsResponse { uptime_us: uptime, ..Default::default() }
}

fn queue(pending: u64) -> QueueResponse {
    QueueResponse { summary: QueueSummary { pending, ..Default::default() }, ..Default::default() }
}

fn prior() -> ProxySnapshot {
    ProxySnapshot { connected: true, stats: stats(1), queue: queue(1) }
}

#[test]
fn both_documents_replace() {
    let mut s = prior();
    s.apply_poll(Some(stats(2)), Some(queue(2)));
    assert_eq!(s, ProxySnapshot { connected: true, stats: stats(2), queue: queue(2) });
}

#[test]
fn failed_queue_keeps_previous_queue() {
    let mut s = prior();
    s.apply_poll(Some(stats(2)), None);
    assert_eq!(s, ProxySnapshot { connected: true, stats: stats(2), queue: queue(1) });
}

#[test]
fn failed_stats_keeps_previous_stats() {
    let mut s = prior();
    s.apply_poll(None, Some(queue(3)));
    assert_eq!(s, ProxySnapshot { connected: true, stats: stats(1), queue: queue(3) });
}

#[test]
fn both_failed_keeps_everything_and_disconnects() {
    let mut s = prior();
    s.apply_poll(None, None);
    assert_eq!(s, ProxySnapshot { connected: false, stats: stats(1), queue: queue(1) });
}
