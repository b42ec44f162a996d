use replicated_kv::endpoint::{key_url, ping_url, replicate_url, trim_trailing_slashes};
use replicated_kv::entry::{LogEntry, Operation};
use replicated_kv::replicator::{
    PeerBatch, ReplicateBody, WorkerAction, WorkerEvent, BATCH_MAX, FLUSH_MS,
    PEER_QUEUE_CAPACITY, PEER_TIMEOUT_SECS, REPLICATION_QUEUE_CAPACITY,
};

fn put(ts: u64) -> LogEntry {
    LogEntry {
        ts,
        node_id: 1,
        operation: Operation::Put { key: format!("k{}", ts), value: "v".to_string() },
    }
}

fn stamps(body: &ReplicateBody) -> Vec<u64> {
    body.entries.iter().map(|e| e.ts).collect()
}

#[test]
fn replicator_constants() {
    assert_eq!(BATCH_MAX, 128);
    assert_eq!(FLUSH_MS, 500);
    assert_eq!(PEER_TIMEOUT_SECS, 2);
    assert_eq!(PEER_QUEUE_CAPACITY, 1024);
    assert_eq!(REPLICATION_QUEUE_CAPACITY, 4096);
}

#[test]
fn single_entry_body_holds_that_entry() {
    let body = ReplicateBody::single(put(7));
    assert_eq!(stamps(&body), vec![7]);
}

#[test]
fn new_batch_is_empty() {
    let batch = PeerBatch::new();
    assert_eq!(batch.len(), 0);
    assert!(batch.body().is_none());
}

#[test]
fn entries_collect_until_the_batch_is_full() {
    let mut batch = PeerBatch::new();
    for ts in 1..BATCH_MAX as u64 {
        assert_eq!(batch.on_event(WorkerEvent::Entry(put(ts)), true), WorkerAction::Wait);
    }
    assert_eq!(batch.len(), BATCH_MAX - 1);
    assert_eq!(batch.on_event(WorkerEvent::Entry(put(128)), true), WorkerAction::Flush);
    assert_eq!(batch.len(), BATCH_MAX);
    let body = batch.body().unwrap();
    let expected: Vec<u64> = (1..=128u64).collect();
    assert_eq!(stamps(&body), expected);
}

#[test]
fn full_batch_waits_while_the_peer_is_down() {
    let mut batch = PeerBatch::new();
    for ts in 0..200u64 {
        assert_eq!(batch.on_event(WorkerEvent::Entry(put(ts)), false), WorkerAction::Wait);
    }
    assert_eq!(batch.len(), 200);
    assert_eq!(batch.on_event(WorkerEvent::Tick, false), WorkerAction::Wait);
    assert_eq!(batch.on_event(WorkerEvent::Tick, true), WorkerAction::Flush);
    assert_eq!(batch.on_event(WorkerEvent::Entry(put(200)), true), WorkerAction::Flush);
    assert_eq!(batch.len(), 201);
}

#[test]
fn tick_sends_only_what_is_there() {
    let mut batch = PeerBatch::new();
    assert_eq!(batch.on_event(WorkerEvent::Tick, true), WorkerAction::Wait);
    batch.on_event(WorkerEvent::Entry(put(1)), true);
    assert_eq!(batch.on_event(WorkerEvent::Tick, true), WorkerAction::Flush);
    assert_eq!(batch.len(), 1);
}

#[test]
fn closing_stops_the_worker() {
    let mut batch = PeerBatch::new();
    batch.on_event(WorkerEvent::Entry(put(1)), true);
    assert_eq!(batch.on_event(WorkerEvent::Closed, true), WorkerAction::Stop);
    assert_eq!(batch.on_event(WorkerEvent::Closed, false), WorkerAction::Stop);
    assert_eq!(batch.len(), 1);
}

#[test]
fn delivered_batch_is_emptied() {
    let mut batch = PeerBatch::new();
    batch.on_event(WorkerEvent::Entry(put(1)), true);
    batch.on_event(WorkerEvent::Entry(put(2)), true);
    batch.on_flush(true);
    assert_eq!(batch.len(), 0);
    assert!(batch.body().is_none());
}

#[test]
fn undelivered_batch_is_kept_in_order() {
    let mut batch = PeerBatch::new();
    batch.on_event(WorkerEvent::Entry(put(1)), true);
    batch.on_event(WorkerEvent::Entry(put(2)), true);
    batch.on_flush(false);
    batch.on_event(WorkerEvent::Entry(put(3)), true);
    assert_eq!(stamps(&batch.body().unwrap()), vec![1, 2, 3]);
    batch.on_flush(true);
    batch.on_event(WorkerEvent::Entry(put(4)), true);
    assert_eq!(stamps(&batch.body().unwrap()), vec![4]);
}

#[test]
fn trailing_slashes_are_trimmed() {
    assert_eq!(trim_trailing_slashes("http://n2:80"), "http://n2:80");
    assert_eq!(trim_trailing_slashes("http://n2:80/"), "http://n2:80");
    assert_eq!(trim_trailing_slashes("http://n2:80///"), "http://n2:80");
    assert_eq!(trim_trailing_slashes("a/b/"), "a/b");
    assert_eq!(trim_trailing_slashes("///"), "");
    assert_eq!(trim_trailing_slashes(""), "");
    assert_eq!(trim_trailing_slashes("/x"), "/x");
    assert_eq!(trim_trailing_slashes("h\u{e9}\u{4e16}//"), "h\u{e9}\u{4e16}");
}

#[test]
fn trimming_agrees_with_std() {
    for text in ["", "/", "a", "a/", "/a/", "//a//b//", "\u{1F600}/", "x/\u{e9}"] {
        assert_eq!(trim_trailing_slashes(text), text.trim_end_matches('/'));
    }
}

#[test]
fn peer_addresses_have_one_slash_before_the_path() {
    assert_eq!(replicate_url("http://n2:8080"), "http://n2:8080/replicate");
    assert_eq!(replicate_url("http://n2:8080/"), "http://n2:8080/replicate");
    assert_eq!(key_url("http://n2:8080/", "a"), "http://n2:8080/key/a");
    assert_eq!(key_url("http://n2:8080", "a/b"), "http://n2:8080/key/a/b");
    assert_eq!(key_url("http://n2:8080", ""), "http://n2:8080/key/");
    assert_eq!(ping_url("http://n2:8080//"), "http://n2:8080/ping");
}
