use replicated_kv::api::Status;
use replicated_kv::apply::{
    begin_replicate, clock_has_room, finish_replicate, Applied, ReplicateStep,
};
use replicated_kv::clock::LamportClock;
use replicated_kv::entry::{LogEntry, Operation};
use replicated_kv::replicator::ReplicateBody;
use replicated_kv::store::Store;

fn put(ts: u64, node_id: u64, key: &str, value: &str) -> LogEntry {
    LogEntry {
        ts,
        node_id,
        operation: Operation::Put { key: key.to_string(), value: value.to_string() },
    }
}

fn delete(ts: u64, node_id: u64, key: &str) -> LogEntry {
    LogEntry { ts, node_id, operation: Operation::Delete { key: key.to_string() } }
}

fn stored(store: &Store, key: &str) -> Option<(Option<String>, u64, u64)> {
    store.get(key).map(|v| (v.data, v.ts, v.node_id))
}

fn picked(step: ReplicateStep) -> Vec<(u64, u64)> {
    match step {
        ReplicateStep::Persist(entries) => entries.iter().map(|e| (e.ts, e.node_id)).collect(),
        ReplicateStep::Reply(_) => panic!("the batch has fresh entries"),
    }
}

#[test]
fn empty_batch_is_acknowledged() {
    let store = Store::new();
    let step = begin_replicate(&store, &ReplicateBody { entries: Vec::new() });
    assert!(matches!(step, ReplicateStep::Reply(Status::Success)));
}

#[test]
fn stale_batch_is_acknowledged_without_the_log() {
    let mut store = Store::new();
    store.put("a".to_string(), "x".to_string(), 5, 2);
    store.delete("b", 9, 1);
    let body = ReplicateBody {
        entries: vec![put(5, 2, "a", "x"), put(4, 9, "a", "w"), put(8, 3, "b", "y"), delete(5, 1, "a")],
    };
    let step = begin_replicate(&store, &body);
    assert!(matches!(step, ReplicateStep::Reply(Status::Success)));
}

#[test]
fn fresh_entries_are_picked_in_order() {
    let mut store = Store::new();
    store.put("a".to_string(), "x".to_string(), 5, 1);
    let body = ReplicateBody {
        entries: vec![
            put(7, 1, "b", "y"),
            put(5, 1, "a", "x"),
            delete(6, 1, "a"),
            put(3, 1, "a", "old"),
            put(5, 2, "a", "tie"),
            put(1, 1, "c", "z"),
        ],
    };
    assert_eq!(picked(begin_replicate(&store, &body)), vec![(7, 1), (6, 1), (5, 2), (1, 1)]);
}

#[test]
fn entries_are_compared_with_the_store_only() {
    let store = Store::new();
    let body = ReplicateBody { entries: vec![put(9, 1, "a", "new"), put(2, 1, "a", "old")] };
    assert_eq!(picked(begin_replicate(&store, &body)), vec![(9, 1), (2, 1)]);
}

#[test]
fn durable_batch_is_applied_and_moves_the_clock() {
    let mut store = Store::new();
    let mut clock = LamportClock::new();
    let to_apply = vec![put(7, 1, "b", "y"), delete(6, 1, "a"), put(5, 2, "a", "tie")];
    assert!(clock_has_room(&clock, &to_apply));
    let applied = finish_replicate(&mut store, &mut clock, &to_apply, true);
    assert_eq!(applied, Applied { status: Status::Success, puts: 2, deletes: 1 });
    assert_eq!(stored(&store, "b"), Some((Some("y".to_string()), 7, 1)));
    assert_eq!(stored(&store, "a"), Some((None, 6, 1)));
    assert_eq!(clock.tick_now(), 10);
}

#[test]
fn clock_moves_past_each_timestamp() {
    let mut store = Store::new();
    let mut clock = LamportClock::new();
    clock.tick_observe(3);
    finish_replicate(&mut store, &mut clock, &vec![put(1, 1, "a", "x")], true);
    assert_eq!(clock.tick_now(), 4);
    finish_replicate(&mut store, &mut clock, &vec![put(10, 1, "b", "x"), put(2, 1, "c", "x")], true);
    assert_eq!(clock.tick_now(), 12);
}

#[test]
fn batch_that_is_not_durable_is_refused_and_changes_nothing() {
    let mut store = Store::new();
    store.put("a".to_string(), "x".to_string(), 1, 1);
    let mut clock = LamportClock::new();
    clock.tick_observe(1);
    let to_apply = vec![put(7, 1, "a", "y"), delete(8, 1, "b")];
    let applied = finish_replicate(&mut store, &mut clock, &to_apply, false);
    assert_eq!(applied, Applied { status: Status::ServerError, puts: 0, deletes: 0 });
    assert_eq!(stored(&store, "a"), Some((Some("x".to_string()), 1, 1)));
    assert!(store.get("b").is_none());
    assert_eq!(clock.tick_now(), 1);
}

#[test]
fn redelivery_is_filtered_after_the_first_apply() {
    let mut store = Store::new();
    let mut clock = LamportClock::new();
    let body = ReplicateBody { entries: vec![put(1, 1, "a", "x"), delete(2, 1, "a")] };
    let to_apply = match begin_replicate(&store, &body) {
        ReplicateStep::Persist(entries) => entries,
        ReplicateStep::Reply(_) => panic!("the batch has fresh entries"),
    };
    finish_replicate(&mut store, &mut clock, &to_apply, true);
    let again = begin_replicate(&store, &body);
    assert!(matches!(again, ReplicateStep::Reply(Status::Success)));
    assert_eq!(stored(&store, "a"), Some((None, 2, 1)));
}

#[test]
fn picking_fresh_entries_loses_nothing() {
    let batch = vec![
        put(3, 1, "a", "three"),
        put(9, 1, "a", "nine"),
        delete(4, 2, "b"),
        put(2, 1, "b", "two"),
        put(6, 1, "c", "six"),
    ];
    let mut whole = Store::new();
    whole.put("a".to_string(), "five".to_string(), 5, 1);
    whole.put("b".to_string(), "one".to_string(), 1, 1);
    let mut filtered = Store::new();
    filtered.put("a".to_string(), "five".to_string(), 5, 1);
    filtered.put("b".to_string(), "one".to_string(), 1, 1);
    let picked = match begin_replicate(&filtered, &ReplicateBody { entries: batch.clone() }) {
        ReplicateStep::Persist(entries) => entries,
        ReplicateStep::Reply(_) => panic!("the batch has fresh entries"),
    };
    assert_eq!(picked.len(), 4);
    for e in batch {
        whole.apply(e);
    }
    for e in picked {
        filtered.apply(e);
    }
    for key in ["a", "b", "c"] {
        assert_eq!(stored(&whole, key), stored(&filtered, key));
    }
    assert_eq!(stored(&whole, "a"), Some((Some("nine".to_string()), 9, 1)));
    assert_eq!(stored(&whole, "b"), Some((None, 4, 2)));
}

#[test]
fn clock_has_no_room_at_the_largest_timestamp() {
    let clock = LamportClock::new();
    assert!(!clock_has_room(&clock, &vec![put(u64::MAX, 1, "a", "x")]));
    assert!(clock_has_room(&clock, &vec![put(u64::MAX - 1, 1, "a", "x")]));
    assert!(!clock_has_room(&clock, &vec![put(u64::MAX - 1, 1, "a", "x"), put(1, 1, "b", "y")]));
    let mut full = LamportClock::new();
    full.tick_observe(u64::MAX);
    assert!(clock_has_room(&full, &Vec::new()));
    assert!(!clock_has_room(&full, &vec![put(1, 1, "a", "x")]));
}
