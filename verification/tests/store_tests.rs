use replicated_kv::entry::{LogEntry, Operation};
use replicated_kv::store::Store;
use replicated_kv::value::Value;

fn put_entry(ts: u64, node_id: u64, key: &str, value: &str) -> LogEntry {
    LogEntry {
        ts,
        node_id,
        operation: Operation::Put { key: key.to_string(), value: value.to_string() },
    }
}

fn delete_entry(ts: u64, node_id: u64, key: &str) -> LogEntry {
    LogEntry { ts, node_id, operation: Operation::Delete { key: key.to_string() } }
}

fn stored(store: &Store, key: &str) -> Option<(Option<String>, u64, u64)> {
    store.get(key).map(|v| (v.data, v.ts, v.node_id))
}

#[test]
fn any_value_is_newer_than_none() {
    let v = Value { data: None, ts: 0, node_id: 0 };
    assert!(v.is_newer_than(None));
}

#[test]
fn larger_timestamp_is_newer() {
    let a = Value { data: None, ts: 5, node_id: 1 };
    let b = Value { data: Some("x".to_string()), ts: 4, node_id: 9 };
    assert!(a.is_newer_than(Some(&b)));
    assert!(!b.is_newer_than(Some(&a)));
}

#[test]
fn equal_timestamps_are_decided_by_the_node() {
    let a = Value { data: None, ts: 5, node_id: 2 };
    let b = Value { data: None, ts: 5, node_id: 1 };
    assert!(a.is_newer_than(Some(&b)));
    assert!(!b.is_newer_than(Some(&a)));
}

#[test]
fn equal_stamps_are_not_newer() {
    let a = Value { data: Some("x".to_string()), ts: 5, node_id: 2 };
    let b = Value { data: Some("y".to_string()), ts: 5, node_id: 2 };
    assert!(!a.is_newer_than(Some(&b)));
    assert!(!b.is_newer_than(Some(&a)));
}

#[test]
fn new_store_holds_nothing() {
    let store = Store::new();
    assert!(store.get("a").is_none());
    assert!(store.get("").is_none());
}

#[test]
fn put_then_get_returns_the_value_with_its_stamp() {
    let mut store = Store::new();
    store.put("a".to_string(), "1".to_string(), 1, 1);
    assert_eq!(stored(&store, "a"), Some((Some("1".to_string()), 1, 1)));
    assert!(store.get("b").is_none());
}

#[test]
fn newer_put_replaces_older() {
    let mut store = Store::new();
    store.put("a".to_string(), "old".to_string(), 1, 1);
    store.put("a".to_string(), "new".to_string(), 2, 1);
    assert_eq!(stored(&store, "a"), Some((Some("new".to_string()), 2, 1)));
}

#[test]
fn older_put_is_dropped() {
    let mut store = Store::new();
    store.put("a".to_string(), "new".to_string(), 2, 1);
    store.put("a".to_string(), "old".to_string(), 1, 1);
    assert_eq!(stored(&store, "a"), Some((Some("new".to_string()), 2, 1)));
}

#[test]
fn put_with_the_same_stamp_is_dropped() {
    let mut store = Store::new();
    store.put("a".to_string(), "first".to_string(), 2, 1);
    store.put("a".to_string(), "second".to_string(), 2, 1);
    assert_eq!(stored(&store, "a"), Some((Some("first".to_string()), 2, 1)));
}

#[test]
fn conflicting_writes_are_decided_by_the_node() {
    let mut store = Store::new();
    store.put("a".to_string(), "x".to_string(), 1, 1);
    store.put("a".to_string(), "y".to_string(), 1, 2);
    assert_eq!(stored(&store, "a"), Some((Some("y".to_string()), 1, 2)));

    let mut other = Store::new();
    other.put("a".to_string(), "y".to_string(), 1, 2);
    other.put("a".to_string(), "x".to_string(), 1, 1);
    assert_eq!(stored(&other, "a"), Some((Some("y".to_string()), 1, 2)));
}

#[test]
fn delete_of_a_present_key_returns_what_it_replaced() {
    let mut store = Store::new();
    store.put("a".to_string(), "x".to_string(), 5, 1);
    let prior = store.delete("a", 9, 1).map(|v| (v.data, v.ts, v.node_id));
    assert_eq!(prior, Some((Some("x".to_string()), 5, 1)));
    assert_eq!(stored(&store, "a"), Some((None, 9, 1)));
}

#[test]
fn delete_of_an_absent_key_leaves_a_tombstone() {
    let mut store = Store::new();
    assert!(store.delete("a", 3, 2).is_none());
    assert_eq!(stored(&store, "a"), Some((None, 3, 2)));
}

#[test]
fn stale_delete_is_dropped() {
    let mut store = Store::new();
    store.put("a".to_string(), "x".to_string(), 5, 1);
    assert!(store.delete("a", 4, 9).is_none());
    assert_eq!(stored(&store, "a"), Some((Some("x".to_string()), 5, 1)));
}

#[test]
fn delete_of_a_tombstone_returns_the_tombstone() {
    let mut store = Store::new();
    store.delete("a", 3, 1);
    let prior = store.delete("a", 4, 1).map(|v| (v.data, v.ts, v.node_id));
    assert_eq!(prior, Some((None, 3, 1)));
}

#[test]
fn late_put_does_not_undo_a_delete() {
    let mut store = Store::new();
    store.put("a".to_string(), "x".to_string(), 5, 1);
    store.delete("a", 9, 1);
    store.put("a".to_string(), "x".to_string(), 5, 1);
    assert_eq!(stored(&store, "a"), Some((None, 9, 1)));
}

#[test]
fn apply_runs_puts_and_deletes() {
    let mut store = Store::new();
    assert!(store.apply(put_entry(1, 1, "a", "x")).is_none());
    assert!(store.apply(put_entry(2, 1, "a", "y")).is_none());
    let prior = store.apply(delete_entry(3, 1, "a")).map(|v| (v.data, v.ts, v.node_id));
    assert_eq!(prior, Some((Some("y".to_string()), 2, 1)));
    assert_eq!(stored(&store, "a"), Some((None, 3, 1)));
}

#[test]
fn is_fresh_compares_with_what_is_stored() {
    let mut store = Store::new();
    assert!(store.is_fresh(&put_entry(1, 1, "a", "x")));
    store.put("a".to_string(), "x".to_string(), 5, 2);
    assert!(!store.is_fresh(&put_entry(5, 2, "a", "z")));
    assert!(!store.is_fresh(&delete_entry(4, 9, "a")));
    assert!(store.is_fresh(&delete_entry(5, 3, "a")));
    assert!(store.is_fresh(&put_entry(1, 1, "b", "x")));
}

#[test]
fn order_of_writes_does_not_matter() {
    let writes = vec![
        put_entry(1, 1, "a", "one"),
        put_entry(4, 2, "a", "four"),
        delete_entry(3, 1, "a"),
        put_entry(2, 3, "b", "two"),
        delete_entry(7, 1, "b"),
        put_entry(7, 2, "b", "seven"),
        put_entry(5, 1, "c", "five"),
    ];
    let orders: Vec<Vec<usize>> = vec![
        vec![0, 1, 2, 3, 4, 5, 6],
        vec![6, 5, 4, 3, 2, 1, 0],
        vec![3, 0, 5, 2, 6, 1, 4],
        vec![1, 1, 0, 2, 5, 4, 3, 6, 0],
    ];
    for order in orders {
        let mut store = Store::new();
        for i in order {
            store.apply(writes[i].clone());
        }
        assert_eq!(stored(&store, "a"), Some((Some("four".to_string()), 4, 2)));
        assert_eq!(stored(&store, "b"), Some((Some("seven".to_string()), 7, 2)));
        assert_eq!(stored(&store, "c"), Some((Some("five".to_string()), 5, 1)));
        assert!(store.get("d").is_none());
    }
}

#[test]
fn applying_twice_changes_nothing() {
    let writes = vec![
        put_entry(2, 1, "a", "x"),
        delete_entry(3, 1, "a"),
        put_entry(1, 1, "b", "y"),
    ];
    let mut store = Store::new();
    for w in &writes {
        store.apply(w.clone());
    }
    let once = (stored(&store, "a"), stored(&store, "b"));
    for w in &writes {
        store.apply(w.clone());
    }
    assert_eq!((stored(&store, "a"), stored(&store, "b")), once);
    assert_eq!(once.0, Some((None, 3, 1)));
    assert_eq!(once.1, Some((Some("y".to_string()), 1, 1)));
}

#[test]
fn entry_key_is_the_key_of_its_operation() {
    assert_eq!(put_entry(1, 1, "k1", "v").key(), "k1");
    assert_eq!(delete_entry(1, 1, "k2").key(), "k2");
    let copy = put_entry(3, 4, "k", "v").clone();
    assert_eq!(copy.ts, 3);
    assert_eq!(copy.node_id, 4);
    assert!(matches!(copy.operation, Operation::Put { ref key, ref value } if key == "k" && value == "v"));
}
