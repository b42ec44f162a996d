//! The last-writer-wins map.
//!
//! The store maps each key to the newest write it has seen for that key. A
//! delete is kept as a tombstone, a value without data, so that it takes
//! part in the order of writes like any other write and an older put that
//! arrives late cannot bring the key back.

use vstd::prelude::*;
use vstd::hash_map::StringHashMap;
use crate::entry::{LogEntry, LogEntryView, Operation};
use crate::value::{value_view, written_value, Value, ValueView};

verus! {

/// The state of a store: what it holds under each key.
pub type StoreView = Map<Seq<char>, ValueView>;

/// The state after a write of `incoming` to `key`: the write replaces what
/// is there when nothing is there or the write is newer, and is dropped
/// otherwise.
pub open spec fn lww_write(state: StoreView, key: Seq<char>, incoming: ValueView) -> StoreView {
    if incoming.is_newer_than(lookup(state, key)) {
        state.insert(key, incoming)
    } else {
        state
    }
}

/// What the state holds under `key`.
pub open spec fn lookup(state: StoreView, key: Seq<char>) -> Option<ValueView> {
    if state.contains_key(key) {
        Some(state[key])
    } else {
        None
    }
}

/// The state after applying one entry.
pub open spec fn apply_entry(state: StoreView, entry: LogEntryView) -> StoreView {
    lww_write(state, entry.key(), written_value(entry))
}

/// The state after applying a list of entries, the first of them first.
pub open spec fn apply_all(state: StoreView, entries: Seq<LogEntryView>) -> StoreView
    decreases entries.len(),
{
    if entries.len() == 0 {
        state
    } else {
        apply_entry(apply_all(state, entries.drop_last()), entries.last())
    }
}

/// What a write of `incoming` to `key` pushes out of the state: the value
/// that was there, where the write replaces one.
pub open spec fn replaced_by(state: StoreView, key: Seq<char>, incoming: ValueView) -> Option<
    ValueView,
> {
    if incoming.is_newer_than(lookup(state, key)) {
        lookup(state, key)
    } else {
        None
    }
}

/// Whether applying `entry` to `state` would change it: the state holds
/// nothing under the entry's key, or what it holds is older.
pub open spec fn is_fresh(state: StoreView, entry: LogEntryView) -> bool {
    written_value(entry).is_newer_than(lookup(state, entry.key()))
}

/// The last-writer-wins map from keys to values.
pub struct Store {
    inner: StringHashMap<Value>,
}

impl View for Store {
    type V = StoreView;

    closed spec fn view(&self) -> StoreView {
        self.inner@.map_values(|v: Value| v@)
    }
}

impl Store {
    /// An empty store.
    pub fn new() -> (store: Self)
        ensures
            store@ == Map::<Seq<char>, ValueView>::empty(),
    {
        let store = Store { inner: StringHashMap::new() };
        assert(store@ =~= Map::<Seq<char>, ValueView>::empty());
        store
    }

    /// Writes `value` under `key` with the stamp `(ts, node_id)`, unless
    /// the store already holds a write for `key` that is as new or newer.
    pub fn put(&mut self, key: String, value: String, ts: u64, node_id: u64)
        ensures
            final(self)@ == lww_write(
                old(self)@,
                key@,
                ValueView { data: Some(value@), ts, node_id },
            ),
    {
        let incoming = Value { data: Some(value), ts, node_id };
        let newer = incoming.is_newer_than(self.inner.get(key.as_str()));
        if newer {
            let ghost before = self.inner@;
            self.inner.insert(key, incoming);
            assert(self.inner@.map_values(|v: Value| v@) =~= before.map_values(|v: Value| v@).insert(
                key@,
                incoming@,
            ));
        }
    }

    /// What the store holds under `key`: a value with data, a tombstone,
    /// or nothing where the key was never written.
    pub fn get(&self, key: &str) -> (found: Option<Value>)
        ensures
            value_view(found) == lookup(self@, key@),
    {
        match self.inner.get(key) {
            Some(v) => Some(v.clone()),
            None => None,
        }
    }

    /// Writes a tombstone under `key` with the stamp `(ts, node_id)`,
    /// unless the store already holds a write for `key` that is as new or
    /// newer. Returns the value that the tombstone replaced; nothing where
    /// the key was never written or the tombstone was dropped.
    pub fn delete(&mut self, key: &str, ts: u64, node_id: u64) -> (prior: Option<Value>)
        ensures
            final(self)@ == lww_write(old(self)@, key@, ValueView { data: None, ts, node_id }),
            value_view(prior) == replaced_by(
                old(self)@,
                key@,
                ValueView { data: None, ts, node_id },
            ),
    {
        let incoming = Value { data: None, ts, node_id };
        let ghost before = self.inner@;
        let prior = match self.inner.get(key) {
            None => None,
            Some(existing) => {
                if incoming.is_newer_than(Some(existing)) {
                    Some(existing.clone())
                } else {
                    return None;
                }
            },
        };
        self.inner.insert(String::from_str(key), incoming);
        assert(self.inner@.map_values(|v: Value| v@) =~= before.map_values(|v: Value| v@).insert(
            key@,
            incoming@,
        ));
        prior
    }

    /// Applies one entry: a put writes its value, a delete a tombstone.
    /// Returns what [`Store::delete`] returns for a delete, and nothing
    /// for a put.
    pub fn apply(&mut self, entry: LogEntry) -> (prior: Option<Value>)
        ensures
            final(self)@ == apply_entry(old(self)@, entry@),
            value_view(prior) == (if entry@.operation is Put {
                None
            } else {
                replaced_by(old(self)@, entry@.key(), written_value(entry@))
            }),
    {
        let LogEntry { ts, node_id, operation } = entry;
        match operation {
            Operation::Put { key, value } => {
                self.put(key, value, ts, node_id);
                None
            },
            Operation::Delete { key } => self.delete(key.as_str(), ts, node_id),
        }
    }

    /// Whether applying `entry` would change the store.
    pub fn is_fresh(&self, entry: &LogEntry) -> (fresh: bool)
        ensures
            fresh == is_fresh(self@, entry@),
    {
        let incoming = Value { data: None, ts: entry.ts, node_id: entry.node_id };
        incoming.is_newer_than(self.inner.get(entry.key()))
    }
}

} // verus!
