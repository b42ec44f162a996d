//! What the store keeps under a key, and the order that decides between
//! two writes.

use vstd::prelude::*;
use crate::entry::LogEntryView;

verus! {

/// The order of writes: a write stamped `(ts, node)` is newer than one
/// stamped `(other_ts, other_node)` when its timestamp is larger, or the
/// timestamps are equal and its node identifier is larger.
pub open spec fn stamp_newer(ts: u64, node: u64, other_ts: u64, other_node: u64) -> bool {
    ts > other_ts || (ts == other_ts && node > other_node)
}

/// What is stored under a key: the data of the last write, or no data where
/// the last write was a delete, with the stamp of that write.
#[derive(Debug)]
pub struct Value {
    pub data: Option<String>,
    pub ts: u64,
    pub node_id: u64,
}

/// The mathematical content of a [`Value`].
pub struct ValueView {
    pub data: Option<Seq<char>>,
    pub ts: u64,
    pub node_id: u64,
}

impl ValueView {
    /// Whether this value was written after `other`. Any value is newer
    /// than none.
    pub open spec fn is_newer_than(self, other: Option<ValueView>) -> bool {
        match other {
            None => true,
            Some(v) => stamp_newer(self.ts, self.node_id, v.ts, v.node_id),
        }
    }

    /// Whether the two values carry the same stamp.
    pub open spec fn same_stamp(self, other: ValueView) -> bool {
        self.ts == other.ts && self.node_id == other.node_id
    }

    /// A tombstone holds no data.
    pub open spec fn is_tombstone(self) -> bool {
        self.data is None
    }
}

/// What an entry leaves under its key.
pub open spec fn written_value(entry: LogEntryView) -> ValueView {
    ValueView { data: entry.operation.data(), ts: entry.ts, node_id: entry.node_id }
}

/// The content of a text that may be missing.
pub open spec fn text_view(text: Option<String>) -> Option<Seq<char>> {
    match text {
        Some(s) => Some(s@),
        None => None,
    }
}

/// The content of a value that may be missing.
pub open spec fn value_view(value: Option<Value>) -> Option<ValueView> {
    match value {
        Some(v) => Some(v@),
        None => None,
    }
}

impl View for Value {
    type V = ValueView;

    open spec fn view(&self) -> ValueView {
        ValueView { data: text_view(self.data), ts: self.ts, node_id: self.node_id }
    }
}

impl Clone for Value {
    fn clone(&self) -> (copy: Self)
        ensures
            copy == *self,
    {
        let data = match &self.data {
            Some(s) => Some(s.clone()),
            None => None,
        };
        Value { data, ts: self.ts, node_id: self.node_id }
    }
}

impl Value {
    /// Whether this value was written after `other`. Any value is newer
    /// than none.
    pub fn is_newer_than(&self, other: Option<&Value>) -> (newer: bool)
        ensures
            newer == self@.is_newer_than(
                match other {
                    Some(v) => Some(v@),
                    None => None,
                },
            ),
    {
        match other {
            None => true,
            Some(v) => (self.ts > v.ts) || (self.ts == v.ts && self.node_id > v.node_id),
        }
    }
}

/// The order of writes is strict: no stamp is newer than itself, and of two
/// stamps at most one is newer than the other.
pub proof fn lemma_newer_is_strict(ts: u64, node: u64, other_ts: u64, other_node: u64)
    ensures
        !stamp_newer(ts, node, ts, node),
        stamp_newer(ts, node, other_ts, other_node) ==> !stamp_newer(other_ts, other_node, ts, node),
{
}

/// The order of writes is total: of two different stamps one is newer.
pub proof fn lemma_newer_is_total(ts: u64, node: u64, other_ts: u64, other_node: u64)
    ensures
        stamp_newer(ts, node, other_ts, other_node) || stamp_newer(other_ts, other_node, ts, node)
            || (ts == other_ts && node == other_node),
{
}

/// The order of writes is transitive.
pub proof fn lemma_newer_is_transitive(a: ValueView, b: ValueView, c: ValueView)
    requires
        a.is_newer_than(Some(b)),
        b.is_newer_than(Some(c)),
    ensures
        a.is_newer_than(Some(c)),
{
}

} // verus!
