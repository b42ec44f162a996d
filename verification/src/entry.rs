//! The unit of durability and replication: one stamped operation.

use vstd::prelude::*;

verus! {

/// A change to one key.
#[derive(Debug)]
pub enum Operation {
    Put { key: String, value: String },
    Delete { key: String },
}

/// The mathematical content of an [`Operation`].
pub enum OperationView {
    Put { key: Seq<char>, value: Seq<char> },
    Delete { key: Seq<char> },
}

impl OperationView {
    /// The key that the operation writes to.
    pub open spec fn key(self) -> Seq<char> {
        match self {
            OperationView::Put { key, .. } => key,
            OperationView::Delete { key } => key,
        }
    }

    /// The data that the operation leaves under its key: the value of a
    /// put, nothing for a delete.
    pub open spec fn data(self) -> Option<Seq<char>> {
        match self {
            OperationView::Put { value, .. } => Some(value),
            OperationView::Delete { .. } => None,
        }
    }
}

impl View for Operation {
    type V = OperationView;

    open spec fn view(&self) -> OperationView {
        match self {
            Operation::Put { key, value } => OperationView::Put { key: key@, value: value@ },
            Operation::Delete { key } => OperationView::Delete { key: key@ },
        }
    }
}

impl Clone for Operation {
    fn clone(&self) -> (copy: Self)
        ensures
            copy == *self,
    {
        match self {
            Operation::Put { key, value } => Operation::Put {
                key: key.clone(),
                value: value.clone(),
            },
            Operation::Delete { key } => Operation::Delete { key: key.clone() },
        }
    }
}

impl Operation {
    /// The key that the operation writes to.
    pub fn key(&self) -> (key: &str)
        ensures
            key@ == self@.key(),
    {
        match self {
            Operation::Put { key, .. } => key.as_str(),
            Operation::Delete { key } => key.as_str(),
        }
    }
}

/// An operation together with its place in the order of writes: the Lamport
/// timestamp it was issued at and the node that issued it.
#[derive(Debug)]
pub struct LogEntry {
    pub ts: u64,
    pub node_id: u64,
    pub operation: Operation,
}

/// The mathematical content of a [`LogEntry`].
pub struct LogEntryView {
    pub ts: u64,
    pub node_id: u64,
    pub operation: OperationView,
}

impl LogEntryView {
    /// The key that the entry writes to.
    pub open spec fn key(self) -> Seq<char> {
        self.operation.key()
    }
}

impl View for LogEntry {
    type V = LogEntryView;

    open spec fn view(&self) -> LogEntryView {
        LogEntryView { ts: self.ts, node_id: self.node_id, operation: self.operation@ }
    }
}

impl Clone for LogEntry {
    fn clone(&self) -> (copy: Self)
        ensures
            copy == *self,
    {
        LogEntry { ts: self.ts, node_id: self.node_id, operation: self.operation.clone() }
    }
}

impl LogEntry {
    /// The key that the entry writes to.
    pub fn key(&self) -> (key: &str)
        ensures
            key@ == self@.key(),
    {
        self.operation.key()
    }
}

/// The contents of a list of entries, in order.
pub open spec fn entries_view(entries: Seq<LogEntry>) -> Seq<LogEntryView> {
    entries.map_values(|e: LogEntry| e@)
}

} // verus!
