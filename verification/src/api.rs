//! The decisions of the request handlers for single keys.
//!
//! A write is stamped by the clock, made durable in the write-ahead log,
//! applied to the store, and, on the leader, held back until a quorum of
//! the cluster has it. A read is answered from the store on a follower
//! and from a quorum of the cluster on the leader. The handlers do the
//! waiting: they append to the log and ask the peers. What they do in
//! between, and what they answer, is decided here.

use vstd::prelude::*;
use crate::clock::{after_send, LamportClock};
use crate::cluster::ClusterState;
use crate::entry::{LogEntry, LogEntryView, Operation, OperationView};
use crate::quorum::{majority, quorum_size};
use crate::store::{apply_entry, lookup, replaced_by, Store};
use crate::value::{text_view, written_value, Value, ValueView};

verus! {

/// How a request ended.
#[derive(Debug, Clone, Copy, PartialEq, Eq, Structural)]
pub enum Status {
    /// The request was carried out.
    Success,
    /// The key holds no data.
    NotFound,
    /// The log could not be written, or the quorum was not reached.
    ServerError,
}

impl Status {
    /// The status as a number.
    pub open spec fn code_of(self) -> u16 {
        match self {
            Status::Success => 200,
            Status::NotFound => 404,
            Status::ServerError => 500,
        }
    }

    /// The status as a number.
    pub fn code(&self) -> (code: u16)
        ensures
            code == self.code_of(),
    {
        match self {
            Status::Success => 200,
            Status::NotFound => 404,
            Status::ServerError => 500,
        }
    }
}

/// What a client sends with a put.
#[derive(Debug)]
pub struct PutBody {
    pub value: String,
}

/// What a node answers to a get.
#[derive(Debug)]
pub struct GetResp {
    pub data: Option<String>,
    pub ts: u64,
    pub node_id: u64,
}

impl View for GetResp {
    type V = ValueView;

    open spec fn view(&self) -> ValueView {
        ValueView { data: text_view(self.data), ts: self.ts, node_id: self.node_id }
    }
}

impl GetResp {
    /// The answer that carries `value`.
    pub fn from_value(value: Value) -> (resp: Self)
        ensures
            resp@ == value@,
    {
        GetResp { data: value.data, ts: value.ts, node_id: value.node_id }
    }

    /// The value that the answer carries.
    pub fn into_value(self) -> (value: Value)
        ensures
            value@ == self@,
    {
        Value { data: self.data, ts: self.ts, node_id: self.node_id }
    }
}

/// What a node holds for a key that it has never seen: no data, stamped
/// so that every write is newer.
pub open spec fn absent_value(node_id: u64) -> ValueView {
    ValueView { data: None, ts: 0, node_id }
}

/// What a node answers for `key` from its own store.
pub open spec fn local_answer(state: Map<Seq<char>, ValueView>, node_id: u64, key: Seq<char>)
    -> ValueView {
    match lookup(state, key) {
        Some(v) => v,
        None => absent_value(node_id),
    }
}

/// The status of a read that found `value`: a key without data, deleted
/// or never written, is not found.
pub open spec fn found_status(value: ValueView) -> Status {
    if value.data is Some {
        Status::Success
    } else {
        Status::NotFound
    }
}

/// The entry for a put of `value` under `key`, issued by node `node_id`
/// at the time `ts`.
pub open spec fn put_entry(ts: u64, node_id: u64, key: Seq<char>, value: Seq<char>)
    -> LogEntryView {
    LogEntryView { ts, node_id, operation: OperationView::Put { key, value } }
}

/// The entry for a delete of `key`, issued by node `node_id` at the time
/// `ts`.
pub open spec fn delete_entry(ts: u64, node_id: u64, key: Seq<char>) -> LogEntryView {
    LogEntryView { ts, node_id, operation: OperationView::Delete { key } }
}

/// Stamps a put: advances the clock and returns the entry to log.
pub fn stamp_put(clock: &mut LamportClock, cluster: &ClusterState, key: String, body: PutBody)
    -> (entry: LogEntry)
    requires
        old(clock)@ < u64::MAX,
    ensures
        final(clock)@ == after_send(old(clock)@),
        entry@ == put_entry(final(clock)@ as u64, cluster@.node_id, key@, body.value@),
{
    let ts = clock.tick_send();
    LogEntry { ts, node_id: cluster.node_id, operation: Operation::Put { key, value: body.value } }
}

/// Stamps a delete: advances the clock and returns the entry to log.
pub fn stamp_delete(clock: &mut LamportClock, cluster: &ClusterState, key: String) -> (entry:
    LogEntry)
    requires
        old(clock)@ < u64::MAX,
    ensures
        final(clock)@ == after_send(old(clock)@),
        entry@ == delete_entry(final(clock)@ as u64, cluster@.node_id, key@),
{
    let ts = clock.tick_send();
    LogEntry { ts, node_id: cluster.node_id, operation: Operation::Delete { key } }
}

/// What a handler does next with a write.
#[derive(Debug, Clone, Copy, PartialEq, Eq, Structural)]
pub enum WriteStep {
    /// Answer the client with this status.
    Reply(Status),
    /// Send the entry to the peers and wait until `quorum` nodes, this
    /// one included, have it; then answer as [`finish_write`] says.
    AskPeers { quorum: usize, on_success: Status },
}

/// The status of a write that was applied here, before any peer is
/// asked. A put succeeds. A delete succeeds when it took data away; a
/// delete of a key that was never written, or that held a tombstone, or
/// that holds a newer write, did not find its key.
pub open spec fn local_status(state: Map<Seq<char>, ValueView>, entry: LogEntryView) -> Status {
    if entry.operation is Put {
        Status::Success
    } else {
        match replaced_by(state, entry.key(), written_value(entry)) {
            Some(prior) => found_status(prior),
            None => Status::NotFound,
        }
    }
}

/// What follows a write that was applied here with the status `local`.
pub open spec fn step_after_commit(local: Status, leader: bool, peers: nat) -> WriteStep {
    if leader {
        WriteStep::AskPeers { quorum: majority(peers + 1) as usize, on_success: local }
    } else {
        WriteStep::Reply(local)
    }
}

/// Carries on with a write once the log was asked to hold its entry.
/// `durable` says whether the entry was appended and synced. If not, the
/// store is left alone and the write fails. Otherwise the entry is
/// applied to the store; a follower then answers the client, and the
/// leader asks its peers first.
pub fn commit_write(store: &mut Store, cluster: &ClusterState, entry: &LogEntry, durable: bool)
    -> (step: WriteStep)
    ensures
        final(store)@ == (if durable {
            apply_entry(old(store)@, entry@)
        } else {
            old(store)@
        }),
        step == (if durable {
            step_after_commit(
                local_status(old(store)@, entry@),
                cluster@.is_leader(),
                cluster@.peer_addresses.len(),
            )
        } else {
            WriteStep::Reply(Status::ServerError)
        }),
{
    if !durable {
        return WriteStep::Reply(Status::ServerError);
    }
    let is_put = match &entry.operation {
        Operation::Put { .. } => true,
        Operation::Delete { .. } => false,
    };
    let prior = store.apply(entry.clone());
    let took_data = match &prior {
        Some(value) => value.data.is_some(),
        None => false,
    };
    let local = if is_put || took_data {
        Status::Success
    } else {
        Status::NotFound
    };
    if cluster.is_leader() {
        WriteStep::AskPeers { quorum: quorum_size(cluster.peer_addresses.len()), on_success: local }
    } else {
        WriteStep::Reply(local)
    }
}

/// How a write on the leader ends.
#[derive(Debug, Clone, Copy, PartialEq, Eq, Structural)]
pub struct WriteReply {
    /// What the client is answered.
    pub status: Status,
    /// Whether the entry goes to the background replicator.
    pub replicate: bool,
}

/// Ends a write on the leader, given whether the quorum was reached:
/// with the quorum the client gets the status of the local write,
/// without it the write fails. The entry stays in the log and the store
/// either way, and either way it goes to the background replicator: a
/// write that missed its quorum still reaches the peers that way.
pub fn finish_write(on_success: Status, outcome: Result<(), ()>) -> (reply: WriteReply)
    ensures
        reply == (WriteReply {
            status: if outcome is Ok {
                on_success
            } else {
                Status::ServerError
            },
            replicate: true,
        }),
{
    match outcome {
        Ok(_) => WriteReply { status: on_success, replicate: true },
        Err(_) => WriteReply { status: Status::ServerError, replicate: true },
    }
}

/// What a handler does next with a read.
#[derive(Debug)]
pub enum ReadStep {
    /// Answer the client.
    Reply { status: Status, body: GetResp },
    /// Ask the peers for their value; with `quorum` values, `local`
    /// included, answer as [`finish_read`] says.
    AskPeers { quorum: usize, local: Value },
}

/// The mathematical content of a [`ReadStep`].
pub enum ReadStepView {
    Reply { status: Status, body: ValueView },
    AskPeers { quorum: nat, local: ValueView },
}

impl View for ReadStep {
    type V = ReadStepView;

    open spec fn view(&self) -> ReadStepView {
        match self {
            ReadStep::Reply { status, body } => ReadStepView::Reply { status: *status, body: body@ },
            ReadStep::AskPeers { quorum, local } => ReadStepView::AskPeers {
                quorum: *quorum as nat,
                local: local@,
            },
        }
    }
}

/// What this node answers for `key` from its own store: what the store
/// holds, a tombstone as it is, or the absent value.
pub fn local_value(store: &Store, cluster: &ClusterState, key: &str) -> (value: Value)
    ensures
        value@ == local_answer(store@, cluster@.node_id, key@),
{
    match store.get(key) {
        Some(v) => v,
        None => Value { data: None, ts: 0, node_id: cluster.node_id },
    }
}

/// Starts a read. A follower answers from its store, with its stamp, so
/// that a leader that asked can compare; the leader asks its peers.
pub fn begin_read(store: &Store, cluster: &ClusterState, key: &str) -> (step: ReadStep)
    ensures
        step@ == (if cluster@.is_leader() {
            ReadStepView::AskPeers {
                quorum: majority(cluster@.peer_addresses.len() + 1),
                local: local_answer(store@, cluster@.node_id, key@),
            }
        } else {
            ReadStepView::Reply {
                status: Status::Success,
                body: local_answer(store@, cluster@.node_id, key@),
            }
        }),
{
    let local = local_value(store, cluster, key);
    if cluster.is_leader() {
        ReadStep::AskPeers { quorum: quorum_size(cluster.peer_addresses.len()), local }
    } else {
        ReadStep::Reply { status: Status::Success, body: GetResp::from_value(local) }
    }
}

/// How a read on the leader ends.
#[derive(Debug)]
pub struct ReadReply {
    /// What the client is answered.
    pub status: Status,
    /// The value that goes with the answer; none where the read failed.
    pub body: Option<GetResp>,
}

/// Ends a read on the leader, given what the quorum read returned: the
/// newest value, found if it holds data and not found if it is a
/// tombstone or absent; or a failure where too few nodes answered.
pub fn finish_read(outcome: Result<Value, ()>) -> (reply: ReadReply)
    ensures
        match outcome {
            Ok(fresh) => reply.status == found_status(fresh@) && (reply.body matches Some(b)
                && b@ == fresh@),
            Err(_) => reply.status == Status::ServerError && reply.body is None,
        },
{
    match outcome {
        Ok(fresh) => {
            let status = if fresh.data.is_some() {
                Status::Success
            } else {
                Status::NotFound
            };
            ReadReply { status, body: Some(GetResp::from_value(fresh)) }
        },
        Err(_) => ReadReply { status: Status::ServerError, body: None },
    }
}

} // verus!
