//! Storage engine of a replicated key-value node.
//!
//! The node keeps a last-writer-wins map from string keys to string values.
//! Every write carries a Lamport timestamp and the identifier of the node
//! that issued it; of two writes to one key the one with the larger
//! `(timestamp, node)` pair survives, and a delete is a write without data.
//!
//! The modules hold the pieces of that engine: the clock, the map, the
//! replay of the write-ahead log, recovery at startup, the quorum rules of
//! the leader, the batching of the background replicator, and the decisions
//! that the request handlers take. Everything that touches a file, a socket
//! or a timer is left to the program around this library, which hands in
//! plain values and gets plain values back.

pub mod api;
pub mod apply;
pub mod clock;
pub mod cluster;
pub mod convergence;
pub mod endpoint;
pub mod entry;
pub mod json;
pub mod quorum;
pub mod recovery;
pub mod replicator;
pub mod store;
pub mod value;
pub mod wal;

pub use api::{GetResp, PutBody, Status};
pub use clock::LamportClock;
pub use cluster::{CliArgs, ClusterState};
pub use entry::{LogEntry, LogEntryView, Operation, OperationView};
pub use quorum::{quorum_read, quorum_write};
pub use recovery::recover_from_snapshot_and_wal;
pub use replicator::ReplicateBody;
pub use store::Store;
pub use value::{Value, ValueView};
pub use wal::{replay_wal, WalLine};
