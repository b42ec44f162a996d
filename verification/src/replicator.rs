//! The batching of the leader's background replicator.
//!
//! Beside the synchronous quorum the leader pushes every entry to every
//! peer in the background. For each peer a worker collects the entries in
//! a batch and sends the batch when it is full or when a timer ticks,
//! provided the peer is taken to be alive. A batch that could not be
//! delivered is kept and sent again at the next occasion, so a peer gets
//! the entries in the order in which the leader issued them, possibly more
//! than once.
//!
//! The worker's queue, its timer and the sending are the caller's. This
//! module holds the batch and decides, event by event, what to do.

use vstd::prelude::*;
use crate::entry::{entries_view, LogEntry, LogEntryView};

verus! {

/// The size at which a batch is sent without waiting for the timer.
pub const BATCH_MAX: usize = 128;

/// The period of a worker's timer, in milliseconds.
pub const FLUSH_MS: u64 = 500;

/// The time after which a request to a peer is given up, in seconds.
pub const PEER_TIMEOUT_SECS: u64 = 2;

/// The number of entries that may wait for one peer's worker.
pub const PEER_QUEUE_CAPACITY: usize = 1024;

/// The number of entries that may wait to be handed to the workers.
pub const REPLICATION_QUEUE_CAPACITY: usize = 4096;

/// What is sent to a peer's replication endpoint.
#[derive(Debug)]
pub struct ReplicateBody {
    pub entries: Vec<LogEntry>,
}

impl View for ReplicateBody {
    type V = Seq<LogEntryView>;

    open spec fn view(&self) -> Seq<LogEntryView> {
        entries_view(self.entries@)
    }
}

impl ReplicateBody {
    /// The body that carries one entry.
    pub fn single(entry: LogEntry) -> (body: Self)
        ensures
            body@ == seq![entry@],
    {
        let mut entries: Vec<LogEntry> = Vec::new();
        entries.push(entry);
        let body = ReplicateBody { entries };
        assert(body@ =~= seq![entry@]);
        body
    }
}

/// What happens to a peer's worker.
#[derive(Debug)]
pub enum WorkerEvent {
    /// The leader issued this entry.
    Entry(LogEntry),
    /// The timer ticked.
    Tick,
    /// The leader will issue no more entries.
    Closed,
}

/// What a peer's worker does next.
#[derive(Debug, Clone, Copy, PartialEq, Eq, Structural)]
pub enum WorkerAction {
    /// Wait for the next event.
    Wait,
    /// Send the batch to the peer, and report the outcome.
    Flush,
    /// End the worker.
    Stop,
}

/// The entries that wait to be sent to one peer, oldest first.
#[derive(Debug)]
pub struct PeerBatch {
    entries: Vec<LogEntry>,
}

impl View for PeerBatch {
    type V = Seq<LogEntryView>;

    closed spec fn view(&self) -> Seq<LogEntryView> {
        entries_view(self.entries@)
    }
}

/// The batch after an event.
pub open spec fn batch_after(batch: Seq<LogEntryView>, event: WorkerEvent) -> Seq<LogEntryView> {
    match event {
        WorkerEvent::Entry(e) => batch.push(e@),
        _ => batch,
    }
}

/// What the worker does after an event that left it with `batch`, given
/// whether the peer is taken to be alive.
pub open spec fn action_after(batch: Seq<LogEntryView>, event: WorkerEvent, alive: bool)
    -> WorkerAction {
    match event {
        WorkerEvent::Entry(_) => if batch.len() >= BATCH_MAX && alive {
            WorkerAction::Flush
        } else {
            WorkerAction::Wait
        },
        WorkerEvent::Tick => if batch.len() > 0 && alive {
            WorkerAction::Flush
        } else {
            WorkerAction::Wait
        },
        WorkerEvent::Closed => WorkerAction::Stop,
    }
}

/// The batch after an attempt to send it.
pub open spec fn batch_after_flush(batch: Seq<LogEntryView>, delivered: bool) -> Seq<
    LogEntryView,
> {
    if delivered {
        Seq::empty()
    } else {
        batch
    }
}

impl PeerBatch {
    /// An empty batch.
    pub fn new() -> (batch: Self)
        ensures
            batch@ == Seq::<LogEntryView>::empty(),
    {
        let batch = PeerBatch { entries: Vec::with_capacity(BATCH_MAX) };
        assert(batch@ =~= Seq::<LogEntryView>::empty());
        batch
    }

    /// The number of entries that wait.
    pub fn len(&self) -> (len: usize)
        ensures
            len == self@.len(),
    {
        self.entries.len()
    }

    /// Takes in one event. An entry joins the batch at its end. The batch
    /// is to be sent when it has grown full, or when the timer ticks and
    /// it is not empty, in both cases only if the peer is alive.
    pub fn on_event(&mut self, event: WorkerEvent, alive: bool) -> (action: WorkerAction)
        ensures
            final(self)@ == batch_after(old(self)@, event),
            action == action_after(final(self)@, event, alive),
    {
        match event {
            WorkerEvent::Entry(entry) => {
                let ghost before = self@;
                self.entries.push(entry);
                assert(self@ =~= before.push(entry@));
                if self.entries.len() >= BATCH_MAX && alive {
                    WorkerAction::Flush
                } else {
                    WorkerAction::Wait
                }
            },
            WorkerEvent::Tick => {
                if self.entries.len() > 0 && alive {
                    WorkerAction::Flush
                } else {
                    WorkerAction::Wait
                }
            },
            WorkerEvent::Closed => WorkerAction::Stop,
        }
    }

    /// What to send to the peer: the whole batch, oldest entry first.
    /// Nothing where the batch is empty.
    pub fn body(&self) -> (body: Option<ReplicateBody>)
        ensures
            body is Some <==> self@.len() > 0,
            body matches Some(b) ==> b@ == self@,
    {
        if self.entries.len() == 0 {
            None
        } else {
            let entries = self.entries.clone();
            assert(entries@ =~= self.entries@);
            Some(ReplicateBody { entries })
        }
    }

    /// Takes in the outcome of sending the batch: delivered, it is
    /// emptied; otherwise it is kept for the next attempt.
    pub fn on_flush(&mut self, delivered: bool)
        ensures
            final(self)@ == batch_after_flush(old(self)@, delivered),
    {
        if delivered {
            self.entries.clear();
            assert(self@ =~= Seq::<LogEntryView>::empty());
        }
    }
}

/// One step in the life of a peer's worker, as far as the order of
/// delivery goes.
pub enum WorkerStep {
    /// The leader issued this entry.
    Issued(LogEntryView),
    /// The batch was sent, and delivered or not.
    Sent(bool),
}

/// What a peer was sent and what still waits for it: the entries of the
/// batches that were delivered, in order, and the batch.
pub struct Delivery {
    pub delivered: Seq<LogEntryView>,
    pub waiting: Seq<LogEntryView>,
}

/// The deliveries after one step.
pub open spec fn delivery_step(state: Delivery, step: WorkerStep) -> Delivery {
    match step {
        WorkerStep::Issued(e) => Delivery { waiting: state.waiting.push(e), ..state },
        WorkerStep::Sent(delivered) => Delivery {
            delivered: if delivered {
                state.delivered + state.waiting
            } else {
                state.delivered
            },
            waiting: batch_after_flush(state.waiting, delivered),
        },
    }
}

/// The deliveries after a run of steps, the first of them first.
pub open spec fn delivery_run(steps: Seq<WorkerStep>) -> Delivery
    decreases steps.len(),
{
    if steps.len() == 0 {
        Delivery { delivered: Seq::empty(), waiting: Seq::empty() }
    } else {
        delivery_step(delivery_run(steps.drop_last()), steps.last())
    }
}

/// The entries that the leader issued over a run of steps, in order.
pub open spec fn issued(steps: Seq<WorkerStep>) -> Seq<LogEntryView>
    decreases steps.len(),
{
    if steps.len() == 0 {
        Seq::empty()
    } else {
        match steps.last() {
            WorkerStep::Issued(e) => issued(steps.drop_last()).push(e),
            WorkerStep::Sent(_) => issued(steps.drop_last()),
        }
    }
}

/// A peer gets the entries in the order in which the leader issued them,
/// and none is lost: at every moment what was delivered, followed by what
/// waits, is what was issued.
pub proof fn lemma_delivery_is_in_order(steps: Seq<WorkerStep>)
    ensures
        delivery_run(steps).delivered + delivery_run(steps).waiting == issued(steps),
    decreases steps.len(),
{
    if steps.len() == 0 {
        assert(Seq::<LogEntryView>::empty() + Seq::<LogEntryView>::empty() =~= Seq::<
            LogEntryView,
        >::empty());
    } else {
        let before = delivery_run(steps.drop_last());
        let after = delivery_run(steps);
        lemma_delivery_is_in_order(steps.drop_last());
        match steps.last() {
            WorkerStep::Issued(e) => {
                assert(after.delivered + after.waiting =~= (before.delivered
                    + before.waiting).push(e));
            },
            WorkerStep::Sent(delivered) => {
                assert(after.delivered + after.waiting =~= before.delivered + before.waiting);
            },
        }
    }
}

} // verus!
