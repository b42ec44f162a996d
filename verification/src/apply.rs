//! The taking in of replicated entries.
//!
//! Entries arrive from the leader in batches, and may arrive more than
//! once. Of a batch only the entries that are newer than what the store
//! holds for their key are taken: these are appended to the log, synced
//! once for the whole batch, and only then applied to the store, the
//! clock moving past the timestamp of each. A batch without such entries
//! is acknowledged without touching the log. If the log cannot be written
//! the store is left alone and the batch is refused, so that the leader
//! sends it again.

use vstd::prelude::*;
use crate::api::Status;
use crate::clock::{after_recv, LamportClock};
use crate::convergence::lemma_apply_entry_only_advances;
use crate::entry::{entries_view, LogEntry, LogEntryView, Operation};
use crate::replicator::ReplicateBody;
use crate::store::{apply_all, apply_entry, is_fresh, Store, StoreView};

verus! {

/// The entries of a batch that would change the state, in their order.
pub open spec fn fresh_entries(state: StoreView, batch: Seq<LogEntryView>) -> Seq<LogEntryView>
    decreases batch.len(),
{
    if batch.len() == 0 {
        Seq::empty()
    } else if is_fresh(state, batch.last()) {
        fresh_entries(state, batch.drop_last()).push(batch.last())
    } else {
        fresh_entries(state, batch.drop_last())
    }
}

/// The clock after it received the timestamp of each entry.
pub open spec fn recv_all(counter: nat, entries: Seq<LogEntryView>) -> nat
    decreases entries.len(),
{
    if entries.len() == 0 {
        counter
    } else {
        after_recv(recv_all(counter, entries.drop_last()), entries.last().ts as nat)
    }
}

/// How many of the entries are puts.
pub open spec fn count_puts(entries: Seq<LogEntryView>) -> nat
    decreases entries.len(),
{
    if entries.len() == 0 {
        0
    } else {
        count_puts(entries.drop_last()) + (if entries.last().operation is Put {
            1nat
        } else {
            0nat
        })
    }
}

/// What a handler does next with a batch.
#[derive(Debug)]
pub enum ReplicateStep {
    /// Answer the leader with this status; the log is not touched.
    Reply(Status),
    /// Append these entries to the log, in this order, and sync it once;
    /// then carry on as [`finish_replicate`] says.
    Persist(Vec<LogEntry>),
}

/// The mathematical content of a [`ReplicateStep`].
pub enum ReplicateStepView {
    Reply(Status),
    Persist(Seq<LogEntryView>),
}

impl View for ReplicateStep {
    type V = ReplicateStepView;

    open spec fn view(&self) -> ReplicateStepView {
        match self {
            ReplicateStep::Reply(status) => ReplicateStepView::Reply(*status),
            ReplicateStep::Persist(entries) => ReplicateStepView::Persist(entries_view(entries@)),
        }
    }
}

/// What taking in a batch came to.
#[derive(Debug, Clone, Copy, PartialEq, Eq, Structural)]
pub struct Applied {
    /// What the leader is answered.
    pub status: Status,
    /// How many puts were applied.
    pub puts: usize,
    /// How many deletes were applied.
    pub deletes: usize,
}

/// Starts the taking in of a batch: picks the entries that are newer
/// than what the store holds for their key. Where there are none the
/// batch is acknowledged at once.
pub fn begin_replicate(store: &Store, body: &ReplicateBody) -> (step: ReplicateStep)
    ensures
        step@ == (if fresh_entries(store@, body@).len() == 0 {
            ReplicateStepView::Reply(Status::Success)
        } else {
            ReplicateStepView::Persist(fresh_entries(store@, body@))
        }),
{
    let ghost batch = body@;
    let mut to_apply: Vec<LogEntry> = Vec::with_capacity(body.entries.len());
    let mut i: usize = 0;
    proof {
        assert(batch.take(0) =~= Seq::<LogEntryView>::empty());
        assert(entries_view(to_apply@) =~= Seq::<LogEntryView>::empty());
    }
    while i < body.entries.len()
        invariant
            i <= body.entries.len(),
            batch == body@,
            entries_view(to_apply@) == fresh_entries(store@, batch.take(i as int)),
        decreases body.entries.len() - i,
    {
        let entry = &body.entries[i];
        proof {
            assert(batch.take(i + 1).drop_last() =~= batch.take(i as int));
            assert(batch.take(i + 1).last() == entry@);
        }
        if store.is_fresh(entry) {
            let ghost before = entries_view(to_apply@);
            to_apply.push(entry.clone());
            assert(entries_view(to_apply@) =~= before.push(entry@));
        }
        i = i + 1;
    }
    proof {
        assert(batch.take(i as int) =~= batch);
    }
    if to_apply.len() == 0 {
        ReplicateStep::Reply(Status::Success)
    } else {
        ReplicateStep::Persist(to_apply)
    }
}

/// Whether the clock has room to receive the timestamps of the entries.
pub fn clock_has_room(clock: &LamportClock, entries: &Vec<LogEntry>) -> (room: bool)
    ensures
        room == (recv_all(clock@, entries_view(entries@)) <= u64::MAX),
{
    let ghost all = entries_view(entries@);
    let mut now: u64 = clock.tick_now();
    let mut i: usize = 0;
    proof {
        assert(all.take(0) =~= Seq::<LogEntryView>::empty());
    }
    while i < entries.len()
        invariant
            i <= entries.len(),
            all == entries_view(entries@),
            now == recv_all(clock@, all.take(i as int)),
        decreases entries.len() - i,
    {
        let ts = entries[i].ts;
        proof {
            assert(all.take(i + 1).drop_last() =~= all.take(i as int));
            assert(all.take(i + 1).last() == entries@[i as int]@);
        }
        if now == u64::MAX || ts == u64::MAX {
            proof {
                lemma_recv_all_grows(clock@, all, i + 1);
            }
            return false;
        }
        now = if now >= ts {
            now + 1
        } else {
            ts + 1
        };
        i = i + 1;
    }
    proof {
        assert(all.take(i as int) =~= all);
    }
    true
}

/// Ends the taking in of a batch once the log was asked to hold the
/// entries that [`begin_replicate`] picked. `durable` says whether they
/// were appended and synced. If not, store and clock are left alone and
/// the batch is refused. Otherwise each entry is received by the clock
/// and applied to the store, in order.
pub fn finish_replicate(
    store: &mut Store,
    clock: &mut LamportClock,
    to_apply: &Vec<LogEntry>,
    durable: bool,
) -> (applied: Applied)
    requires
        durable ==> recv_all(old(clock)@, entries_view(to_apply@)) <= u64::MAX,
    ensures
        final(store)@ == (if durable {
            apply_all(old(store)@, entries_view(to_apply@))
        } else {
            old(store)@
        }),
        final(clock)@ == (if durable {
            recv_all(old(clock)@, entries_view(to_apply@))
        } else {
            old(clock)@
        }),
        applied.status == (if durable {
            Status::Success
        } else {
            Status::ServerError
        }),
        applied.puts == (if durable {
            count_puts(entries_view(to_apply@))
        } else {
            0
        }),
        applied.deletes == (if durable {
            to_apply@.len() - count_puts(entries_view(to_apply@))
        } else {
            0
        }),
{
    if !durable {
        return Applied { status: Status::ServerError, puts: 0, deletes: 0 };
    }
    let ghost all = entries_view(to_apply@);
    let mut puts: usize = 0;
    let mut deletes: usize = 0;
    let mut i: usize = 0;
    proof {
        assert(all.take(0) =~= Seq::<LogEntryView>::empty());
    }
    while i < to_apply.len()
        invariant
            i <= to_apply.len(),
            all == entries_view(to_apply@),
            recv_all(old(clock)@, all) <= u64::MAX,
            store@ == apply_all(old(store)@, all.take(i as int)),
            clock@ == recv_all(old(clock)@, all.take(i as int)),
            puts == count_puts(all.take(i as int)),
            puts + deletes == i,
        decreases to_apply.len() - i,
    {
        let entry = to_apply[i].clone();
        proof {
            assert(all.take(i + 1).drop_last() =~= all.take(i as int));
            assert(all.take(i + 1).last() == entry@);
            lemma_recv_all_grows(old(clock)@, all, i + 1);
        }
        clock.tick_recv(entry.ts);
        let is_put = match &entry.operation {
            Operation::Put { .. } => true,
            Operation::Delete { .. } => false,
        };
        store.apply(entry);
        if is_put {
            puts = puts + 1;
        } else {
            deletes = deletes + 1;
        }
        i = i + 1;
    }
    proof {
        assert(all.take(i as int) =~= all);
    }
    Applied { status: Status::Success, puts, deletes }
}

/// Receiving more entries only moves the clock on: after the first
/// `shorter` entries it is no further than after all of them.
pub proof fn lemma_recv_all_grows(counter: nat, entries: Seq<LogEntryView>, shorter: int)
    requires
        0 <= shorter <= entries.len(),
    ensures
        recv_all(counter, entries.take(shorter)) <= recv_all(counter, entries),
        shorter < entries.len() ==> recv_all(counter, entries.take(shorter)) < recv_all(
            counter,
            entries,
        ),
        shorter > 0 ==> entries[shorter - 1].ts < recv_all(counter, entries),
    decreases entries.len() - shorter,
{
    if shorter == entries.len() {
        assert(entries.take(shorter) =~= entries);
    } else {
        lemma_recv_all_grows(counter, entries, shorter + 1);
        assert(entries.take(shorter + 1).drop_last() =~= entries.take(shorter));
        assert(entries.take(shorter + 1).last() == entries[shorter]);
    }
    if shorter > 0 {
        assert(entries.take(shorter).last() == entries[shorter - 1]);
    }
}

/// After a batch was taken in, the clock is past the timestamp of each
/// of its entries, and past where it was.
pub proof fn lemma_clock_passes_batch(counter: nat, entries: Seq<LogEntryView>)
    requires
        entries.len() > 0,
    ensures
        counter < recv_all(counter, entries),
        forall|i: int| 0 <= i < entries.len() ==> (#[trigger] entries[i]).ts < recv_all(
            counter,
            entries,
        ),
{
    lemma_recv_all_grows(counter, entries, 0);
    assert(entries.take(0) =~= Seq::<LogEntryView>::empty());
    assert forall|i: int| 0 <= i < entries.len() implies (#[trigger] entries[i]).ts < recv_all(
        counter,
        entries,
    ) by {
        lemma_recv_all_grows(counter, entries, i + 1);
    }
}

/// A batch in which every entry is as old as what the store holds for
/// its key, or older, has no fresh entries: it is acknowledged without
/// an append to the log.
pub proof fn lemma_stale_batch_needs_no_log(state: StoreView, batch: Seq<LogEntryView>)
    requires
        forall|i: int| 0 <= i < batch.len() ==> !is_fresh(state, #[trigger] batch[i]),
    ensures
        fresh_entries(state, batch) == Seq::<LogEntryView>::empty(),
    decreases batch.len(),
{
    if batch.len() > 0 {
        let front = batch.drop_last();
        assert forall|i: int| 0 <= i < front.len() implies !is_fresh(state, #[trigger] front[i]) by {
            assert(front[i] == batch[i]);
        }
        lemma_stale_batch_needs_no_log(state, front);
        assert(!is_fresh(state, batch[batch.len() - 1]));
    }
}

/// The entries that are picked from a batch are fresh, and where the
/// batch has a fresh entry, some are picked.
pub proof fn lemma_fresh_entries_are_fresh(state: StoreView, batch: Seq<LogEntryView>)
    ensures
        forall|i: int|
            0 <= i < fresh_entries(state, batch).len() ==> is_fresh(
                state,
                #[trigger] fresh_entries(state, batch)[i],
            ) && batch.contains(fresh_entries(state, batch)[i]),
        forall|i: int|
            0 <= i < batch.len() && is_fresh(state, #[trigger] batch[i]) ==> fresh_entries(
                state,
                batch,
            ).contains(batch[i]),
        fresh_entries(state, batch).len() <= batch.len(),
    decreases batch.len(),
{
    if batch.len() > 0 {
        let front = batch.drop_last();
        let picked = fresh_entries(state, batch);
        let picked_front = fresh_entries(state, front);
        lemma_fresh_entries_are_fresh(state, front);
        assert forall|i: int| 0 <= i < picked.len() implies is_fresh(state, #[trigger] picked[i])
            && batch.contains(picked[i]) by {
            if i < picked_front.len() {
                assert(picked[i] == picked_front[i]);
                let j = choose|j: int| 0 <= j < front.len() && front[j] == picked_front[i];
                assert(batch[j] == picked[i]);
            } else {
                assert(batch[batch.len() - 1] == picked[i]);
            }
        }
        assert forall|i: int| 0 <= i < batch.len() && is_fresh(
            state,
            #[trigger] batch[i],
        ) implies picked.contains(batch[i]) by {
            if i < front.len() {
                assert(front[i] == batch[i]);
                let j = choose|j: int|
                    0 <= j < picked_front.len() && picked_front[j] == front[i];
                assert(picked[j] == batch[i]);
            } else {
                assert(picked[picked.len() - 1] == batch[i]);
            }
        }
    }
}

/// Applying entries never loses a key, and never makes what a key holds
/// older.
pub proof fn lemma_apply_all_only_advances(
    state: StoreView,
    entries: Seq<LogEntryView>,
    key: Seq<char>,
)
    requires
        state.contains_key(key),
    ensures
        apply_all(state, entries).contains_key(key),
        !state[key].is_newer_than(Some(apply_all(state, entries)[key])),
    decreases entries.len(),
{
    if entries.len() > 0 {
        lemma_apply_all_only_advances(state, entries.drop_last(), key);
        lemma_apply_entry_only_advances(
            apply_all(state, entries.drop_last()),
            entries.last(),
            key,
        );
    }
}

/// Picking the fresh entries loses nothing: applying them leaves the
/// store as applying the whole batch would.
pub proof fn lemma_stale_entries_may_be_dropped(state: StoreView, batch: Seq<LogEntryView>)
    ensures
        apply_all(state, fresh_entries(state, batch)) == apply_all(state, batch),
    decreases batch.len(),
{
    if batch.len() > 0 {
        let front = batch.drop_last();
        let last = batch.last();
        lemma_stale_entries_may_be_dropped(state, front);
        if is_fresh(state, last) {
            let picked = fresh_entries(state, front).push(last);
            assert(picked.drop_last() =~= fresh_entries(state, front));
            assert(picked.last() == last);
        } else {
            lemma_apply_all_only_advances(state, front, last.key());
            assert(apply_entry(apply_all(state, front), last) == apply_all(state, front));
        }
    }
}

} // verus!
