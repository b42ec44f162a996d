//! Recovery at startup: the log is replayed into the store.
//!
//! Before a node serves requests it replays its write-ahead log. Each
//! entry is applied to the store under the usual order of writes, and the
//! clock observes the entry's timestamp, so that a write issued after
//! recovery is stamped later than anything in the log. The clock observes;
//! it does not step, so that replaying a log does not inflate it.

use vstd::prelude::*;
use crate::clock::{after_observe, after_send, LamportClock};
use crate::convergence::{lemma_apply_all_idempotent, lemma_applied_entries_are_stale};
use crate::entry::{entries_view, LogEntry, LogEntryView};
use crate::store::{apply_all, is_fresh, Store, StoreView};
use crate::wal::{
    is_blank, is_intact, lemma_appended_entry_is_replayed, lines_view, replay, replay_wal, WalLine,
    WalLineView,
};

verus! {

/// The clock after it observed the timestamp of each entry.
pub open spec fn observe_all(counter: nat, entries: Seq<LogEntryView>) -> nat
    decreases entries.len(),
{
    if entries.len() == 0 {
        counter
    } else {
        after_observe(observe_all(counter, entries.drop_last()), entries.last().ts as nat)
    }
}

/// Applies the entries of a log to the store, in order, and lets the clock
/// observe their timestamps.
pub fn recover(store: &mut Store, clock: &mut LamportClock, entries: &Vec<LogEntry>)
    ensures
        final(store)@ == apply_all(old(store)@, entries_view(entries@)),
        final(clock)@ == observe_all(old(clock)@, entries_view(entries@)),
{
    let ghost all = entries_view(entries@);
    let mut i: usize = 0;
    proof {
        assert(all.take(0) =~= Seq::<LogEntryView>::empty());
    }
    while i < entries.len()
        invariant
            i <= entries.len(),
            all == entries_view(entries@),
            store@ == apply_all(old(store)@, all.take(i as int)),
            clock@ == observe_all(old(clock)@, all.take(i as int)),
        decreases entries.len() - i,
    {
        let entry = entries[i].clone();
        proof {
            assert(all.take(i + 1).drop_last() =~= all.take(i as int));
            assert(all.take(i + 1).last() == entry@);
        }
        clock.tick_observe(entry.ts);
        store.apply(entry);
        i = i + 1;
    }
    proof {
        assert(all.take(i as int) =~= all);
    }
}

/// Recovers the store and the clock from the lines of the write-ahead
/// log: replays the lines, applies the entries that replay returns, and
/// lets the clock observe their timestamps. Returns how many entries were
/// replayed.
pub fn recover_from_snapshot_and_wal(
    store: &mut Store,
    clock: &mut LamportClock,
    lines: &Vec<WalLine>,
) -> (replayed: usize)
    ensures
        final(store)@ == apply_all(old(store)@, replay(lines_view(lines@))),
        final(clock)@ == observe_all(old(clock)@, replay(lines_view(lines@))),
        replayed == replay(lines_view(lines@)).len(),
{
    let entries = replay_wal(lines);
    recover(store, clock, &entries);
    entries.len()
}

/// After recovery the clock is at least at the timestamp of every entry
/// in the log, and no lower than it was.
pub proof fn lemma_clock_covers_log(counter: nat, entries: Seq<LogEntryView>)
    ensures
        counter <= observe_all(counter, entries),
        forall|i: int| 0 <= i < entries.len() ==> (#[trigger] entries[i]).ts <= observe_all(
            counter,
            entries,
        ),
    decreases entries.len(),
{
    if entries.len() > 0 {
        let front = entries.drop_last();
        lemma_clock_covers_log(counter, front);
        assert forall|i: int| 0 <= i < entries.len() implies (#[trigger] entries[i]).ts
            <= observe_all(counter, entries) by {
            if i < front.len() {
                assert(front[i] == entries[i]);
            }
        }
    }
}

/// The first write issued after recovery is stamped later than every
/// entry in the log.
pub proof fn lemma_next_write_is_later_than_log(counter: nat, entries: Seq<LogEntryView>, i: int)
    requires
        0 <= i < entries.len(),
    ensures
        entries[i].ts < after_send(observe_all(counter, entries)),
{
    lemma_clock_covers_log(counter, entries);
}

/// A clock that is at least at every timestamp of the log is left as it
/// is by observing the log.
pub proof fn lemma_observing_known_log_changes_nothing(counter: nat, entries: Seq<LogEntryView>)
    requires
        forall|i: int| 0 <= i < entries.len() ==> (#[trigger] entries[i]).ts <= counter,
    ensures
        observe_all(counter, entries) == counter,
    decreases entries.len(),
{
    if entries.len() > 0 {
        let front = entries.drop_last();
        assert forall|i: int| 0 <= i < front.len() implies (#[trigger] front[i]).ts <= counter by {
            assert(front[i] == entries[i]);
        }
        lemma_observing_known_log_changes_nothing(counter, front);
        assert(entries[entries.len() - 1].ts <= counter);
    }
}

/// Replaying the same log twice leaves the store and the clock where
/// replaying it once left them.
pub proof fn lemma_recovery_is_idempotent(
    state: StoreView,
    counter: nat,
    entries: Seq<LogEntryView>,
)
    ensures
        apply_all(apply_all(state, entries), entries) == apply_all(state, entries),
        observe_all(observe_all(counter, entries), entries) == observe_all(counter, entries),
{
    lemma_apply_all_idempotent(state, entries);
    lemma_clock_covers_log(counter, entries);
    lemma_observing_known_log_changes_nothing(observe_all(counter, entries), entries);
}

/// After recovery the store reflects every entry of the log: the key of
/// each entry is present, and holds the entry's value or a newer one.
pub proof fn lemma_recovered_store_reflects_log(
    state: StoreView,
    entries: Seq<LogEntryView>,
    i: int,
)
    requires
        0 <= i < entries.len(),
    ensures
        apply_all(state, entries).contains_key(entries[i].key()),
        !is_fresh(apply_all(state, entries), entries[i]),
{
    lemma_applied_entries_are_stale(state, entries, i);
}

/// An entry that was appended to an intact log survives a restart:
/// recovery from the longer log leaves the entry's key in the store,
/// holding the entry's value or a newer one, and the clock at least at
/// the entry's timestamp.
pub proof fn lemma_durable_entry_survives_restart(
    state: StoreView,
    counter: nat,
    log: Seq<WalLineView>,
    text: Seq<char>,
    entry: LogEntryView,
)
    requires
        is_intact(log),
        !is_blank(text),
    ensures
        ({
            let replayed = replay(log.push(WalLineView::Text { text, entry: Some(entry) }));
            &&& replayed == replay(log).push(entry)
            &&& apply_all(state, replayed).contains_key(entry.key())
            &&& !is_fresh(apply_all(state, replayed), entry)
            &&& entry.ts <= observe_all(counter, replayed)
        }),
{
    lemma_appended_entry_is_replayed(log, text, entry);
    let replayed = replay(log).push(entry);
    lemma_applied_entries_are_stale(state, replayed, replayed.len() - 1);
    lemma_clock_covers_log(counter, replayed);
    assert(replayed[replayed.len() - 1] == entry);
}

} // verus!
