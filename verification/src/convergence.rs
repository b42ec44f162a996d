//! Why replicas that see the same writes end up with the same store.
//!
//! The store keeps, for each key, the newest of the writes it was given.
//! So the order in which the writes arrive does not matter, and giving it
//! the same writes a second time changes nothing.

use vstd::prelude::*;
use crate::entry::LogEntryView;
use crate::store::{apply_all, apply_entry, is_fresh, lookup, lww_write, StoreView};
use crate::value::{written_value, ValueView};

verus! {

/// Whether one of the entries writes to `key`.
pub open spec fn has_entry_for(entries: Seq<LogEntryView>, key: Seq<char>) -> bool {
    exists|i: int| 0 <= i < entries.len() && (#[trigger] entries[i]).key() == key
}

/// Whether `value` is on offer for `key`: the state holds it there, or one
/// of the entries writes it there.
pub open spec fn is_candidate(
    state: StoreView,
    entries: Seq<LogEntryView>,
    key: Seq<char>,
    value: ValueView,
) -> bool {
    lookup(state, key) == Some(value) || exists|i: int|
        0 <= i < entries.len() && (#[trigger] entries[i]).key() == key && written_value(
            entries[i],
        ) == value
}

/// Whether a stamp names one write: two values on offer for the same key
/// with the same stamp are the same value.
pub open spec fn stamps_identify_writes(state: StoreView, entries: Seq<LogEntryView>) -> bool {
    forall|key: Seq<char>, a: ValueView, b: ValueView|
        #[trigger] is_candidate(state, entries, key, a) && #[trigger] is_candidate(
            state,
            entries,
            key,
            b,
        ) && a.same_stamp(b) ==> a == b
}

/// Whether two lists hold the same entries, in whatever order and however
/// often.
pub open spec fn same_writes(a: Seq<LogEntryView>, b: Seq<LogEntryView>) -> bool {
    forall|e: LogEntryView| a.contains(e) <==> b.contains(e)
}

/// Applying one list after another is applying the two as one.
pub proof fn lemma_apply_all_concat(
    state: StoreView,
    first: Seq<LogEntryView>,
    second: Seq<LogEntryView>,
)
    ensures
        apply_all(state, first + second) == apply_all(apply_all(state, first), second),
    decreases second.len(),
{
    if second.len() == 0 {
        assert(first + second =~= first);
    } else {
        assert((first + second).drop_last() =~= first + second.drop_last());
        assert((first + second).last() == second.last());
        lemma_apply_all_concat(state, first, second.drop_last());
    }
}

/// After a list of entries was applied, each key that the state held or an
/// entry wrote is present, and what it holds is the newest value on offer:
/// it is one of the values on offer for the key, and none of them is newer.
pub proof fn lemma_newest_write_survives(
    state: StoreView,
    entries: Seq<LogEntryView>,
    key: Seq<char>,
)
    ensures
        apply_all(state, entries).contains_key(key) <==> state.contains_key(key) || has_entry_for(
            entries,
            key,
        ),
        apply_all(state, entries).contains_key(key) ==> is_candidate(
            state,
            entries,
            key,
            apply_all(state, entries)[key],
        ),
        forall|value: ValueView| #[trigger]
            is_candidate(state, entries, key, value) ==> apply_all(state, entries).contains_key(
                key,
            ) && !value.is_newer_than(Some(apply_all(state, entries)[key])),
    decreases entries.len(),
{
    if entries.len() > 0 {
        let front = entries.drop_last();
        let last = entries.last();
        let before = apply_all(state, front);
        let after = apply_all(state, entries);
        lemma_newest_write_survives(state, front, key);
        assert(after == lww_write(before, last.key(), written_value(last)));
        assert forall|i: int| 0 <= i < front.len() implies front[i] == entries[i] by {}
        if last.key() == key {
            assert(entries[entries.len() - 1] == last);
            assert(has_entry_for(entries, key));
            assert(is_candidate(state, entries, key, written_value(last)));
        }
        if has_entry_for(front, key) {
            let i = choose|i: int| 0 <= i < front.len() && (#[trigger] front[i]).key() == key;
            assert(entries[i].key() == key);
        }
        if has_entry_for(entries, key) && last.key() != key {
            let i = choose|i: int| 0 <= i < entries.len() && (#[trigger] entries[i]).key() == key;
            assert(front[i].key() == key);
        }
        if after.contains_key(key) {
            let kept = after[key];
            if before.contains_key(key) && kept == before[key] {
                assert(is_candidate(state, front, key, kept));
                if lookup(state, key) != Some(kept) {
                    let i = choose|i: int|
                        0 <= i < front.len() && (#[trigger] front[i]).key() == key
                            && written_value(front[i]) == kept;
                    assert(entries[i].key() == key && written_value(entries[i]) == kept);
                }
            }
        }
        assert forall|value: ValueView| #[trigger]
            is_candidate(state, entries, key, value) implies after.contains_key(key)
            && !value.is_newer_than(Some(after[key])) by {
            if lookup(state, key) == Some(value) {
                assert(is_candidate(state, front, key, value));
            } else {
                let i = choose|i: int|
                    0 <= i < entries.len() && (#[trigger] entries[i]).key() == key
                        && written_value(entries[i]) == value;
                if i < front.len() {
                    assert(front[i].key() == key && written_value(front[i]) == value);
                    assert(is_candidate(state, front, key, value));
                }
            }
        }
    }
}

/// The order in which writes arrive does not matter: two lists that hold
/// the same entries leave the same state, provided that a stamp names one
/// write.
pub proof fn lemma_order_of_writes_is_immaterial(
    state: StoreView,
    a: Seq<LogEntryView>,
    b: Seq<LogEntryView>,
)
    requires
        same_writes(a, b),
        stamps_identify_writes(state, a),
    ensures
        apply_all(state, a) == apply_all(state, b),
{
    let left = apply_all(state, a);
    let right = apply_all(state, b);
    assert forall|key: Seq<char>, value: ValueView|
        is_candidate(state, a, key, value) <==> is_candidate(state, b, key, value) by {
        lemma_same_writes_same_candidates(state, a, b, key, value);
        lemma_same_writes_same_candidates(state, b, a, key, value);
    }
    assert forall|key: Seq<char>| left.contains_key(key) <==> right.contains_key(key) by {
        lemma_newest_write_survives(state, a, key);
        lemma_newest_write_survives(state, b, key);
        lemma_same_writes_same_keys(a, b, key);
        lemma_same_writes_same_keys(b, a, key);
    }
    assert forall|key: Seq<char>| left.contains_key(key) implies left[key] == right[key] by {
        lemma_newest_write_survives(state, a, key);
        lemma_newest_write_survives(state, b, key);
        assert(is_candidate(state, a, key, left[key]));
        assert(is_candidate(state, b, key, right[key]));
        assert(is_candidate(state, b, key, left[key]));
        assert(is_candidate(state, a, key, right[key]));
        assert(left[key].same_stamp(right[key]));
    }
    assert(left =~= right);
}

/// A key that one list writes to is written to by every list that holds
/// the same entries.
proof fn lemma_same_writes_same_keys(a: Seq<LogEntryView>, b: Seq<LogEntryView>, key: Seq<char>)
    requires
        same_writes(a, b),
    ensures
        has_entry_for(a, key) ==> has_entry_for(b, key),
{
    if has_entry_for(a, key) {
        let i = choose|i: int| 0 <= i < a.len() && (#[trigger] a[i]).key() == key;
        assert(a.contains(a[i]));
        assert(b.contains(a[i]));
        let j = choose|j: int| 0 <= j < b.len() && b[j] == a[i];
        assert(b[j].key() == key);
    }
}

/// A value that one list offers for a key is offered by every list that
/// holds the same entries.
proof fn lemma_same_writes_same_candidates(
    state: StoreView,
    a: Seq<LogEntryView>,
    b: Seq<LogEntryView>,
    key: Seq<char>,
    value: ValueView,
)
    requires
        same_writes(a, b) || same_writes(b, a),
    ensures
        is_candidate(state, a, key, value) ==> is_candidate(state, b, key, value),
{
    if is_candidate(state, a, key, value) && lookup(state, key) != Some(value) {
        let i = choose|i: int|
            0 <= i < a.len() && (#[trigger] a[i]).key() == key && written_value(a[i]) == value;
        assert(a.contains(a[i]));
        assert(b.contains(a[i]));
        let j = choose|j: int| 0 <= j < b.len() && b[j] == a[i];
        assert(b[j].key() == key && written_value(b[j]) == value);
    }
}

/// Entries that the state already reflects leave it as it is.
pub proof fn lemma_stale_entries_change_nothing(state: StoreView, entries: Seq<LogEntryView>)
    requires
        forall|i: int| 0 <= i < entries.len() ==> !is_fresh(state, #[trigger] entries[i]),
    ensures
        apply_all(state, entries) == state,
    decreases entries.len(),
{
    if entries.len() > 0 {
        let front = entries.drop_last();
        assert forall|i: int| 0 <= i < front.len() implies !is_fresh(state, #[trigger] front[i]) by {
            assert(front[i] == entries[i]);
        }
        lemma_stale_entries_change_nothing(state, front);
        assert(!is_fresh(state, entries[entries.len() - 1]));
    }
}

/// Once a list of entries was applied, none of them is fresh any more.
pub proof fn lemma_applied_entries_are_stale(
    state: StoreView,
    entries: Seq<LogEntryView>,
    i: int,
)
    requires
        0 <= i < entries.len(),
    ensures
        !is_fresh(apply_all(state, entries), entries[i]),
{
    lemma_newest_write_survives(state, entries, entries[i].key());
    assert(is_candidate(state, entries, entries[i].key(), written_value(entries[i])));
}

/// Applying the same entries a second time changes nothing.
pub proof fn lemma_apply_all_idempotent(state: StoreView, entries: Seq<LogEntryView>)
    ensures
        apply_all(apply_all(state, entries), entries) == apply_all(state, entries),
{
    let once = apply_all(state, entries);
    assert forall|i: int| 0 <= i < entries.len() implies !is_fresh(once, #[trigger] entries[i]) by {
        lemma_applied_entries_are_stale(state, entries, i);
    }
    lemma_stale_entries_change_nothing(once, entries);
}

/// Applying an entry never loses a key, and never makes what a key holds
/// older.
pub proof fn lemma_apply_entry_only_advances(
    state: StoreView,
    entry: LogEntryView,
    key: Seq<char>,
)
    requires
        state.contains_key(key),
    ensures
        apply_entry(state, entry).contains_key(key),
        !state[key].is_newer_than(Some(apply_entry(state, entry)[key])),
{
}

} // verus!
