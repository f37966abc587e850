//! What holds of every tracker, whatever it has recorded.

use crate::inspector::journal::JournalEntry;
use crate::inspector::model::{
    bal_reads, bal_writes, changed_entries, counts_as_read, counts_as_written, declares, entry,
    lists, pre_value, read_only, slots_of, unchanged, unchanged_keys, untouched, with_read,
    with_write, written, AccessState, ReadSet, WriteSet,
};
use crate::inspector::observe::{
    after_resolve, after_step, known_pre_value, pending_after_step, SLOAD, SSTORE,
};
use crate::primitives::{Address, StorageKey, StorageValue, ZERO};
use vstd::prelude::*;

verus! {

/// Loads are idempotent: a second load of a slot leaves the read-set as the
/// first left it, and a load of a slot already listed changes nothing.
pub proof fn lemma_read_is_idempotent(reads: ReadSet, address: Address, key: StorageKey)
    ensures
        lists(with_read(reads, address, key), address, key),
        with_read(with_read(reads, address, key), address, key) == with_read(reads, address, key),
        lists(reads, address, key) ==> with_read(reads, address, key) == reads,
{
    let once = with_read(reads, address, key);
    assert(slots_of(once, address).insert(key) =~= slots_of(once, address));
    assert(with_read(once, address, key) =~= once);
    if lists(reads, address, key) {
        assert(slots_of(reads, address).insert(key) =~= slots_of(reads, address));
        assert(once =~= reads);
    }
}

/// The pre-value of a slot is stable: after two stores to a slot, first of
/// `first` and then of `second`, the slot's entry is `(pre0, second)`, where
/// `pre0` is the value the slot held before the first store. That is the
/// pre-value of the entry the slot already had, or else the `pre` that came
/// with the first store. It is never `first`, and the `pre` that comes with
/// the second store plays no part.
pub proof fn lemma_pre_value_is_stable(
    writes: WriteSet,
    address: Address,
    key: StorageKey,
    pre: StorageValue,
    first: StorageValue,
    later_pre: StorageValue,
    second: StorageValue,
)
    ensures
        ({
            let once = with_write(writes, address, key, pre, first);
            let twice = with_write(once, address, key, later_pre, second);
            let pre0 = if written(writes, address, key) {
                entry(writes, address, key).0
            } else {
                pre
            };
            &&& written(once, address, key)
            &&& entry(once, address, key) == (pre0, first)
            &&& written(twice, address, key)
            &&& entry(twice, address, key) == (pre0, second)
        }),
{
}

/// A store leaves every other slot's entry alone.
pub proof fn lemma_write_touches_one_slot(
    writes: WriteSet,
    address: Address,
    key: StorageKey,
    pre: StorageValue,
    post: StorageValue,
    other_address: Address,
    other_key: StorageKey,
)
    requires
        other_address != address || other_key != key,
    ensures
        ({
            let after = with_write(writes, address, key, pre, post);
            &&& written(after, other_address, other_key) == written(
                writes,
                other_address,
                other_key,
            )
            &&& written(writes, other_address, other_key) ==> entry(
                after,
                other_address,
                other_key,
            ) == entry(writes, other_address, other_key)
        }),
{
}

/// Two stores to a slot through the step hook, first of `first` and then of
/// `second`, leave the entry `(pre0, second)`: `pre0` is the pre-value the
/// tracker knew before the first store or, if it knew none, what the
/// pre-state oracle made of the database's first answer. What the journal
/// holds and what the database answers the second time play no part.
pub proof fn lemma_stores_keep_first_pre_value(
    state: AccessState,
    target: Address,
    key: StorageKey,
    first: StorageValue,
    second: StorageValue,
    journal: Seq<JournalEntry>,
    answer: Option<StorageValue>,
    later_journal: Seq<JournalEntry>,
    later_answer: Option<StorageValue>,
)
    ensures
        ({
            let asked = pending_after_step(state, SSTORE, target, Some(key), Some(first), journal);
            let once = after_resolve(
                after_step(state, SSTORE, target, Some(key), Some(first)),
                asked,
                answer,
            );
            let asked_again = pending_after_step(
                once,
                SSTORE,
                target,
                Some(key),
                Some(second),
                later_journal,
            );
            let twice = after_resolve(
                after_step(once, SSTORE, target, Some(key), Some(second)),
                asked_again,
                later_answer,
            );
            let pre0 = match known_pre_value(state, target, key) {
                Some(pre) => pre,
                None => pre_value(state.pre_state, target, key, answer),
            };
            &&& entry(once.writes, target, key) == (pre0, first)
            &&& written(twice.writes, target, key)
            &&& entry(twice.writes, target, key) == (pre0, second)
            &&& twice.reads == state.reads
            &&& twice.pre_state == state.pre_state
        }),
{
}

/// A load through the step hook lists the slot as read and leaves the
/// write-set alone until the pending value arrives. Then it adds at most an
/// entry for that slot, and only if the slot had none.
pub proof fn lemma_load_only_seeds(
    state: AccessState,
    target: Address,
    key: StorageKey,
    below: Option<StorageValue>,
    journal: Seq<JournalEntry>,
    answer: Option<StorageValue>,
)
    ensures
        ({
            let seen = after_step(state, SLOAD, target, Some(key), below);
            let end = after_resolve(
                seen,
                pending_after_step(state, SLOAD, target, Some(key), below, journal),
                answer,
            );
            &&& seen.writes == state.writes
            &&& lists(end.reads, target, key)
            &&& written(state.writes, target, key) ==> end.writes == state.writes
            &&& forall|a: Address, k: StorageKey|
                written(state.writes, a, k) ==> written(end.writes, a, k) && entry(end.writes, a, k)
                    == entry(state.writes, a, k)
            &&& forall|a: Address, k: StorageKey|
                written(end.writes, a, k) && !written(state.writes, a, k) ==> a == target && k
                    == key
        }),
{
}

/// Whatever the instruction, the operands, the journal and the answer, the
/// step hook and the answer to what it left pending never take anything
/// back: a slot listed as read stays listed, a slot with a write entry keeps
/// its entry and the pre-value in it, and the snapshot and the transaction
/// position stay as they are.
pub proof fn lemma_step_keeps_what_is_recorded(
    state: AccessState,
    opcode: u8,
    target: Address,
    top: Option<StorageValue>,
    below: Option<StorageValue>,
    journal: Seq<JournalEntry>,
    answer: Option<StorageValue>,
    address: Address,
    key: StorageKey,
)
    ensures
        ({
            let end = after_resolve(
                after_step(state, opcode, target, top, below),
                pending_after_step(state, opcode, target, top, below, journal),
                answer,
            );
            &&& lists(state.reads, address, key) ==> lists(end.reads, address, key)
            &&& written(state.writes, address, key) ==> written(end.writes, address, key)
                && entry(end.writes, address, key).0 == entry(state.writes, address, key).0
            &&& end.pre_state == state.pre_state
            &&& end.tx_index == state.tx_index
        }),
{
}

/// A store that changes nothing is a read: a slot whose entry has the
/// post-value equal to the pre-value is absent from the write section and
/// present in the read section.
pub proof fn lemma_noop_write_is_a_read(state: AccessState, address: Address, key: StorageKey)
    requires
        written(state.writes, address, key),
        entry(state.writes, address, key).0 == entry(state.writes, address, key).1,
    ensures
        !written(bal_writes(state.writes), address, key),
        lists(bal_reads(state), address, key),
{
    assert(state.writes[address].contains_key(key));
    assert(unchanged_keys(state.writes[address]).contains(key));
    assert(lists(unchanged(state.writes), address, key));
}

/// The write section holds exactly the slots that count as written, each
/// with the pre-value and the post-value of its entry.
pub proof fn lemma_write_section_holds_the_changes(
    writes: WriteSet,
    address: Address,
    key: StorageKey,
)
    ensures
        written(bal_writes(writes), address, key) <==> counts_as_written(writes, address, key),
        written(bal_writes(writes), address, key) ==> entry(bal_writes(writes), address, key)
            == entry(writes, address, key),
{
    if counts_as_written(writes, address, key) {
        assert(writes[address].contains_key(key));
        assert(changed_entries(writes[address]).contains_key(key));
    }
}

/// Clearing a slot is a write: a slot stored from a nonzero pre-value to
/// zero is in the write section with `(pre, 0)`.
pub proof fn lemma_zero_clearing_is_a_write(writes: WriteSet, address: Address, key: StorageKey)
    requires
        written(writes, address, key),
        entry(writes, address, key).0 != ZERO,
        entry(writes, address, key).1 == ZERO,
    ensures
        written(bal_writes(writes), address, key),
        entry(bal_writes(writes), address, key) == (entry(writes, address, key).0, ZERO),
{
    lemma_write_section_holds_the_changes(writes, address, key);
}

/// The views that make up the read section list what their names say: the
/// slots loaded and not stored, the slots stored with their pre-value, and
/// the declared slots not stored.
pub proof fn lemma_views_membership(state: AccessState, address: Address, key: StorageKey)
    ensures
        lists(read_only(state.reads, state.writes), address, key) <==> lists(
            state.reads,
            address,
            key,
        ) && !written(state.writes, address, key),
        lists(unchanged(state.writes), address, key) <==> written(state.writes, address, key)
            && entry(state.writes, address, key).0 == entry(state.writes, address, key).1,
        lists(untouched(state.pre_state, state.writes), address, key) <==> declares(
            state.pre_state,
            address,
            key,
        ) && !written(state.writes, address, key),
{
    if written(state.writes, address, key) && entry(state.writes, address, key).0 == entry(
        state.writes,
        address,
        key,
    ).1 {
        assert(state.writes[address].contains_key(key));
    }
}

/// The read section lists exactly the slots that count as read.
pub proof fn lemma_read_section_membership(state: AccessState, address: Address, key: StorageKey)
    ensures
        lists(bal_reads(state), address, key) <==> counts_as_read(state, address, key),
{
    lemma_views_membership(state, address, key);
    let loaded = read_only(state.reads, state.writes);
    let same = unchanged(state.writes);
    let declared = untouched(state.pre_state, state.writes);
    assert(lists(bal_reads(state), address, key) <==> lists(loaded, address, key) || lists(
        same,
        address,
        key,
    ) || lists(declared, address, key));
}

/// The two sections split the accesses between them: a slot that was
/// loaded or stored is in exactly one of the two sections, never in both
/// and never in neither.
pub proof fn lemma_sections_partition_the_accesses(
    state: AccessState,
    address: Address,
    key: StorageKey,
)
    requires
        lists(state.reads, address, key) || written(state.writes, address, key),
    ensures
        lists(bal_reads(state), address, key) != written(bal_writes(state.writes), address, key),
{
    lemma_read_section_membership(state, address, key);
    lemma_write_section_holds_the_changes(state.writes, address, key);
}

/// No slot at all is in both sections.
pub proof fn lemma_sections_are_disjoint(state: AccessState, address: Address, key: StorageKey)
    ensures
        !(lists(bal_reads(state), address, key) && written(
            bal_writes(state.writes),
            address,
            key,
        )),
{
    lemma_read_section_membership(state, address, key);
    lemma_write_section_holds_the_changes(state.writes, address, key);
}

} // verus!
