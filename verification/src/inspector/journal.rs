//! Reading the execution engine's journal of reversible changes.
//!
//! The engine appends one record to its journal for every change it may have
//! to undo. A record of a storage change names the account, the slot and the
//! value the slot held just before that change. For a slot that was stored to
//! earlier in the transaction, the most recent such record is the only place
//! that still tells what the slot held before the store.

use crate::primitives::{same_address, same_word, Address, StorageKey, StorageValue};
use vstd::prelude::*;

verus! {

/// One record of the engine's journal, as far as the tracker reads it.
#[derive(Clone, Copy, Debug, PartialEq, Eq)]
pub enum JournalEntry {
    /// A storage slot was changed.
    StorageChanged {
        /// The account whose storage changed.
        address: Address,
        /// The slot that changed.
        key: StorageKey,
        /// The value the slot held just before this change.
        had_value: StorageValue,
    },
    /// Any other change: a balance, a nonce, a warmed slot and the like.
    Other,
}

/// Whether `entry` records a change of the slot `key` of `address`.
pub open spec fn changes_slot(entry: JournalEntry, address: Address, key: StorageKey) -> bool {
    entry matches JournalEntry::StorageChanged { address: a, key: k, .. } && a == address && k
        == key
}

/// The value that the most recent record of a change of the slot `key` of
/// `address` gives as the slot's value before that change; `None` if the
/// journal records no change of the slot.
pub open spec fn journaled_pre_value(
    journal: Seq<JournalEntry>,
    address: Address,
    key: StorageKey,
) -> Option<StorageValue>
    decreases journal.len(),
{
    if journal.len() == 0 {
        None
    } else if changes_slot(journal.last(), address, key) {
        Some(journal.last()->had_value)
    } else {
        journaled_pre_value(journal.drop_last(), address, key)
    }
}

/// Scans the whole journal, from its newest record back to its oldest, for a
/// change of the slot `key` of `address`, and returns what the first record
/// found says the slot held before.
///
/// Records of other slots and other kinds of change are passed over, however
/// many lie between the record looked for and the journal's end.
pub fn find_journaled_pre_value(journal: &[JournalEntry], address: Address, key: StorageKey) -> (found:
    Option<StorageValue>)
    ensures
        found == journaled_pre_value(journal@, address, key),
{
    let mut i: usize = journal.len();
    assert(journal@.take(i as int) =~= journal@);
    while i > 0
        invariant
            i <= journal.len(),
            journaled_pre_value(journal@, address, key) == journaled_pre_value(
                journal@.take(i as int),
                address,
                key,
            ),
        decreases i,
    {
        i = i - 1;
        assert(journal@.take(i + 1).last() == journal@[i as int]);
        assert(journal@.take(i + 1).drop_last() =~= journal@.take(i as int));
        match journal[i] {
            JournalEntry::StorageChanged { address: changed, key: slot, had_value } => {
                if same_address(changed, address) && same_word(slot, key) {
                    return Some(had_value);
                }
            },
            JournalEntry::Other => {},
        }
    }
    None
}

/// The scan finds the last record of a change of the slot, wherever it is:
/// `journaled_pre_value` is `Some(v)` exactly if some record changes the
/// slot, and `v` is the `had_value` of the one after which no record changes
/// it again.
pub proof fn lemma_journaled_pre_value_is_last_change(
    journal: Seq<JournalEntry>,
    address: Address,
    key: StorageKey,
)
    ensures
        match journaled_pre_value(journal, address, key) {
            Some(value) => exists|i: int|
                0 <= i < journal.len() && #[trigger] changes_slot(journal[i], address, key)
                    && journal[i]->had_value == value && forall|j: int|
                    i < j < journal.len() ==> !#[trigger] changes_slot(journal[j], address, key),
            None => forall|i: int|
                0 <= i < journal.len() ==> !#[trigger] changes_slot(journal[i], address, key),
        },
    decreases journal.len(),
{
    if journal.len() == 0 {
    } else if changes_slot(journal.last(), address, key) {
        let i = journal.len() - 1;
        assert(changes_slot(journal[i], address, key));
    } else {
        let shorter = journal.drop_last();
        lemma_journaled_pre_value_is_last_change(shorter, address, key);
        match journaled_pre_value(shorter, address, key) {
            Some(value) => {
                let i = choose|i: int|
                    0 <= i < shorter.len() && #[trigger] changes_slot(shorter[i], address, key)
                        && shorter[i]->had_value == value && forall|j: int|
                        i < j < shorter.len() ==> !#[trigger] changes_slot(
                            shorter[j],
                            address,
                            key,
                        );
                assert(changes_slot(journal[i], address, key));
                assert forall|j: int| i < j < journal.len() implies !#[trigger] changes_slot(
                    journal[j],
                    address,
                    key,
                ) by {
                    if j < shorter.len() {
                        assert(!changes_slot(shorter[j], address, key));
                    }
                }
            },
            None => {
                assert forall|i: int| 0 <= i < journal.len() implies !#[trigger] changes_slot(
                    journal[i],
                    address,
                    key,
                ) by {
                    if i < shorter.len() {
                        assert(!changes_slot(shorter[i], address, key));
                    }
                }
            },
        }
    }
}

} // verus!
