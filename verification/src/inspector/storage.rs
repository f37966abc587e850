//! The storage tracker of one transaction.

use crate::inspector::laws::lemma_read_is_idempotent;
use crate::inspector::model::{
    declared_of, declares, entry, lists, pre_value, reads_view, snapshot_view, with_read,
    with_seed, with_write, writes_view, written, AccessState, PreState, ReadSet, Snapshot,
    StorageReads, StorageWrites, WriteSet,
};
use crate::primitives::{Address, StorageKey, StorageValue, TxIndex, ZERO};
use std::collections::{BTreeMap, BTreeSet};
use vstd::laws_cmp::group_laws_cmp;
use vstd::prelude::*;
use vstd::std_specs::btree::group_btree_axioms;

verus! {

/// Records the storage slots that one transaction loads and stores.
///
/// The read-set and the write-set belong to the transaction being tracked
/// and are cleared by [`StorageChangeInspector::reset`]. The pre-state
/// snapshot belongs to the block: the caller supplies it and `reset` leaves
/// it alone.
///
/// The tracker records what it is shown and takes nothing back. It does not
/// follow call frames: a store made by a call that later reverts stays in
/// the write-set.
#[derive(Debug, Clone)]
pub struct StorageChangeInspector {
    /// The slots loaded so far.
    pub storage_read: StorageReads,
    /// The slots stored so far: account, then slot, then `(pre, post)`.
    pub storage_write: StorageWrites,
    /// The position of the transaction being tracked.
    pub tx_index: TxIndex,
    /// Storage values as they stood before the transaction, as far as the
    /// caller declared them.
    pub pre_state: PreState,
}

impl View for StorageChangeInspector {
    type V = AccessState;

    open spec fn view(&self) -> AccessState {
        AccessState {
            reads: reads_view(self.storage_read),
            writes: writes_view(self.storage_write),
            pre_state: snapshot_view(self.pre_state),
            tx_index: self.tx_index,
        }
    }
}

impl StorageChangeInspector {
    /// A tracker that has recorded nothing, for transaction 0, without a
    /// pre-state snapshot.
    pub fn new() -> (inspector: Self)
        ensures
            inspector@.reads == ReadSet::empty(),
            inspector@.writes == WriteSet::empty(),
            inspector@.pre_state == Snapshot::empty(),
            inspector@.tx_index == 0,
    {
        let inspector = Self {
            storage_read: BTreeMap::new(),
            storage_write: BTreeMap::new(),
            tx_index: 0,
            pre_state: BTreeMap::new(),
        };
        assert(inspector@.reads =~= ReadSet::empty());
        assert(inspector@.writes =~= WriteSet::empty());
        assert(inspector@.pre_state =~= Snapshot::empty());
        inspector
    }

    /// Sets the position of the transaction being tracked.
    pub fn set_tx_index(&mut self, index: TxIndex)
        ensures
            final(self)@ == (AccessState { tx_index: index, ..old(self)@ }),
    {
        self.tx_index = index;
    }

    /// Supplies the pre-state snapshot, replacing any earlier one.
    pub fn set_pre_state(&mut self, pre_state: PreState)
        ensures
            final(self)@ == (AccessState { pre_state: snapshot_view(pre_state), ..old(self)@ }),
            final(self).pre_state == pre_state,
    {
        self.pre_state = pre_state;
    }

    /// Forgets the transaction: clears the read-set and the write-set and
    /// sets the transaction position back to 0. The pre-state snapshot stays
    /// as it is.
    pub fn reset(&mut self)
        ensures
            final(self)@.reads == ReadSet::empty(),
            final(self)@.writes == WriteSet::empty(),
            final(self)@.tx_index == 0,
            final(self)@.pre_state == old(self)@.pre_state,
            final(self).pre_state == old(self).pre_state,
    {
        self.storage_read.clear();
        self.storage_write.clear();
        self.tx_index = 0;
        assert(self@.reads =~= ReadSet::empty());
        assert(self@.writes =~= WriteSet::empty());
    }

    /// The raw read-set.
    pub fn reads(&self) -> (reads: &StorageReads)
        ensures
            *reads == self.storage_read,
            reads_view(*reads) == self@.reads,
    {
        &self.storage_read
    }

    /// The raw write-set.
    pub fn writes(&self) -> (writes: &StorageWrites)
        ensures
            *writes == self.storage_write,
            writes_view(*writes) == self@.writes,
    {
        &self.storage_write
    }

    /// The pre-state snapshot.
    pub fn pre_state(&self) -> (pre_state: &PreState)
        ensures
            *pre_state == self.pre_state,
            snapshot_view(*pre_state) == self@.pre_state,
    {
        &self.pre_state
    }

    /// Records a load of the slot `key` of `address`.
    ///
    /// A load of a slot that is already listed changes nothing.
    pub fn record_read(&mut self, address: Address, key: StorageKey)
        ensures
            final(self)@ == (AccessState {
                reads: with_read(old(self)@.reads, address, key),
                ..old(self)@
            }),
            lists(final(self)@.reads, address, key),
            lists(old(self)@.reads, address, key) ==> final(self)@ == old(self)@,
    {
        broadcast use {group_laws_cmp, group_btree_axioms};

        let mut slots = match self.storage_read.remove(&address) {
            Some(slots) => slots,
            None => BTreeSet::new(),
        };
        slots.insert(key);
        self.storage_read.insert(address, slots);
        assert(self@.reads =~= with_read(old(self)@.reads, address, key));
        proof {
            lemma_read_is_idempotent(old(self)@.reads, address, key);
        }
    }

    /// The entry recorded for the slot `key` of `address`, if it has been
    /// stored to or seeded.
    pub fn write_entry(&self, address: Address, key: StorageKey) -> (found: Option<
        (StorageValue, StorageValue),
    >)
        ensures
            found == if written(self@.writes, address, key) {
                Some(entry(self@.writes, address, key))
            } else {
                None
            },
    {
        broadcast use {group_laws_cmp, group_btree_axioms};

        match self.storage_write.get(&address) {
            Some(slots) => match slots.get(&key) {
                Some(found) => Some(*found),
                None => None,
            },
            None => None,
        }
    }

    /// Records a store of `post` to the slot `key` of `address`, which held
    /// `pre` before the transaction.
    ///
    /// The first store to a slot fixes its pre-value. Later stores only move
    /// the post-value: their `pre` is ignored.
    pub fn record_write(
        &mut self,
        address: Address,
        key: StorageKey,
        pre: StorageValue,
        post: StorageValue,
    )
        ensures
            final(self)@ == (AccessState {
                writes: with_write(old(self)@.writes, address, key, pre, post),
                ..old(self)@
            }),
            written(final(self)@.writes, address, key),
            entry(final(self)@.writes, address, key) == (
                if written(old(self)@.writes, address, key) {
                    entry(old(self)@.writes, address, key).0
                } else {
                    pre
                },
                post,
            ),
    {
        broadcast use {group_laws_cmp, group_btree_axioms};

        let mut slots = match self.storage_write.remove(&address) {
            Some(slots) => slots,
            None => BTreeMap::new(),
        };
        let kept = match slots.get(&key) {
            Some(found) => found.0,
            None => pre,
        };
        slots.insert(key, (kept, post));
        self.storage_write.insert(address, slots);
        assert(self@.writes =~= with_write(old(self)@.writes, address, key, pre, post));
    }

    /// Seeds the write-set with `(pre, post)` for the slot `key` of
    /// `address`, unless the slot already has an entry.
    pub fn seed_write(
        &mut self,
        address: Address,
        key: StorageKey,
        pre: StorageValue,
        post: StorageValue,
    )
        ensures
            final(self)@ == (AccessState {
                writes: with_seed(old(self)@.writes, address, key, pre, post),
                ..old(self)@
            }),
    {
        if self.write_entry(address, key).is_none() {
            self.record_write(address, key, pre, post);
        }
    }

    /// The value the slot `key` of `address` held before the transaction:
    /// the snapshot's value if the snapshot declares the slot, else the
    /// database's value, else zero.
    ///
    /// `database` is what the database holds for the slot, `None` if it has
    /// nothing. Nothing is an error here: a slot never written is zero.
    pub fn value_of(&self, address: Address, key: StorageKey, database: Option<StorageValue>) -> (value: StorageValue)
        ensures
            value == pre_value(self@.pre_state, address, key, database),
    {
        match self.declared_value(address, key) {
            Some(value) => value,
            None => match database {
                Some(value) => value,
                None => ZERO,
            },
        }
    }

    /// The value the snapshot declares for the slot `key` of `address`.
    pub fn declared_value(&self, address: Address, key: StorageKey) -> (found: Option<StorageValue>)
        ensures
            found == if declares(self@.pre_state, address, key) {
                Some(declared_of(self@.pre_state, address)[key])
            } else {
                None
            },
    {
        broadcast use {group_laws_cmp, group_btree_axioms};

        match self.pre_state.get(&address) {
            Some(slots) => match slots.get(&key) {
                Some(found) => Some(*found),
                None => None,
            },
            None => None,
        }
    }
}

impl Default for StorageChangeInspector {
    fn default() -> (inspector: Self)
        ensures
            inspector@.reads == ReadSet::empty(),
            inspector@.writes == WriteSet::empty(),
            inspector@.pre_state == Snapshot::empty(),
            inspector@.tx_index == 0,
    {
        Self::new()
    }
}

} // verus!
