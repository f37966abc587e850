//! The views of the tracker that the block access list is made of.

use crate::inspector::laws::{
    lemma_read_section_membership, lemma_views_membership, lemma_write_section_holds_the_changes,
};
use crate::inspector::model::{
    bal_reads, bal_writes, changed_entries, counts_as_read, counts_as_written, declares,
    entries_of, entry, has_changed, has_unchanged, lists, read_only, reads_view, unchanged,
    unchanged_keys, untouched, writes_view, written, StorageReads, StorageWrites,
};
use crate::inspector::sets::{
    changed_slots, keys_without, lemma_walk_visits_every_account, merge_reads, slots_without,
    unchanged_slots,
};
use crate::inspector::storage::StorageChangeInspector;
use crate::primitives::{Address, StorageKey};
use std::collections::BTreeMap;
use vstd::laws_cmp::group_laws_cmp;
use vstd::prelude::*;
use vstd::std_specs::btree::group_btree_axioms;
use vstd::std_specs::iter::IteratorSpec;

verus! {

impl StorageChangeInspector {
    /// The slots that were loaded and never stored.
    ///
    /// Every account of the read-set has an entry, which is empty if all its
    /// loaded slots were stored as well.
    pub fn read_only_slots(&self) -> (slots: StorageReads)
        ensures
            reads_view(slots) == read_only(self@.reads, self@.writes),
            forall|address: Address, key: StorageKey|
                #[trigger] lists(reads_view(slots), address, key) <==> lists(
                    self@.reads,
                    address,
                    key,
                ) && !written(self@.writes, address, key),
    {
        broadcast use {group_laws_cmp, group_btree_axioms};

        let mut result: StorageReads = BTreeMap::new();
        let ghost reads = self@.reads;
        let ghost writes = self@.writes;
        let ghost pairs = self.storage_read.iter().remaining();
        let ghost mut n: int = 0;
        let ghost mut seen: Set<Address> = Set::empty();
        assert(reads_view(result) =~= read_only(reads.restrict(seen), writes));
        for pair in it: self.storage_read.iter()
            invariant
                it.seq() == pairs,
                pairs == self.storage_read.iter().remaining(),
                reads == self@.reads,
                writes == self@.writes,
                n == it.index(),
                forall|j: int| 0 <= j < n ==> seen.contains(*#[trigger] pairs[j].0),
                reads_view(result) == read_only(reads.restrict(seen), writes),
        {
            assert(pair == pairs[n]);
            assert(self.storage_read@.contains_key(*pairs[n].0) && self.storage_read@[*pairs[n].0]
                == *pairs[n].1);
            let ghost address = *pair.0;
            let ghost earlier = reads_view(result);
            let kept = slots_without(pair.1, self.storage_write.get(pair.0));
            result.insert(*pair.0, kept);
            proof {
                let wider = seen.insert(address);
                assert(kept@ == reads[address].difference(entries_of(writes, address).dom()));
                assert(reads_view(result) =~= earlier.insert(address, kept@));
                assert(reads_view(result) =~= read_only(reads.restrict(wider), writes));
                n = n + 1;
                seen = wider;
            }
        }
        proof {
            lemma_walk_visits_every_account(&self.storage_read, seen);
            assert(reads.restrict(seen) =~= reads);
        }
        assert forall|address: Address, key: StorageKey|
            #[trigger] lists(reads_view(result), address, key) <==> lists(
                self@.reads,
                address,
                key,
            ) && !written(self@.writes, address, key) by {
            lemma_views_membership(self@, address, key);
        }
        result
    }

    /// The slots whose stores changed nothing: their post-value equals their
    /// pre-value.
    ///
    /// Only accounts with at least one such slot have an entry.
    pub fn unchanged_writes(&self) -> (slots: StorageReads)
        ensures
            reads_view(slots) == unchanged(self@.writes),
            forall|address: Address, key: StorageKey|
                #[trigger] lists(reads_view(slots), address, key) <==> written(
                    self@.writes,
                    address,
                    key,
                ) && entry(self@.writes, address, key).0 == entry(self@.writes, address, key).1,
    {
        broadcast use {group_laws_cmp, group_btree_axioms};

        let mut result: StorageReads = BTreeMap::new();
        let ghost writes = self@.writes;
        let ghost pairs = self.storage_write.iter().remaining();
        let ghost mut n: int = 0;
        let ghost mut seen: Set<Address> = Set::empty();
        assert(reads_view(result) =~= unchanged(writes.restrict(seen)));
        for pair in it: self.storage_write.iter()
            invariant
                it.seq() == pairs,
                pairs == self.storage_write.iter().remaining(),
                writes == self@.writes,
                n == it.index(),
                forall|j: int| 0 <= j < n ==> seen.contains(*#[trigger] pairs[j].0),
                reads_view(result) == unchanged(writes.restrict(seen)),
        {
            assert(pair == pairs[n]);
            assert(self.storage_write@.contains_key(*pairs[n].0) && self.storage_write@[*pairs[n].0]
                == *pairs[n].1);
            let ghost address = *pair.0;
            let ghost earlier = reads_view(result);
            let ghost wider = seen.insert(address);
            let same = unchanged_slots(pair.1);
            proof {
                assert(same@ == unchanged_keys(writes[address]));
                if has_unchanged(writes[address]) {
                    let k = choose|k: StorageKey| #[trigger]
                        writes[address].contains_key(k) && writes[address][k].0
                            == writes[address][k].1;
                    assert(same@.contains(k));
                }
                if !same@.is_empty() {
                    let k = choose|k: StorageKey| same@.contains(k);
                    assert(writes[address].contains_key(k));
                }
                assert(same@.is_empty() <==> !has_unchanged(writes[address]));
            }
            if !same.is_empty() {
                result.insert(*pair.0, same);
                proof {
                    assert(reads_view(result) =~= earlier.insert(address, same@));
                }
            }
            proof {
                assert(reads_view(result) =~= unchanged(writes.restrict(wider)));
                n = n + 1;
                seen = wider;
            }
        }
        proof {
            lemma_walk_visits_every_account(&self.storage_write, seen);
            assert(writes.restrict(seen) =~= writes);
        }
        assert forall|address: Address, key: StorageKey|
            #[trigger] lists(reads_view(result), address, key) <==> written(
                self@.writes,
                address,
                key,
            ) && entry(self@.writes, address, key).0 == entry(self@.writes, address, key).1 by {
            lemma_views_membership(self@, address, key);
        }
        result
    }

    /// The slots that the pre-state snapshot declares and no store touched,
    /// loaded or not.
    ///
    /// Every account of the snapshot has an entry, which is empty if all its
    /// declared slots were stored.
    pub fn untouched_slots(&self) -> (slots: StorageReads)
        ensures
            reads_view(slots) == untouched(self@.pre_state, self@.writes),
            forall|address: Address, key: StorageKey|
                #[trigger] lists(reads_view(slots), address, key) <==> declares(
                    self@.pre_state,
                    address,
                    key,
                ) && !written(self@.writes, address, key),
    {
        broadcast use {group_laws_cmp, group_btree_axioms};

        let mut result: StorageReads = BTreeMap::new();
        let ghost declared = self@.pre_state;
        let ghost writes = self@.writes;
        let ghost pairs = self.pre_state.iter().remaining();
        let ghost mut n: int = 0;
        let ghost mut seen: Set<Address> = Set::empty();
        assert(reads_view(result) =~= untouched(declared.restrict(seen), writes));
        for pair in it: self.pre_state.iter()
            invariant
                it.seq() == pairs,
                pairs == self.pre_state.iter().remaining(),
                declared == self@.pre_state,
                writes == self@.writes,
                n == it.index(),
                forall|j: int| 0 <= j < n ==> seen.contains(*#[trigger] pairs[j].0),
                reads_view(result) == untouched(declared.restrict(seen), writes),
        {
            assert(pair == pairs[n]);
            assert(self.pre_state@.contains_key(*pairs[n].0) && self.pre_state@[*pairs[n].0]
                == *pairs[n].1);
            let ghost address = *pair.0;
            let ghost earlier = reads_view(result);
            let kept = keys_without(pair.1, self.storage_write.get(pair.0));
            result.insert(*pair.0, kept);
            proof {
                let wider = seen.insert(address);
                assert(kept@ == declared[address].dom().difference(
                    entries_of(writes, address).dom(),
                ));
                assert(reads_view(result) =~= earlier.insert(address, kept@));
                assert(reads_view(result) =~= untouched(declared.restrict(wider), writes));
                n = n + 1;
                seen = wider;
            }
        }
        proof {
            lemma_walk_visits_every_account(&self.pre_state, seen);
            assert(declared.restrict(seen) =~= declared);
        }
        assert forall|address: Address, key: StorageKey|
            #[trigger] lists(reads_view(result), address, key) <==> declares(
                self@.pre_state,
                address,
                key,
            ) && !written(self@.writes, address, key) by {
            lemma_views_membership(self@, address, key);
        }
        result
    }

    /// The read section of the block access list: every slot that was
    /// touched or declared without a change of state. These are the slots
    /// only loaded, the slots stored with their pre-value, and the declared
    /// slots that no store touched.
    pub fn get_bal_storage_reads(&self) -> (slots: StorageReads)
        ensures
            reads_view(slots) == bal_reads(self@),
            forall|address: Address, key: StorageKey|
                #[trigger] lists(reads_view(slots), address, key) <==> counts_as_read(
                    self@,
                    address,
                    key,
                ),
    {
        let mut result = self.read_only_slots();
        let same = self.unchanged_writes();
        merge_reads(&mut result, &same);
        let declared = self.untouched_slots();
        merge_reads(&mut result, &declared);
        assert forall|address: Address, key: StorageKey|
            #[trigger] lists(reads_view(result), address, key) <==> counts_as_read(
                self@,
                address,
                key,
            ) by {
            lemma_read_section_membership(self@, address, key);
        }
        result
    }

    /// The write section of the block access list: every stored slot whose
    /// post-value differs from its pre-value, with both values. A slot
    /// cleared to zero from a nonzero pre-value is among them.
    ///
    /// Only accounts with at least one such slot have an entry.
    pub fn get_bal_storage_writes(&self) -> (entries: StorageWrites)
        ensures
            writes_view(entries) == bal_writes(self@.writes),
            forall|address: Address, key: StorageKey|
                #[trigger] written(writes_view(entries), address, key) <==> counts_as_written(
                    self@.writes,
                    address,
                    key,
                ),
            forall|address: Address, key: StorageKey|
                #[trigger] written(writes_view(entries), address, key) ==> entry(
                    writes_view(entries),
                    address,
                    key,
                ) == entry(self@.writes, address, key),
    {
        broadcast use {group_laws_cmp, group_btree_axioms};

        let mut result: StorageWrites = BTreeMap::new();
        let ghost writes = self@.writes;
        let ghost pairs = self.storage_write.iter().remaining();
        let ghost mut n: int = 0;
        let ghost mut seen: Set<Address> = Set::empty();
        assert(writes_view(result) =~= bal_writes(writes.restrict(seen)));
        for pair in it: self.storage_write.iter()
            invariant
                it.seq() == pairs,
                pairs == self.storage_write.iter().remaining(),
                writes == self@.writes,
                n == it.index(),
                forall|j: int| 0 <= j < n ==> seen.contains(*#[trigger] pairs[j].0),
                writes_view(result) == bal_writes(writes.restrict(seen)),
        {
            assert(pair == pairs[n]);
            assert(self.storage_write@.contains_key(*pairs[n].0) && self.storage_write@[*pairs[n].0]
                == *pairs[n].1);
            let ghost address = *pair.0;
            let ghost earlier = writes_view(result);
            let ghost wider = seen.insert(address);
            let changed = changed_slots(pair.1);
            proof {
                assert(changed@ == changed_entries(writes[address]));
                if has_changed(writes[address]) {
                    let k = choose|k: StorageKey| #[trigger]
                        writes[address].contains_key(k) && writes[address][k].0
                            != writes[address][k].1;
                    assert(changed@.contains_key(k));
                }
                if !changed@.is_empty() {
                    let k = choose|k: StorageKey| changed@.dom().contains(k);
                    assert(writes[address].contains_key(k));
                }
                assert(changed@.is_empty() <==> !has_changed(writes[address]));
            }
            if !changed.is_empty() {
                result.insert(*pair.0, changed);
                proof {
                    assert(writes_view(result) =~= earlier.insert(address, changed@));
                }
            }
            proof {
                assert(writes_view(result) =~= bal_writes(writes.restrict(wider)));
                n = n + 1;
                seen = wider;
            }
        }
        proof {
            lemma_walk_visits_every_account(&self.storage_write, seen);
            assert(writes.restrict(seen) =~= writes);
        }
        assert forall|address: Address, key: StorageKey|
            (#[trigger] written(writes_view(result), address, key) <==> counts_as_written(
                self@.writes,
                address,
                key,
            )) && (written(writes_view(result), address, key) ==> entry(
                writes_view(result),
                address,
                key,
            ) == entry(self@.writes, address, key)) by {
            lemma_write_section_holds_the_changes(self@.writes, address, key);
        }
        result
    }
}

} // verus!
