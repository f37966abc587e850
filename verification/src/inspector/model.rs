//! The mathematical model of the tracker: what it has recorded, as maps and
//! sets, and what the block access list shows of that.

use crate::primitives::{Address, StorageKey, StorageValue, TxIndex};
use std::collections::{BTreeMap, BTreeSet};
use vstd::prelude::*;

verus! {

/// The slots loaded by a transaction, by account.
pub type StorageReads = BTreeMap<Address, BTreeSet<StorageKey>>;

/// The slots stored by a transaction, by account: each with the value it
/// held before the transaction and the value last stored.
pub type StorageWrites = BTreeMap<Address, BTreeMap<StorageKey, (StorageValue, StorageValue)>>;

/// Storage values as they stood before a transaction, by account.
pub type PreState = BTreeMap<Address, BTreeMap<StorageKey, StorageValue>>;

/// What a `StorageReads` holds.
pub type ReadSet = Map<Address, Set<StorageKey>>;

/// What a `StorageWrites` holds.
pub type WriteSet = Map<Address, Map<StorageKey, (StorageValue, StorageValue)>>;

/// What a `PreState` holds.
pub type Snapshot = Map<Address, Map<StorageKey, StorageValue>>;

/// The read-set held by `reads`.
pub open spec fn reads_view(reads: StorageReads) -> ReadSet {
    reads@.map_values(|slots: BTreeSet<StorageKey>| slots@)
}

/// The write-set held by `writes`.
pub open spec fn writes_view(writes: StorageWrites) -> WriteSet {
    writes@.map_values(|slots: BTreeMap<StorageKey, (StorageValue, StorageValue)>| slots@)
}

/// The snapshot held by `pre_state`.
pub open spec fn snapshot_view(pre_state: PreState) -> Snapshot {
    pre_state@.map_values(|slots: BTreeMap<StorageKey, StorageValue>| slots@)
}

/// Everything a tracker holds.
pub struct AccessState {
    /// The slots loaded so far.
    pub reads: ReadSet,
    /// The slots stored so far, each with its pre-value and its post-value.
    pub writes: WriteSet,
    /// The pre-state snapshot supplied by the caller.
    pub pre_state: Snapshot,
    /// The position of the transaction being tracked.
    pub tx_index: TxIndex,
}

/// The slots that `slots` lists for `address`: none if it has no entry.
pub open spec fn slots_of(slots: ReadSet, address: Address) -> Set<StorageKey> {
    if slots.contains_key(address) {
        slots[address]
    } else {
        Set::empty()
    }
}

/// The entries that `writes` holds for `address`: none if it has no entry.
pub open spec fn entries_of(writes: WriteSet, address: Address) -> Map<
    StorageKey,
    (StorageValue, StorageValue),
> {
    if writes.contains_key(address) {
        writes[address]
    } else {
        Map::empty()
    }
}

/// The values that `snapshot` declares for `address`: none if it has no entry.
pub open spec fn declared_of(snapshot: Snapshot, address: Address) -> Map<
    StorageKey,
    StorageValue,
> {
    if snapshot.contains_key(address) {
        snapshot[address]
    } else {
        Map::empty()
    }
}

/// Whether `slots` lists the slot `key` of `address`.
pub open spec fn lists(slots: ReadSet, address: Address, key: StorageKey) -> bool {
    slots_of(slots, address).contains(key)
}

/// Whether `writes` holds an entry for the slot `key` of `address`.
pub open spec fn written(writes: WriteSet, address: Address, key: StorageKey) -> bool {
    entries_of(writes, address).contains_key(key)
}

/// The pre-value and post-value recorded for a written slot.
pub open spec fn entry(writes: WriteSet, address: Address, key: StorageKey) -> (
    StorageValue,
    StorageValue,
)
    recommends
        written(writes, address, key),
{
    entries_of(writes, address)[key]
}

/// Whether `snapshot` declares a value for the slot `key` of `address`.
pub open spec fn declares(snapshot: Snapshot, address: Address, key: StorageKey) -> bool {
    declared_of(snapshot, address).contains_key(key)
}

/// The read-set after one more load of the slot `key` of `address`.
pub open spec fn with_read(reads: ReadSet, address: Address, key: StorageKey) -> ReadSet {
    reads.insert(address, slots_of(reads, address).insert(key))
}

/// The write-set after one more store to the slot `key` of `address`.
///
/// A slot seen for the first time gets `(pre, post)`. A slot that already has
/// an entry keeps the pre-value of that entry and only takes the new `post`.
pub open spec fn with_write(
    writes: WriteSet,
    address: Address,
    key: StorageKey,
    pre: StorageValue,
    post: StorageValue,
) -> WriteSet {
    let kept = if written(writes, address, key) {
        entry(writes, address, key).0
    } else {
        pre
    };
    writes.insert(address, entries_of(writes, address).insert(key, (kept, post)))
}

/// The write-set after seeding the slot `key` of `address`: a slot without an
/// entry gets `(pre, post)`, a slot with an entry keeps it.
pub open spec fn with_seed(
    writes: WriteSet,
    address: Address,
    key: StorageKey,
    pre: StorageValue,
    post: StorageValue,
) -> WriteSet {
    if written(writes, address, key) {
        writes
    } else {
        writes.insert(address, entries_of(writes, address).insert(key, (pre, post)))
    }
}

/// Slots that were loaded and never stored: for each account of the
/// read-set, its loaded slots without those that have a write entry.
pub open spec fn read_only(reads: ReadSet, writes: WriteSet) -> ReadSet {
    Map::new(
        |a: Address| reads.contains_key(a),
        |a: Address| reads[a].difference(entries_of(writes, a).dom()),
    )
}

/// The slots of one account whose stores changed nothing: the post-value
/// equals the pre-value.
pub open spec fn unchanged_keys(entries: Map<StorageKey, (StorageValue, StorageValue)>) -> Set<
    StorageKey,
> {
    Set::new(|k: StorageKey| entries.contains_key(k) && entries[k].0 == entries[k].1)
}

/// The entries of one account whose stores changed the slot: the post-value
/// differs from the pre-value.
pub open spec fn changed_entries(entries: Map<StorageKey, (StorageValue, StorageValue)>) -> Map<
    StorageKey,
    (StorageValue, StorageValue),
> {
    Map::new(
        |k: StorageKey| entries.contains_key(k) && entries[k].0 != entries[k].1,
        |k: StorageKey| entries[k],
    )
}

/// Whether some store to the account changed nothing.
pub open spec fn has_unchanged(entries: Map<StorageKey, (StorageValue, StorageValue)>) -> bool {
    exists|k: StorageKey| #[trigger] entries.contains_key(k) && entries[k].0 == entries[k].1
}

/// Whether some store to the account changed its slot.
pub open spec fn has_changed(entries: Map<StorageKey, (StorageValue, StorageValue)>) -> bool {
    exists|k: StorageKey| #[trigger] entries.contains_key(k) && entries[k].0 != entries[k].1
}

/// Stores without effect: for each account that has one, the slots whose
/// post-value equals their pre-value.
pub open spec fn unchanged(writes: WriteSet) -> ReadSet {
    Map::new(
        |a: Address| writes.contains_key(a) && has_unchanged(writes[a]),
        |a: Address| unchanged_keys(writes[a]),
    )
}

/// Declared slots that no store touched: for each account of the snapshot,
/// its declared slots without those that have a write entry. Whether such a
/// slot was loaded does not matter.
pub open spec fn untouched(pre_state: Snapshot, writes: WriteSet) -> ReadSet {
    Map::new(
        |a: Address| pre_state.contains_key(a),
        |a: Address| pre_state[a].dom().difference(entries_of(writes, a).dom()),
    )
}

/// The union of two slot listings, account by account.
pub open spec fn merged(left: ReadSet, right: ReadSet) -> ReadSet {
    Map::new(
        |a: Address| left.contains_key(a) || right.contains_key(a),
        |a: Address| slots_of(left, a).union(slots_of(right, a)),
    )
}

/// The read section of the block access list: slots only loaded, slots stored
/// without effect, and declared slots that no store touched.
pub open spec fn bal_reads(state: AccessState) -> ReadSet {
    merged(
        merged(read_only(state.reads, state.writes), unchanged(state.writes)),
        untouched(state.pre_state, state.writes),
    )
}

/// The write section of the block access list: for each account that has
/// one, the entries whose post-value differs from their pre-value.
pub open spec fn bal_writes(writes: WriteSet) -> WriteSet {
    Map::new(
        |a: Address| writes.contains_key(a) && has_changed(writes[a]),
        |a: Address| changed_entries(writes[a]),
    )
}

/// Whether the slot `key` of `address` counts as read: it was loaded and
/// not stored, or stored with its pre-value, or declared by the snapshot and
/// not stored.
pub open spec fn counts_as_read(state: AccessState, address: Address, key: StorageKey) -> bool {
    ||| lists(state.reads, address, key) && !written(state.writes, address, key)
    ||| written(state.writes, address, key) && entry(state.writes, address, key).0 == entry(
        state.writes,
        address,
        key,
    ).1
    ||| declares(state.pre_state, address, key) && !written(state.writes, address, key)
}

/// Whether the slot `key` of `address` counts as written: it was stored and
/// its post-value differs from its pre-value.
pub open spec fn counts_as_written(writes: WriteSet, address: Address, key: StorageKey) -> bool {
    written(writes, address, key) && entry(writes, address, key).0 != entry(
        writes,
        address,
        key,
    ).1
}

/// The value a slot held before the transaction, as far as the snapshot and
/// the database tell: the snapshot's value if it declares the slot, else the
/// database's value if it has one, else zero.
pub open spec fn pre_value(
    pre_state: Snapshot,
    address: Address,
    key: StorageKey,
    database: Option<StorageValue>,
) -> StorageValue {
    if declares(pre_state, address, key) {
        declared_of(pre_state, address)[key]
    } else {
        match database {
            Some(value) => value,
            None => crate::primitives::ZERO,
        }
    }
}

} // verus!
