//! Set operations on the ordered collections the tracker is made of.

use crate::inspector::model::{
    changed_entries, merged, reads_view, slots_of, unchanged_keys, ReadSet, StorageReads,
};
use crate::primitives::{same_word, Address, StorageKey, StorageValue};
use std::collections::{BTreeMap, BTreeSet};
use vstd::laws_cmp::group_laws_cmp;
use vstd::prelude::*;
use vstd::std_specs::btree::group_btree_axioms;
use vstd::std_specs::iter::IteratorSpec;

verus! {

/// The slots that have an entry in `written`: none if there is no map.
pub open spec fn keys_of<V>(written: Option<&BTreeMap<StorageKey, V>>) -> Set<StorageKey> {
    match written {
        Some(entries) => entries@.dom(),
        None => Set::empty(),
    }
}

/// The slots of `slots` that have no entry in `written`.
pub fn slots_without<V>(
    slots: &BTreeSet<StorageKey>,
    written: Option<&BTreeMap<StorageKey, V>>,
) -> (out: BTreeSet<StorageKey>)
    ensures
        out@ == slots@.difference(keys_of(written)),
{
    broadcast use {group_laws_cmp, group_btree_axioms};

    let mut out: BTreeSet<StorageKey> = BTreeSet::new();
    let ghost keys: Seq<StorageKey> = slots.iter().remaining().unref();
    let ghost mut n: int = 0;
    for key in it: slots.iter()
        invariant
            it.seq().unref() == keys,
            keys.to_set() == slots@,
            n == it.index(),
            forall|x: StorageKey|
                out@.contains(x) <==> (!keys_of(written).contains(x) && exists|j: int|
                    0 <= j < n && keys[j] == x),
    {
        assert(*key == keys[n]);
        let skip = match written {
            Some(entries) => entries.contains_key(key),
            None => false,
        };
        if !skip {
            out.insert(*key);
        }
        proof {
            n = n + 1;
        }
    }
    assert(n == keys.len());
    assert forall|x: StorageKey| out@.contains(x) == slots@.difference(keys_of(written)).contains(
        x,
    ) by {
        if slots@.contains(x) {
            assert(keys.to_set().contains(x));
            assert(keys.contains(x));
        }
    }
    assert(out@ =~= slots@.difference(keys_of(written)));
    out
}

/// The slots that `declared` has an entry for and `written` has none.
pub fn keys_without<V, W>(
    declared: &BTreeMap<StorageKey, V>,
    written: Option<&BTreeMap<StorageKey, W>>,
) -> (out: BTreeSet<StorageKey>)
    ensures
        out@ == declared@.dom().difference(keys_of(written)),
{
    broadcast use {group_laws_cmp, group_btree_axioms};

    let mut out: BTreeSet<StorageKey> = BTreeSet::new();
    let ghost pairs = declared.iter().remaining();
    let ghost mut n: int = 0;
    for pair in it: declared.iter()
        invariant
            it.seq() == pairs,
            pairs == declared.iter().remaining(),
            n == it.index(),
            forall|x: StorageKey|
                out@.contains(x) <==> (!keys_of(written).contains(x) && exists|j: int|
                    0 <= j < n && *pairs[j].0 == x),
    {
        assert(pair == pairs[n]);
        let skip = match written {
            Some(entries) => entries.contains_key(pair.0),
            None => false,
        };
        if !skip {
            out.insert(*pair.0);
        }
        proof {
            n = n + 1;
        }
    }
    assert(n == pairs.len());
    assert forall|x: StorageKey| out@.contains(x) == declared@.dom().difference(
        keys_of(written),
    ).contains(x) by {
        if declared@.contains_key(x) {
            assert(pairs.contains((&x, &declared@[x])));
        }
        if out@.contains(x) {
            let j = choose|j: int| 0 <= j < n && *pairs[j].0 == x;
            assert(declared@.contains_key(*pairs[j].0));
        }
    }
    assert(out@ =~= declared@.dom().difference(keys_of(written)));
    out
}

/// The slots of one account whose post-value equals their pre-value.
pub fn unchanged_slots(entries: &BTreeMap<StorageKey, (StorageValue, StorageValue)>) -> (out:
    BTreeSet<StorageKey>)
    ensures
        out@ == unchanged_keys(entries@),
{
    broadcast use {group_laws_cmp, group_btree_axioms};

    let mut out: BTreeSet<StorageKey> = BTreeSet::new();
    let ghost pairs = entries.iter().remaining();
    let ghost mut n: int = 0;
    for pair in it: entries.iter()
        invariant
            it.seq() == pairs,
            pairs == entries.iter().remaining(),
            n == it.index(),
            forall|x: StorageKey|
                out@.contains(x) <==> exists|j: int|
                    0 <= j < n && *pairs[j].0 == x && (*pairs[j].1).0 == (*pairs[j].1).1,
    {
        assert(pair == pairs[n]);
        if same_word(pair.1.0, pair.1.1) {
            out.insert(*pair.0);
        }
        proof {
            n = n + 1;
        }
    }
    assert(n == pairs.len());
    assert forall|x: StorageKey| out@.contains(x) == unchanged_keys(entries@).contains(x) by {
        if entries@.contains_key(x) {
            assert(pairs.contains((&x, &entries@[x])));
        }
        if out@.contains(x) {
            let j = choose|j: int|
                0 <= j < n && *pairs[j].0 == x && (*pairs[j].1).0 == (*pairs[j].1).1;
            assert(entries@.contains_key(*pairs[j].0));
        }
    }
    assert(out@ =~= unchanged_keys(entries@));
    out
}

/// The entries of one account whose post-value differs from their pre-value.
pub fn changed_slots(entries: &BTreeMap<StorageKey, (StorageValue, StorageValue)>) -> (out:
    BTreeMap<StorageKey, (StorageValue, StorageValue)>)
    ensures
        out@ == changed_entries(entries@),
{
    broadcast use {group_laws_cmp, group_btree_axioms};

    let mut out: BTreeMap<StorageKey, (StorageValue, StorageValue)> = BTreeMap::new();
    let ghost pairs = entries.iter().remaining();
    let ghost mut n: int = 0;
    for pair in it: entries.iter()
        invariant
            it.seq() == pairs,
            pairs == entries.iter().remaining(),
            n == it.index(),
            forall|x: StorageKey|
                out@.contains_key(x) <==> exists|j: int|
                    0 <= j < n && *pairs[j].0 == x && (*pairs[j].1).0 != (*pairs[j].1).1,
            forall|x: StorageKey|
                out@.contains_key(x) ==> entries@.contains_key(x) && out@[x] == entries@[x],
    {
        assert(pair == pairs[n]);
        assert(entries@.contains_key(*pairs[n].0));
        if !same_word(pair.1.0, pair.1.1) {
            out.insert(*pair.0, *pair.1);
        }
        proof {
            n = n + 1;
        }
    }
    assert(n == pairs.len());
    assert forall|x: StorageKey| out@.contains_key(x) == changed_entries(entries@).contains_key(
        x,
    ) by {
        if entries@.contains_key(x) {
            assert(pairs.contains((&x, &entries@[x])));
        }
    }
    assert(out@ =~= changed_entries(entries@));
    out
}

/// Adds the slots of `from` to `into`.
pub fn add_slots(into: &mut BTreeSet<StorageKey>, from: &BTreeSet<StorageKey>)
    ensures
        final(into)@ == old(into)@.union(from@),
{
    broadcast use {group_laws_cmp, group_btree_axioms};

    let ghost keys: Seq<StorageKey> = from.iter().remaining().unref();
    let ghost mut n: int = 0;
    for key in it: from.iter()
        invariant
            it.seq().unref() == keys,
            keys.to_set() == from@,
            n == it.index(),
            forall|x: StorageKey|
                into@.contains(x) <==> (old(into)@.contains(x) || exists|j: int|
                    0 <= j < n && keys[j] == x),
    {
        assert(*key == keys[n]);
        into.insert(*key);
        proof {
            n = n + 1;
        }
    }
    assert(n == keys.len());
    assert forall|x: StorageKey| into@.contains(x) == old(into)@.union(from@).contains(x) by {
        if from@.contains(x) {
            assert(keys.to_set().contains(x));
            assert(keys.contains(x));
        }
    }
    assert(into@ =~= old(into)@.union(from@));
}

/// Once a walk over a map has visited all its pairs, it has visited every
/// account that the map has an entry for.
pub proof fn lemma_walk_visits_every_account<V>(map: &BTreeMap<Address, V>, seen: Set<Address>)
    requires
        forall|j: int|
            0 <= j < map.iter().remaining().len() ==> seen.contains(
                *#[trigger] map.iter().remaining()[j].0,
            ),
    ensures
        forall|a: Address| map@.contains_key(a) ==> seen.contains(a),
{
    broadcast use {group_laws_cmp, group_btree_axioms};

    let pairs = map.iter().remaining();
    assert forall|a: Address| map@.contains_key(a) implies seen.contains(a) by {
        assert(pairs.contains((&a, &map@[a])));
        let j = choose|j: int| 0 <= j < pairs.len() && pairs[j] == (&a, &map@[a]);
        assert(seen.contains(*pairs[j].0));
    }
}

/// Merging in one more account of `added`: the merge with the accounts in
/// `seen` and `address` is the merge with the accounts in `seen`, with the
/// slots of `address` in `added` joined to those it had.
proof fn lemma_merge_one_more(
    before: ReadSet,
    added: ReadSet,
    seen: Set<Address>,
    address: Address,
)
    requires
        added.contains_key(address),
    ensures
        ({
            let so_far = merged(before, added.restrict(seen));
            merged(before, added.restrict(seen.insert(address))) == so_far.insert(
                address,
                slots_of(so_far, address).union(added[address]),
            )
        }),
{
    let so_far = merged(before, added.restrict(seen));
    let wider = merged(before, added.restrict(seen.insert(address)));
    let stepped = so_far.insert(address, slots_of(so_far, address).union(added[address]));
    assert forall|a: Address| wider.contains_key(a) == stepped.contains_key(a) by {}
    assert forall|a: Address| wider.contains_key(a) implies wider[a] == stepped[a] by {
        if a == address {
            assert(slots_of(added.restrict(seen.insert(address)), a) == added[address]);
            assert(wider[a] =~= stepped[a]);
        } else {
            assert(slots_of(added.restrict(seen.insert(address)), a) == slots_of(
                added.restrict(seen),
                a,
            ));
        }
    }
    assert(wider =~= stepped);
}

/// Adds the slots that `from` lists to `into`, account by account.
pub fn merge_reads(into: &mut StorageReads, from: &StorageReads)
    ensures
        reads_view(*final(into)) == merged(reads_view(*old(into)), reads_view(*from)),
{
    broadcast use {group_laws_cmp, group_btree_axioms};

    let ghost before = reads_view(*into);
    let ghost added = reads_view(*from);
    let ghost pairs = from.iter().remaining();
    let ghost mut n: int = 0;
    let ghost mut seen: Set<Address> = Set::empty();
    assert(reads_view(*into) =~~= merged(before, added.restrict(seen)));
    for pair in it: from.iter()
        invariant
            it.seq() == pairs,
            pairs == from.iter().remaining(),
            added == reads_view(*from),
            n == it.index(),
            forall|j: int| 0 <= j < n ==> seen.contains(*#[trigger] pairs[j].0),
            reads_view(*into) == merged(before, added.restrict(seen)),
    {
        assert(pair == pairs[n]);
        assert(from@.contains_key(*pairs[n].0) && from@[*pairs[n].0] == *pairs[n].1);
        let ghost earlier = reads_view(*into);
        let ghost address = *pair.0;
        let mut slots = match into.remove(pair.0) {
            Some(slots) => slots,
            None => BTreeSet::new(),
        };
        add_slots(&mut slots, pair.1);
        into.insert(*pair.0, slots);
        proof {
            assert(added.contains_key(address) && added[address] == pair.1@);
            assert(reads_view(*into) =~= earlier.insert(
                address,
                slots_of(earlier, address).union(added[address]),
            ));
            lemma_merge_one_more(before, added, seen, address);
            n = n + 1;
            seen = seen.insert(address);
        }
    }
    proof {
        lemma_walk_visits_every_account(from, seen);
        assert(added.restrict(seen) =~= added);
    }
}

} // verus!
