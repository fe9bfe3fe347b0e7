//! Sets and maps that keep their keys in order, written as sequences.

use crate::collections::{items_encoding, prepend_items, sequence_encoding, sequence_parse};
use crate::deserializer::Deserializer;
use crate::error::Result;
use crate::serializer::Serializer;
use crate::unordered::{lemma_items_unref, lemma_pairs_unref, map_of};
use crate::varint64::{varint_encoding, VarInt64};
use crate::{Deserialize, Serialize};
use std::collections::{BTreeMap, BTreeSet};
use vstd::prelude::*;
use vstd::std_specs::btree::{
    into_iter, into_iter_btree_keys, spec_btree_keys_iter, spec_btree_map_iter,
};
use vstd::std_specs::iter::IteratorSpec;

verus! {

/// Whether the order of `K` is one that a tree can keep its keys by.
pub open spec fn keeps_order<K: Ord>() -> bool {
    vstd::laws_cmp::obeys_cmp::<K>()
}

/// The members of `set` in the order in which the set hands them out.
pub open spec fn btree_set_order<T>(set: &BTreeSet<T>) -> Seq<T> {
    into_iter_btree_keys(spec_btree_keys_iter(set))
}

/// The entries of `map` in the order in which the map hands them out.
pub open spec fn btree_map_order<K, V>(map: &BTreeMap<K, V>) -> Seq<(K, V)> {
    into_iter(spec_btree_map_iter(map))
}

/// Returns the members of `set` in the order in which it hands them out.
fn btree_set_items<'s, T: Ord>(set: &'s BTreeSet<T>) -> (items: Vec<&'s T>)
    requires
        keeps_order::<T>(),
    ensures
        items@.unref() == btree_set_order(set),
        btree_set_order(set).no_duplicates(),
        btree_set_order(set).to_set() == set@,
{
    broadcast use vstd::std_specs::btree::group_btree_axioms;

    let mut items: Vec<&'s T> = Vec::new();
    for item in it: set.iter()
        invariant
            items@ == it.seq().take(it.index() as int),
    {
        items.push(item);
        assert(it.seq().take(it.index() + 1) =~= it.seq().take(it.index() as int).push(item));
    }
    proof {
        let order = spec_btree_keys_iter(set).remaining();
        assert(order.take(order.len() as int) =~= order);
        assert(items@ == order);
        assert(order.unref().no_duplicates()) by {
            assert forall|i: int, j: int|
                0 <= i < order.len() && 0 <= j < order.len() && i != j implies order.unref()[i]
                != order.unref()[j] by {
                assert(order[i] != order[j]);
            }
        }
    }
    items
}

/// Returns the entries of `map` in the order in which it hands them out.
fn btree_map_items<'s, K: Ord, V>(map: &'s BTreeMap<K, V>) -> (items: Vec<(&'s K, &'s V)>)
    requires
        keeps_order::<K>(),
    ensures
        items@.unref() == btree_map_order(map),
        btree_map_order(map).to_set() == map@.kv_pairs(),
{
    broadcast use vstd::std_specs::btree::group_btree_axioms;

    let mut items: Vec<(&'s K, &'s V)> = Vec::new();
    for item in it: map.iter()
        invariant
            items@ == it.seq().take(it.index() as int),
    {
        items.push(item);
        assert(it.seq().take(it.index() + 1) =~= it.seq().take(it.index() as int).push(item));
    }
    proof {
        let order = spec_btree_map_iter(map).remaining();
        assert(order.take(order.len() as int) =~= order);
        assert(items@ == order);
    }
    items
}

/// Writes a set as a sequence of its members, in the order in which the set
/// hands them out.
pub fn serialize_btree_set<T: Serialize + Ord, S: Serializer>(
    set: &BTreeSet<T>,
    serializer: &mut S,
) -> (r: Result<()>)
    requires
        keeps_order::<T>(),
        old(serializer).sink().count + sequence_encoding(btree_set_order(set)).len() <= usize::MAX,
    ensures
        r is Ok ==> final(serializer).sink() == old(serializer).sink().prepend(
            sequence_encoding(btree_set_order(set)),
        ),
        old(serializer).sink().dependable ==> r is Ok,
        btree_set_order(set).no_duplicates(),
        btree_set_order(set).to_set() == set@,
{
    let ghost start = serializer.sink();
    let items = btree_set_items(set);
    proof {
        lemma_items_unref(items@);
    }
    prepend_items(items.as_slice(), serializer)?;
    let count = VarInt64(items.len() as u64);
    proof {
        assert(count.encoding() == varint_encoding(items@.len() as u64));
        start.lemma_prepend_twice(items_encoding(items@), count.encoding());
    }
    count.serialize_to(serializer)
}

/// Writes a map as a sequence of its entries, each a key and its value, in
/// the order in which the map hands them out.
pub fn serialize_btree_map<K: Serialize + Ord, V: Serialize, S: Serializer>(
    map: &BTreeMap<K, V>,
    serializer: &mut S,
) -> (r: Result<()>)
    requires
        keeps_order::<K>(),
        old(serializer).sink().count + sequence_encoding(btree_map_order(map)).len() <= usize::MAX,
    ensures
        r is Ok ==> final(serializer).sink() == old(serializer).sink().prepend(
            sequence_encoding(btree_map_order(map)),
        ),
        old(serializer).sink().dependable ==> r is Ok,
        btree_map_order(map).to_set() == map@.kv_pairs(),
{
    let ghost start = serializer.sink();
    let items = btree_map_items(map);
    proof {
        lemma_pairs_unref(items@);
    }
    prepend_items(items.as_slice(), serializer)?;
    let count = VarInt64(items.len() as u64);
    proof {
        assert(count.encoding() == varint_encoding(items@.len() as u64));
        start.lemma_prepend_twice(items_encoding(items@), count.encoding());
    }
    count.serialize_to(serializer)
}

/// Reads a sequence and makes a set of its items.
pub fn deserialize_btree_set<'a, T: Deserialize<'a> + Ord, D: Deserializer<'a>>(buf: &mut D) -> (r:
    Result<BTreeSet<T>>)
    requires
        keeps_order::<T>(),
    ensures
        match sequence_parse::<T>(old(buf).input()) {
            Ok((wire, used)) => {
                &&& r matches Ok(set)
                &&& exists|items: Seq<T>| sequence_encoding(items) == wire && set@ == items.to_set()
                &&& 0 <= used <= old(buf).input().len()
                &&& final(buf).input() == old(buf).input().skip(used)
            },
            Err(failure) => r matches Err(e) && e@ == failure,
        },
{
    assert(Vec::<T>::parse(buf.input()) == sequence_parse::<T>(buf.input()));
    let items = Vec::<T>::deserialize_from(buf)?;
    let ghost all = items@;
    assert(items.encoding() == sequence_encoding(all));
    let mut set: BTreeSet<T> = BTreeSet::new();
    for item in it: items
        invariant
            keeps_order::<T>(),
            it.seq() == all,
            set@ == all.take(it.index() as int).to_set(),
    {
        set.insert(item);
        proof {
            crate::unordered::lemma_to_set_push(all.take(it.index() as int), item);
            assert(all.take(it.index() + 1) =~= all.take(it.index() as int).push(item));
        }
    }
    assert(all.take(all.len() as int) =~= all);
    Ok(set)
}

/// Reads a sequence of entries and makes a map of them; of two entries with
/// one key, the later one stays.
pub fn deserialize_btree_map<
    'a,
    K: Deserialize<'a> + Ord,
    V: Deserialize<'a>,
    D: Deserializer<'a>,
>(buf: &mut D) -> (r: Result<BTreeMap<K, V>>)
    requires
        keeps_order::<K>(),
    ensures
        match sequence_parse::<(K, V)>(old(buf).input()) {
            Ok((wire, used)) => {
                &&& r matches Ok(map)
                &&& exists|pairs: Seq<(K, V)>|
                    sequence_encoding(pairs) == wire && map@ == map_of(pairs)
                &&& 0 <= used <= old(buf).input().len()
                &&& final(buf).input() == old(buf).input().skip(used)
            },
            Err(failure) => r matches Err(e) && e@ == failure,
        },
{
    assert(Vec::<(K, V)>::parse(buf.input()) == sequence_parse::<(K, V)>(buf.input()));
    let items = Vec::<(K, V)>::deserialize_from(buf)?;
    let ghost all = items@;
    assert(items.encoding() == sequence_encoding(all));
    let mut map: BTreeMap<K, V> = BTreeMap::new();
    assert(all.take(0) =~= Seq::<(K, V)>::empty());
    for item in it: items
        invariant
            keeps_order::<K>(),
            it.seq() == all,
            map@ == map_of(all.take(it.index() as int)),
    {
        proof {
            let after = all.take(it.index() + 1);
            assert(after.drop_last() =~= all.take(it.index() as int));
            assert(after.last() == item);
        }
        map.insert(item.0, item.1);
    }
    assert(all.take(all.len() as int) =~= all);
    Ok(map)
}

} // verus!
