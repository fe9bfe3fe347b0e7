//! Sets and maps that keep no order, written as sequences.

use crate::collections::{
    items_encoding, prepend_items, sequence_encoding, sequence_parse,
};
use crate::deserializer::Deserializer;
use crate::error::Result;
use crate::serializer::Serializer;
use crate::varint64::{varint_encoding, VarInt64};
use crate::{Deserialize, Serialize};
use std::collections::{HashMap, HashSet};
use std::hash::Hash;
use vstd::prelude::*;
use vstd::std_specs::hash::{
    into_iter, into_iter_hash_keys, obeys_key_model, spec_hash_keys_iter, spec_hash_map_iter,
};
use vstd::std_specs::iter::IteratorSpec;

verus! {

/// The members of `set` in the order in which the set hands them out.
pub open spec fn hash_set_order<T>(set: &HashSet<T>) -> Seq<T> {
    into_iter_hash_keys(spec_hash_keys_iter(set))
}

/// The entries of `map` in the order in which the map hands them out.
pub open spec fn hash_map_order<K, V>(map: &HashMap<K, V>) -> Seq<(K, V)> {
    into_iter(spec_hash_map_iter(map))
}

/// The map that comes of putting `pairs` into an empty map, one after the
/// other: of two pairs with one key, the later one stays.
pub open spec fn map_of<K, V>(pairs: Seq<(K, V)>) -> Map<K, V>
    decreases pairs.len(),
{
    if pairs.len() == 0 {
        Map::empty()
    } else {
        map_of(pairs.drop_last()).insert(pairs.last().0, pairs.last().1)
    }
}

/// The set of items with one more item at their end.
pub proof fn lemma_to_set_push<T>(items: Seq<T>, last: T)
    ensures
        items.push(last).to_set() == items.to_set().insert(last),
{
    let longer = items.push(last);
    assert forall|x: T| longer.to_set().contains(x) <==> items.to_set().insert(last).contains(
        x,
    ) by {
        if items.contains(x) {
            let j = choose|j: int| 0 <= j < items.len() && items[j] == x;
            assert(longer[j] == x);
        }
        if longer.contains(x) {
            let j = choose|j: int| 0 <= j < longer.len() && longer[j] == x;
            if j < items.len() {
                assert(items[j] == x);
            }
        }
        assert(longer[items.len() as int] == last);
    }
    assert(longer.to_set() =~= items.to_set().insert(last));
}

/// What is referred to has the wire form of its reference.
pub proof fn lemma_items_unref<T: Serialize>(items: Seq<&T>)
    ensures
        items_encoding(items) == items_encoding(items.unref()),
    decreases items.len(),
{
    if items.len() != 0 {
        lemma_items_unref(items.drop_first());
        assert(items.unref().drop_first() =~= items.drop_first().unref());
        assert(items[0].encoding() == (*items[0]).encoding());
        assert(items.unref()[0] == *items[0]);
    }
}

/// A pair of what is referred to has the wire form of the pair of references.
pub proof fn lemma_pairs_unref<K: Serialize, V: Serialize>(items: Seq<(&K, &V)>)
    ensures
        items_encoding(items) == items_encoding(items.unref()),
    decreases items.len(),
{
    if items.len() != 0 {
        lemma_pairs_unref(items.drop_first());
        assert(items.unref().drop_first() =~= items.drop_first().unref());
        let pair = items[0];
        assert(pair.encoding() == pair.0.encoding() + (pair.1.encoding()));
        assert(pair.0.encoding() == (*pair.0).encoding());
        assert(pair.1.encoding() == (*pair.1).encoding());
        let plain = items.unref()[0];
        assert(plain == (*pair.0, *pair.1));
        assert(plain.encoding() == plain.0.encoding() + (plain.1.encoding()));
    }
}

/// Returns the members of `set` in the order in which it hands them out.
fn hash_set_items<'s, T: Eq + Hash>(set: &'s HashSet<T>) -> (items: Vec<&'s T>)
    requires
        obeys_key_model::<T>(),
    ensures
        items@.unref() == hash_set_order(set),
        hash_set_order(set).no_duplicates(),
        hash_set_order(set).to_set() == set@,
{
    let mut items: Vec<&'s T> = Vec::new();
    for item in it: set.iter()
        invariant
            items@ == it.seq().take(it.index() as int),
    {
        items.push(item);
        assert(it.seq().take(it.index() + 1) =~= it.seq().take(it.index() as int).push(item));
    }
    proof {
        let order = spec_hash_keys_iter(set).remaining();
        assert(order.take(order.len() as int) =~= order);
        assert(items@ == order);
        assert(order.unref().no_duplicates()) by {
            assert forall|i: int, j: int|
                0 <= i < order.len() && 0 <= j < order.len() && i != j implies order.unref()[i]
                != order.unref()[j] by {
                assert(order[i] != order[j]);
            }
        }
    }
    items
}

/// Returns the entries of `map` in the order in which it hands them out.
fn hash_map_items<'s, K: Eq + Hash, V>(map: &'s HashMap<K, V>) -> (items: Vec<(&'s K, &'s V)>)
    requires
        obeys_key_model::<K>(),
    ensures
        items@.unref() == hash_map_order(map),
        hash_map_order(map).to_set() == map@.kv_pairs(),
{
    let mut items: Vec<(&'s K, &'s V)> = Vec::new();
    for item in it: map.iter()
        invariant
            items@ == it.seq().take(it.index() as int),
    {
        items.push(item);
        assert(it.seq().take(it.index() + 1) =~= it.seq().take(it.index() as int).push(item));
    }
    proof {
        let order = spec_hash_map_iter(map).remaining();
        assert(order.take(order.len() as int) =~= order);
        assert(items@ == order);
    }
    items
}

/// Writes a set as a sequence of its members, in the order in which the set
/// hands them out.
pub fn serialize_hash_set<T: Serialize + Eq + Hash, S: Serializer>(
    set: &HashSet<T>,
    serializer: &mut S,
) -> (r: Result<()>)
    requires
        obeys_key_model::<T>(),
        old(serializer).sink().count + sequence_encoding(hash_set_order(set)).len() <= usize::MAX,
    ensures
        r is Ok ==> final(serializer).sink() == old(serializer).sink().prepend(
            sequence_encoding(hash_set_order(set)),
        ),
        old(serializer).sink().dependable ==> r is Ok,
        hash_set_order(set).no_duplicates(),
        hash_set_order(set).to_set() == set@,
{
    let ghost start = serializer.sink();
    let items = hash_set_items(set);
    proof {
        lemma_items_unref(items@);
    }
    prepend_items(items.as_slice(), serializer)?;
    let count = VarInt64(items.len() as u64);
    proof {
        assert(count.encoding() == varint_encoding(items@.len() as u64));
        start.lemma_prepend_twice(items_encoding(items@), count.encoding());
    }
    count.serialize_to(serializer)
}

/// Writes a map as a sequence of its entries, each a key and its value, in
/// the order in which the map hands them out.
pub fn serialize_hash_map<K: Serialize + Eq + Hash, V: Serialize, S: Serializer>(
    map: &HashMap<K, V>,
    serializer: &mut S,
) -> (r: Result<()>)
    requires
        obeys_key_model::<K>(),
        old(serializer).sink().count + sequence_encoding(hash_map_order(map)).len() <= usize::MAX,
    ensures
        r is Ok ==> final(serializer).sink() == old(serializer).sink().prepend(
            sequence_encoding(hash_map_order(map)),
        ),
        old(serializer).sink().dependable ==> r is Ok,
        hash_map_order(map).to_set() == map@.kv_pairs(),
{
    let ghost start = serializer.sink();
    let items = hash_map_items(map);
    proof {
        lemma_pairs_unref(items@);
    }
    prepend_items(items.as_slice(), serializer)?;
    let count = VarInt64(items.len() as u64);
    proof {
        assert(count.encoding() == varint_encoding(items@.len() as u64));
        start.lemma_prepend_twice(items_encoding(items@), count.encoding());
    }
    count.serialize_to(serializer)
}

/// Reads a sequence and makes a set of its items.
pub fn deserialize_hash_set<'a, T: Deserialize<'a> + Eq + Hash, D: Deserializer<'a>>(
    buf: &mut D,
) -> (r: Result<HashSet<T>>)
    requires
        obeys_key_model::<T>(),
    ensures
        match sequence_parse::<T>(old(buf).input()) {
            Ok((wire, used)) => {
                &&& r matches Ok(set)
                &&& exists|items: Seq<T>| sequence_encoding(items) == wire && set@ == items.to_set()
                &&& 0 <= used <= old(buf).input().len()
                &&& final(buf).input() == old(buf).input().skip(used)
            },
            Err(failure) => r matches Err(e) && e@ == failure,
        },
{
    assert(Vec::<T>::parse(buf.input()) == sequence_parse::<T>(buf.input()));
    let items = Vec::<T>::deserialize_from(buf)?;
    let ghost all = items@;
    assert(items.encoding() == sequence_encoding(all));
    let mut set: HashSet<T> = HashSet::new();
    for item in it: items
        invariant
            obeys_key_model::<T>(),
            it.seq() == all,
            set@ == all.take(it.index() as int).to_set(),
    {
        set.insert(item);
        proof {
            lemma_to_set_push(all.take(it.index() as int), item);
            assert(all.take(it.index() + 1) =~= all.take(it.index() as int).push(item));
        }
    }
    assert(all.take(all.len() as int) =~= all);
    Ok(set)
}

/// Reads a sequence of entries and makes a map of them; of two entries with
/// one key, the later one stays.
pub fn deserialize_hash_map<
    'a,
    K: Deserialize<'a> + Eq + Hash,
    V: Deserialize<'a>,
    D: Deserializer<'a>,
>(buf: &mut D) -> (r: Result<HashMap<K, V>>)
    requires
        obeys_key_model::<K>(),
    ensures
        match sequence_parse::<(K, V)>(old(buf).input()) {
            Ok((wire, used)) => {
                &&& r matches Ok(map)
                &&& exists|pairs: Seq<(K, V)>|
                    sequence_encoding(pairs) == wire && map@ == map_of(pairs)
                &&& 0 <= used <= old(buf).input().len()
                &&& final(buf).input() == old(buf).input().skip(used)
            },
            Err(failure) => r matches Err(e) && e@ == failure,
        },
{
    assert(Vec::<(K, V)>::parse(buf.input()) == sequence_parse::<(K, V)>(buf.input()));
    let items = Vec::<(K, V)>::deserialize_from(buf)?;
    let ghost all = items@;
    assert(items.encoding() == sequence_encoding(all));
    let mut map: HashMap<K, V> = HashMap::new();
    assert(all.take(0) =~= Seq::<(K, V)>::empty());
    for item in it: items
        invariant
            obeys_key_model::<K>(),
            it.seq() == all,
            map@ == map_of(all.take(it.index() as int)),
    {
        proof {
            let after = all.take(it.index() + 1);
            assert(after.drop_last() =~= all.take(it.index() as int));
            assert(after.last() == item);
        }
        map.insert(item.0, item.1);
    }
    assert(all.take(all.len() as int) =~= all);
    Ok(map)
}

} // verus!
