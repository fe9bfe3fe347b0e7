//! Sequences: the number of the items, then the items in their order.

use crate::deserializer::{Deserializer, Input};
use crate::error::{Failure, Result};
use crate::laws::{Owning, Plain, RoundTrip};
use crate::primitive::preceded;
use crate::serializer::Serializer;
use crate::varint64::{
    lemma_varint_encoding_len, lemma_varint_round_trip, lemma_varint_scan_bounds, varint_encoding,
    varint_parse, VarInt64, MAX_GROUPS,
};
use crate::{Deserialize, Parsed, Serialize};
use std::collections::VecDeque;
use vstd::prelude::*;

verus! {

/// The wire forms of `items`, one after the other.
pub open spec fn items_encoding<T: Serialize>(items: Seq<T>) -> Seq<u8>
    decreases items.len(),
{
    if items.len() == 0 {
        Seq::empty()
    } else {
        items[0].encoding() + items_encoding(items.drop_first())
    }
}

/// The wire form of a sequence: the number of its items, then the items in
/// their order.
pub open spec fn sequence_encoding<T: Serialize>(items: Seq<T>) -> Seq<u8> {
    varint_encoding(items.len() as u64) + items_encoding(items)
}

/// What reading `n` items, one after the other, comes to.
pub open spec fn items_parse<'a, T: Deserialize<'a>>(input: Input, n: nat) -> Parsed
    decreases n,
{
    if n == 0 {
        Ok((Seq::empty(), 0))
    } else {
        match T::parse(input) {
            Ok((wire, used)) => preceded(
                wire,
                used,
                items_parse::<T>(input.skip(used), (n - 1) as nat),
            ),
            Err(failure) => Err(failure),
        }
    }
}

/// What reading a sequence comes to: the number of its items is read, and
/// then that many items.
pub open spec fn sequence_parse<'a, T: Deserialize<'a>>(input: Input) -> Parsed {
    match varint_parse(input.bytes) {
        Ok((v, k)) => preceded(
            varint_encoding((v as usize) as u64),
            k,
            items_parse::<T>(input.skip(k), (v as usize) as nat),
        ),
        Err(failure) => Err(failure),
    }
}

/// The wire forms of the first `k` items and of the others make up the whole.
pub proof fn lemma_items_split<T: Serialize>(items: Seq<T>, k: int)
    requires
        0 <= k <= items.len(),
    ensures
        items_encoding(items) == items_encoding(items.take(k)) + items_encoding(items.skip(k)),
    decreases k,
{
    if k == 0 {
        assert(items.skip(0) =~= items);
        assert(items_encoding(items.take(0)) =~= Seq::<u8>::empty());
        assert(items_encoding(items) =~= items_encoding(items.take(k)) + items_encoding(
            items.skip(k),
        ));
    } else {
        let rest = items.drop_first();
        lemma_items_split(rest, k - 1);
        assert(items.take(k).drop_first() =~= rest.take(k - 1));
        assert(items.skip(k) =~= rest.skip(k - 1));
        assert(items.take(k)[0] == items[0]);
        assert(items_encoding(items) =~= items_encoding(items.take(k)) + items_encoding(
            items.skip(k),
        ));
    }
}

/// One more item at the end adds its wire form at the end.
pub proof fn lemma_items_push<T: Serialize>(items: Seq<T>, last: T)
    ensures
        items_encoding(items.push(last)) == items_encoding(items) + last.encoding(),
{
    let longer = items.push(last);
    lemma_items_split(longer, items.len() as int);
    assert(longer.take(items.len() as int) =~= items);
    let tail = longer.skip(items.len() as int);
    assert(tail.len() == 1 && tail[0] == last);
    assert(items_encoding(tail.drop_first()) =~= Seq::<u8>::empty());
    assert(items_encoding(tail) =~= last.encoding());
}

/// Writes `items` so that they come to stand in their order: the last one is
/// written first.
pub fn prepend_items<T: Serialize, S: Serializer>(items: &[T], serializer: &mut S) -> (r: Result<
    (),
>)
    requires
        old(serializer).sink().count + items_encoding(items@).len() <= usize::MAX,
    ensures
        r is Ok ==> final(serializer).sink() == old(serializer).sink().prepend(
            items_encoding(items@),
        ),
        old(serializer).sink().dependable ==> r is Ok,
{
    let ghost start = serializer.sink();
    let mut i: usize = items.len();
    proof {
        start.lemma_prepend_nothing();
        assert(items@.skip(items@.len() as int) =~= Seq::<T>::empty());
    }
    while i > 0
        invariant
            i <= items@.len(),
            start == old(serializer).sink(),
            start.count + items_encoding(items@).len() <= usize::MAX,
            serializer.sink() == start.prepend(items_encoding(items@.skip(i as int))),
        decreases i,
    {
        proof {
            lemma_items_split(items@, i - 1);
            assert(items@.skip(i - 1).drop_first() =~= items@.skip(i as int));
            start.lemma_prepend_twice(
                items_encoding(items@.skip(i as int)),
                items@[i - 1].encoding(),
            );
        }
        i -= 1;
        items[i].serialize_to(serializer)?;
    }
    assert(items@.skip(0) =~= items@);
    Ok(())
}

impl<T: Serialize> Serialize for Vec<T> {
    /// The number of the items, then the items in their order.
    open spec fn encoding(&self) -> Seq<u8> {
        sequence_encoding(self@)
    }

    fn serialize_to<S: Serializer>(&self, serializer: &mut S) -> (r: Result<()>) {
        let ghost start = serializer.sink();
        assert(self.encoding() == sequence_encoding(self@));
        prepend_items(self.as_slice(), serializer)?;
        let count = VarInt64(self.len() as u64);
        proof {
            assert(count.encoding() == varint_encoding(self@.len() as u64));
            start.lemma_prepend_twice(items_encoding(self@), count.encoding());
        }
        count.serialize_to(serializer)
    }
}

impl<'a, T: Deserialize<'a>> Deserialize<'a> for Vec<T> {
    open spec fn parse(input: Input) -> Parsed {
        sequence_parse::<T>(input)
    }

    fn deserialize_from<D: Deserializer<'a>>(buf: &mut D) -> (r: Result<Self>) {
        let ghost input = buf.input();
        assert(Self::parse(input) == sequence_parse::<T>(input));
        proof {
            buf.lemma_input_wf();
            lemma_varint_scan_bounds(input.bytes, 0, MAX_GROUPS as nat);
        }
        let count = VarInt64::deserialize_from(buf)?;
        let len = #[verifier::truncate] (count.0 as usize);
        let ghost k = varint_parse(input.bytes)->Ok_0.1;
        let ghost first = buf.input();
        let mut out: Vec<T> = Vec::new();
        let mut i: usize = 0;
        let ghost mut used: int = 0;
        proof {
            first.lemma_skip_skip(0, 0);
            assert(items_encoding(out@) =~= Seq::<u8>::empty());
            assert(Seq::<u8>::empty() + items_parse::<T>(first, len as nat)->Ok_0.0
                =~= items_parse::<T>(first, len as nat)->Ok_0.0);
        }
        while i < len
            invariant
                i <= len,
                out@.len() == i,
                first.wf(),
                0 <= used <= first.len(),
                buf.input() == first.skip(used),
                input == old(buf).input(),
                Self::parse(input) == sequence_parse::<T>(input),
                sequence_parse::<T>(input) == preceded(
                    varint_encoding(len as u64),
                    k,
                    items_parse::<T>(first, len as nat),
                ),
                items_parse::<T>(first, len as nat) == preceded(
                    items_encoding(out@),
                    used,
                    items_parse::<T>(buf.input(), (len - i) as nat),
                ),
            decreases len - i,
        {
            let ghost here = buf.input();
            let item = T::deserialize_from(buf)?;
            proof {
                let (wire, step) = T::parse(here)->Ok_0;
                first.lemma_skip_skip(used, step);
                lemma_items_push(out@, item);
                let rest = items_parse::<T>(here.skip(step), (len - i - 1) as nat);
                if let Ok((more, further)) = rest {
                    assert((items_encoding(out@) + wire) + more =~= items_encoding(out@) + (wire
                        + more));
                }
                used = used + step;
            }
            out.push(item);
            i += 1;
        }
        proof {
            assert(items_encoding(out@) + Seq::<u8>::empty() =~= items_encoding(out@));
            input.lemma_skip_skip(k, used);
            assert(out.encoding() == sequence_encoding(out@));
        }
        Ok(out)
    }
}

impl<T: Serialize> Serialize for VecDeque<T> {
    /// The number of the items, then the items from the front to the back.
    open spec fn encoding(&self) -> Seq<u8> {
        sequence_encoding(self@)
    }

    fn serialize_to<S: Serializer>(&self, serializer: &mut S) -> (r: Result<()>) {
        let ghost start = serializer.sink();
        assert(self.encoding() == sequence_encoding(self@));
        let mut i: usize = self.len();
        proof {
            start.lemma_prepend_nothing();
            assert(self@.skip(self@.len() as int) =~= Seq::<T>::empty());
        }
        while i > 0
            invariant
                i <= self@.len(),
                start == old(serializer).sink(),
                start.count + sequence_encoding(self@).len() <= usize::MAX,
                serializer.sink() == start.prepend(items_encoding(self@.skip(i as int))),
            decreases i,
        {
            proof {
                lemma_items_split(self@, i - 1);
                assert(self@.skip(i - 1).drop_first() =~= self@.skip(i as int));
                start.lemma_prepend_twice(
                    items_encoding(self@.skip(i as int)),
                    self@[i - 1].encoding(),
                );
            }
            i -= 1;
            self[i].serialize_to(serializer)?;
        }
        let count = VarInt64(self.len() as u64);
        proof {
            assert(self@.skip(0) =~= self@);
            assert(count.encoding() == varint_encoding(self@.len() as u64));
            start.lemma_prepend_twice(items_encoding(self@), count.encoding());
        }
        count.serialize_to(serializer)
    }
}

impl<'a, T: Deserialize<'a>> Deserialize<'a> for VecDeque<T> {
    open spec fn parse(input: Input) -> Parsed {
        sequence_parse::<T>(input)
    }

    fn deserialize_from<D: Deserializer<'a>>(buf: &mut D) -> (r: Result<Self>) {
        assert(Self::parse(buf.input()) == sequence_parse::<T>(buf.input()));
        assert(Vec::<T>::parse(buf.input()) == sequence_parse::<T>(buf.input()));
        let items = Vec::<T>::deserialize_from(buf)?;
        let ghost all = items@;
        assert(items.encoding() == sequence_encoding(all));
        let mut out: VecDeque<T> = VecDeque::new();
        for item in it: items
            invariant
                it.seq() == all,
                out@ == all.take(it.index() as int),
        {
            out.push_back(item);
            assert(all.take(it.index() + 1) =~= all.take(it.index() as int).push(item));
        }
        assert(all.take(all.len() as int) =~= all);
        assert(out.encoding() == sequence_encoding(out@));
        Ok(out)
    }
}

/// Items are read back from their wire forms, whatever follows them.
pub proof fn lemma_items_round_trip<'a, T: RoundTrip<'a>>(items: Seq<T>, rest: Seq<u8>)
    requires
        items_encoding(items).len() + rest.len() <= usize::MAX,
    ensures
        items_parse::<T>(Input::whole(items_encoding(items) + rest), items.len()) == Ok::<
            (Seq<u8>, int),
            Failure,
        >((items_encoding(items), items_encoding(items).len() as int)),
    decreases items.len(),
{
    if items.len() != 0 {
        let first = items[0].encoding();
        let others = items_encoding(items.drop_first());
        let all = items_encoding(items) + rest;
        assert(all =~= first + (others + rest));
        items[0].lemma_round_trip(others + rest);
        Input::lemma_whole_parts(all, first.len() as int);
        assert(all.skip(first.len() as int) =~= others + rest);
        lemma_items_round_trip::<T>(items.drop_first(), rest);
    }
}

/// Items are read alike from inputs with the same bytes.
pub proof fn lemma_items_pieces_ignored<'a, T: Owning<'a>>(a: Input, b: Input, n: nat)
    requires
        a.bytes == b.bytes,
    ensures
        items_parse::<T>(a, n) == items_parse::<T>(b, n),
    decreases n,
{
    if n != 0 {
        T::lemma_pieces_ignored(a, b);
        if let Ok((_, used)) = T::parse(a) {
            lemma_items_pieces_ignored::<T>(a.skip(used), b.skip(used), (n - 1) as nat);
        }
    }
}

impl<'a, T: RoundTrip<'a>> RoundTrip<'a> for Vec<T> {
    proof fn lemma_round_trip(&self, rest: Seq<u8>) {
        let count = varint_encoding(self@.len() as u64);
        let items = items_encoding(self@);
        let all = self.encoding() + rest;
        assert(self.encoding() == sequence_encoding(self@));
        assert(all =~= count + (items + rest));
        assert(self.len() == self@.len());
        lemma_varint_round_trip(self@.len() as u64, items + rest);
        lemma_varint_encoding_len(self@.len() as u64);
        Input::lemma_whole_parts(all, count.len() as int);
        assert(all.skip(count.len() as int) =~= items + rest);
        lemma_items_round_trip::<T>(self@, rest);
    }
}

impl<'a, T: Owning<'a>> Owning<'a> for Vec<T> {
    proof fn lemma_pieces_ignored(a: Input, b: Input) {
        if let Ok((v, k)) = varint_parse(a.bytes) {
            lemma_items_pieces_ignored::<T>(a.skip(k), b.skip(k), (v as usize) as nat);
        }
    }
}

impl<'a, T: RoundTrip<'a>> RoundTrip<'a> for VecDeque<T> {
    proof fn lemma_round_trip(&self, rest: Seq<u8>) {
        let count = varint_encoding(self@.len() as u64);
        let items = items_encoding(self@);
        let all = self.encoding() + rest;
        assert(self.encoding() == sequence_encoding(self@));
        assert(all =~= count + (items + rest));
        assert(self.len() == self@.len());
        lemma_varint_round_trip(self@.len() as u64, items + rest);
        lemma_varint_encoding_len(self@.len() as u64);
        Input::lemma_whole_parts(all, count.len() as int);
        assert(all.skip(count.len() as int) =~= items + rest);
        lemma_items_round_trip::<T>(self@, rest);
    }
}

impl<'a, T: Owning<'a>> Owning<'a> for VecDeque<T> {
    proof fn lemma_pieces_ignored(a: Input, b: Input) {
        if let Ok((v, k)) = varint_parse(a.bytes) {
            lemma_items_pieces_ignored::<T>(a.skip(k), b.skip(k), (v as usize) as nat);
        }
    }
}

/// Items of a plain type with the same wire forms are the same items.
pub proof fn lemma_items_same_wire<'a, T: Plain<'a>>(a: Seq<T>, b: Seq<T>)
    requires
        a.len() == b.len(),
        items_encoding(a) == items_encoding(b),
        items_encoding(a).len() <= usize::MAX,
    ensures
        a == b,
    decreases a.len(),
{
    if a.len() != 0 {
        let after_a = items_encoding(a.drop_first());
        let after_b = items_encoding(b.drop_first());
        a[0].lemma_round_trip(after_a);
        b[0].lemma_round_trip(after_b);
        a[0].lemma_same_wire(&b[0]);
        assert((a[0].encoding() + after_a).skip(a[0].encoding().len() as int) =~= after_a);
        assert((b[0].encoding() + after_b).skip(b[0].encoding().len() as int) =~= after_b);
        lemma_items_same_wire::<T>(a.drop_first(), b.drop_first());
        assert(a =~= seq![a[0]] + a.drop_first());
        assert(b =~= seq![b[0]] + b.drop_first());
    } else {
        assert(a =~= b);
    }
}

/// Unordered-container membership: in whatever order the members of a set
/// of plain values are written, the items that are read back are those that
/// were written, so that they make up the same set.
pub proof fn lemma_unordered_membership<'a, T: Plain<'a>>(
    order: Seq<T>,
    rest: Seq<u8>,
    decoded: Seq<T>,
)
    requires
        order.len() <= usize::MAX,
        decoded.len() <= usize::MAX,
        sequence_encoding(order).len() + rest.len() <= usize::MAX,
        sequence_parse::<T>(Input::whole(sequence_encoding(order) + rest)) matches Ok((wire, _))
            ==> sequence_encoding(decoded) == wire,
    ensures
        sequence_parse::<T>(Input::whole(sequence_encoding(order) + rest)) is Ok,
        decoded == order,
        decoded.to_set() == order.to_set(),
{
    let count = varint_encoding(order.len() as u64);
    let items = items_encoding(order);
    let all = sequence_encoding(order) + rest;
    assert(all =~= count + (items + rest));
    lemma_varint_round_trip(order.len() as u64, items + rest);
    lemma_varint_encoding_len(order.len() as u64);
    Input::lemma_whole_parts(all, count.len() as int);
    assert(all.skip(count.len() as int) =~= items + rest);
    lemma_items_round_trip::<T>(order, rest);
    lemma_varint_round_trip(order.len() as u64, items);
    lemma_varint_round_trip(decoded.len() as u64, items_encoding(decoded));
    assert(sequence_encoding(decoded) =~= count + items);
    assert((varint_encoding(decoded.len() as u64) + items_encoding(decoded)).skip(
        varint_encoding(decoded.len() as u64).len() as int,
    ) =~= items_encoding(decoded));
    assert((count + items).skip(count.len() as int) =~= items);
    lemma_items_same_wire::<T>(decoded, order);
}

} // verus!
