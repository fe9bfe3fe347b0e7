//! Integers in groups of seven bits, the highest group first.

use crate::deserializer::{span_bytes, Deserializer, Input};
use crate::error::{Error, Failure, Result};
use crate::laws::{Owning, Plain, RoundTrip};
use crate::serializer::{prepend_byte, Serializer};
use crate::{Deserialize, Parsed, Serialize};
use vstd::prelude::*;

verus! {

/// An unsigned 64-bit integer that is written in groups of seven bits.
#[derive(Debug, Default, PartialEq, Eq)]
pub struct VarInt64(pub u64);

/// The most groups a variable-length integer may have.
pub const MAX_GROUPS: usize = 10;

/// The groups of `rest` as they stand before the last byte: the highest group
/// first, each with its top bit set.
pub open spec fn varint_front(rest: nat) -> Seq<u8>
    decreases rest,
{
    if rest == 0 {
        Seq::empty()
    } else {
        varint_front(rest / 128).push((128 + rest % 128) as u8)
    }
}

/// The wire form of `v`: its seven-bit groups, the highest first, with the top
/// bit set on every byte but the last.
pub open spec fn varint_encoding(v: u64) -> Seq<u8> {
    varint_front(v as nat / 128).push((v % 128) as u8)
}

/// The value read so far with one more group taken in at its low end; bits
/// pushed out at the top are lost.
pub open spec fn take_group(acc: u64, byte: u8) -> u64 {
    ((acc as nat * 128 + (byte % 128) as nat) % 0x1_0000_0000_0000_0000) as u64
}

/// Reads groups from the front of `bytes` into `acc` until one comes without
/// its top bit set, for at most `budget` groups. Gives the value and the
/// number of bytes read.
pub open spec fn varint_scan(bytes: Seq<u8>, acc: u64, budget: nat) -> std::result::Result<
    (u64, int),
    Failure,
>
    decreases budget,
{
    if budget == 0 {
        Err(Failure::VarintIsShort)
    } else if bytes.len() == 0 {
        Err(Failure::DataIsShort { expect: 1, actual: 0 })
    } else {
        let next = take_group(acc, bytes[0]);
        if bytes[0] < 128 {
            Ok((next, 1))
        } else {
            match varint_scan(bytes.skip(1), next, (budget - 1) as nat) {
                Ok((v, n)) => Ok((v, n + 1)),
                Err(failure) => Err(failure),
            }
        }
    }
}

/// What reading a variable-length integer from the front of `bytes` comes to.
pub open spec fn varint_parse(bytes: Seq<u8>) -> std::result::Result<(u64, int), Failure> {
    varint_scan(bytes, 0, MAX_GROUPS as nat)
}

/// A scan reads at least one byte and no more than there are, or than its budget.
pub proof fn lemma_varint_scan_bounds(bytes: Seq<u8>, acc: u64, budget: nat)
    ensures
        varint_scan(bytes, acc, budget) matches Ok((_, n)) ==> 1 <= n <= bytes.len() && n
            <= budget,
    decreases budget,
{
    if budget != 0 && bytes.len() != 0 && bytes[0] >= 128 {
        lemma_varint_scan_bounds(bytes.skip(1), take_group(acc, bytes[0]), (budget - 1) as nat);
    }
}

/// The front groups of a number below 2^57 are at most nine.
pub proof fn lemma_varint_front_len(rest: nat)
    requires
        rest < 0x200_0000_0000_0000,
    ensures
        varint_front(rest).len() <= 9,
        rest < 128 ==> varint_front(rest).len() <= 1,
{
    reveal_with_fuel(varint_front, 11);
}

/// An encoding takes between one and ten bytes.
pub proof fn lemma_varint_encoding_len(v: u64)
    ensures
        1 <= varint_encoding(v).len() <= MAX_GROUPS,
        v < 128 ==> varint_encoding(v).len() == 1,
{
    lemma_varint_front_len(v as nat / 128);
}

/// Scanning the front groups of `rest` leaves `rest` as the value read so far.
proof fn lemma_varint_scan_front(rest: nat, tail: Seq<u8>, budget: nat)
    requires
        rest < 0x200_0000_0000_0000,
        varint_front(rest).len() <= budget,
    ensures
        varint_scan(varint_front(rest) + tail, 0, budget) == (match varint_scan(
            tail,
            rest as u64,
            (budget - varint_front(rest).len()) as nat,
        ) {
            Ok((v, n)) => Ok((v, n + varint_front(rest).len())),
            Err(failure) => Err(failure),
        }),
    decreases rest,
{
    let front = varint_front(rest);
    if rest == 0 {
        assert(front + tail =~= tail);
    } else {
        let higher = varint_front(rest / 128);
        let group = (128 + rest % 128) as u8;
        let tail1 = seq![group] + tail;
        assert(front + tail =~= higher + tail1);
        lemma_varint_scan_front(rest / 128, tail1, budget);
        let left = (budget - higher.len()) as nat;
        assert(left >= 1);
        assert(tail1[0] == group);
        assert(tail1.skip(1) =~= tail);
        assert(take_group((rest / 128) as u64, group) == rest as u64);
    }
}

/// Decoding undoes encoding, whatever follows the encoding.
pub proof fn lemma_varint_round_trip(v: u64, rest: Seq<u8>)
    ensures
        varint_parse(varint_encoding(v) + rest) == Ok::<(u64, int), Failure>(
            (v, varint_encoding(v).len() as int),
        ),
{
    let front = varint_front(v as nat / 128);
    let last = (v % 128) as u8;
    let tail = seq![last] + rest;
    lemma_varint_front_len(v as nat / 128);
    assert(varint_encoding(v) + rest =~= front + tail);
    lemma_varint_scan_front(v as nat / 128, tail, MAX_GROUPS as nat);
    assert(tail[0] == last);
    assert(take_group((v / 128) as u64, last) == v);
}

impl Serialize for VarInt64 {
    open spec fn encoding(&self) -> Seq<u8> {
        varint_encoding(self.0)
    }

    fn serialize_to<S: Serializer>(&self, serializer: &mut S) -> (r: Result<()>) {
        let ghost start = serializer.sink();
        let ghost wire = varint_encoding(self.0);
        assert(self.encoding() == wire);
        let whole = self.0;
        let mut v = whole;
        let last: u8 = #[verifier::truncate] ((v & 0x7f) as u8);
        assert(last == whole % 128) by (bit_vector)
            requires
                last == (whole & 0x7f) as u8,
        ;
        proof {
            start.lemma_prepend_nothing();
            lemma_varint_encoding_len(self.0);
        }
        prepend_byte(serializer, last)?;
        v = v >> 7;
        assert(v == whole / 128) by (bit_vector)
            requires
                v == whole >> 7,
        ;
        let ghost mut written: Seq<u8> = seq![last];
        while v != 0
            invariant
                start == old(serializer).sink(),
                self.encoding() == wire,
                serializer.sink() == start.prepend(written),
                wire == varint_front(v as nat) + written,
                start.count + wire.len() <= usize::MAX,
            decreases v,
        {
            let ghost before = v;
            let group: u8 = #[verifier::truncate] ((v & 0x7f) as u8) | 0x80;
            assert(group == 128 + before % 128) by (bit_vector)
                requires
                    group == ((before & 0x7f) as u8) | 0x80,
            ;
            assert(varint_front(v as nat).len() >= 1);
            prepend_byte(serializer, group)?;
            v = v >> 7;
            assert(v == before / 128 && v < before) by (bit_vector)
                requires
                    v == before >> 7,
                    before != 0,
            ;
            proof {
                start.lemma_prepend_twice(written, seq![group]);
                assert(varint_front(before as nat) + written =~= varint_front(v as nat) + (
                seq![group] + written));
                written = seq![group] + written;
            }
        }
        assert(varint_front(0) + written =~= written);
        Ok(())
    }
}

impl<'a> Deserialize<'a> for VarInt64 {
    open spec fn parse(input: Input) -> Parsed {
        match varint_parse(input.bytes) {
            Ok((v, n)) => Ok((varint_encoding(v), n)),
            Err(failure) => Err(failure),
        }
    }

    fn deserialize_from<D: Deserializer<'a>>(buf: &mut D) -> (r: Result<Self>)
        ensures
            r matches Ok(value) ==> varint_parse(old(buf).input().bytes) matches Ok((v, _))
                && value.0 == v,
    {
        let ghost start = buf.input();
        assert(Self::parse(start) == (match varint_parse(start.bytes) {
            Ok((v, n)) => Ok((varint_encoding(v), n)),
            Err(failure) => Err::<(Seq<u8>, int), Failure>(failure),
        }));
        let mut v: u64 = 0;
        let mut i: usize = 0;
        proof {
            buf.lemma_input_wf();
            start.lemma_skip_skip(0, 0);
            lemma_varint_scan_bounds(start.bytes, 0, MAX_GROUPS as nat);
        }
        while i < MAX_GROUPS
            invariant
                i <= MAX_GROUPS,
                start == old(buf).input(),
                Self::parse(start) == (match varint_parse(start.bytes) {
                    Ok((v, n)) => Ok((varint_encoding(v), n)),
                    Err(failure) => Err::<(Seq<u8>, int), Failure>(failure),
                }),
                start.wf(),
                i <= start.len(),
                buf.input() == start.skip(i as int),
                varint_parse(start.bytes) == (match varint_scan(
                    buf.input().bytes,
                    v,
                    (MAX_GROUPS - i) as nat,
                ) {
                    Ok((value, n)) => Ok((value, n + i)),
                    Err(failure) => Err::<(u64, int), Failure>(failure),
                }),
            decreases MAX_GROUPS - i,
        {
            let ghost here = buf.input();
            let front = match buf.pop(1) {
                Ok(front) => front,
                Err(e) => {
                    return Err(e);
                },
            };
            let c: u8 = span_bytes(&front)[0];
            assert(c == here.bytes[0]);
            let ghost acc = v;
            v = (v << 7) | ((c & 0x7f) as u64);
            assert(v == take_group(acc, c)) by (bit_vector)
                requires
                    v == (acc << 7) | ((c & 0x7f) as u64),
            ;
            proof {
                start.lemma_skip_skip(i as int, 1);
                assert(here.bytes.skip(1) == buf.input().bytes);
            }
            if c & 0x80 == 0 {
                assert(c < 128) by (bit_vector)
                    requires
                        c & 0x80 == 0,
                ;
                let value = VarInt64(v);
                assert(value.encoding() == varint_encoding(v));
                return Ok(value);
            }
            assert(c >= 128) by (bit_vector)
                requires
                    c & 0x80 != 0,
            ;
            i += 1;
        }
        Err(Error::VarintIsShort)
    }
}

impl<'a> RoundTrip<'a> for VarInt64 {
    proof fn lemma_round_trip(&self, rest: Seq<u8>) {
        assert(self.encoding() == varint_encoding(self.0));
        lemma_varint_round_trip(self.0, rest);
    }
}

impl<'a> Plain<'a> for VarInt64 {
    proof fn lemma_same_wire(&self, other: &Self) {
        assert(self.encoding() == varint_encoding(self.0));
        assert(other.encoding() == varint_encoding(other.0));
        lemma_varint_round_trip(self.0, Seq::empty());
        lemma_varint_round_trip(other.0, Seq::empty());
    }
}

impl<'a> Owning<'a> for VarInt64 {
    proof fn lemma_pieces_ignored(a: Input, b: Input) {
    }
}

} // verus!
