//! The integers of fixed width, unsigned and in two's complement.

use crate::deserializer::{Deserializer, Input};
use crate::error::{Failure, Result};
use crate::fixed::{
    le_bytes, le_value, lemma_le_bytes_len, lemma_le_bytes_of_value, lemma_limits, lemma_twos,
    lemma_le_value_of_bytes, lemma_untwos, pop_le, prepend_le, twos, untwos,
};
use crate::laws::{Owning, Plain, RoundTrip};
use crate::serializer::Serializer;
use crate::{Deserialize, Parsed, Serialize};
use vstd::prelude::*;

verus! {

/// What reading a value of `width` bytes comes to: the bytes as they stand,
/// where there are that many.
pub open spec fn fixed_parse(input: Input, width: nat) -> Parsed {
    if input.len() >= width {
        Ok((input.bytes.take(width as int), width as int))
    } else {
        Err(Failure::DataIsShort { expect: width as usize, actual: input.len() as usize })
    }
}

impl Serialize for u8 {
    /// The 1 byte of the number, the lowest first.
    open spec fn encoding(&self) -> Seq<u8> {
        le_bytes(*self as nat, 1)
    }

    fn serialize_to<S: Serializer>(&self, serializer: &mut S) -> (r: Result<()>) {
        proof {
            lemma_limits();
            lemma_le_bytes_len(*self as nat, 1);
        }
        assert(self.encoding() == le_bytes(*self as nat, 1));
        prepend_le(serializer, *self as u128, 1)
    }
}

impl<'a> Deserialize<'a> for u8 {
    open spec fn parse(input: Input) -> Parsed {
        fixed_parse(input, 1)
    }

    fn deserialize_from<D: Deserializer<'a>>(buf: &mut D) -> (r: Result<Self>)
        ensures
            r matches Ok(value) ==> value == le_value(old(buf).input().bytes.take(1)),
    {
        let ghost input = buf.input();
        assert(Self::parse(input) == fixed_parse(input, 1));
        let raw = pop_le(buf, 1)?;
        proof {
            lemma_limits();
            lemma_le_bytes_of_value(input.bytes.take(1));
        }
        let value = raw as u8;
        assert(value.encoding() == le_bytes(value as nat, 1));
        Ok(value)
    }
}

impl<'a> RoundTrip<'a> for u8 {
    proof fn lemma_round_trip(&self, rest: Seq<u8>) {
        let wire = self.encoding();
        assert(wire == le_bytes(*self as nat, 1));
        lemma_le_bytes_len(*self as nat, 1);
        let input = Input::whole(wire + rest);
        assert(Self::parse(input) == fixed_parse(input, 1));
        assert(input.bytes.take(1) =~= wire);
    }
}

impl<'a> Plain<'a> for u8 {
    proof fn lemma_same_wire(&self, other: &Self) {
        lemma_limits();
        assert(self.encoding() == le_bytes(*self as nat, 1));
        assert(other.encoding() == le_bytes(*other as nat, 1));
        lemma_le_value_of_bytes(*self as nat, 1);
        lemma_le_value_of_bytes(*other as nat, 1);
    }
}

impl<'a> Owning<'a> for u8 {
    proof fn lemma_pieces_ignored(a: Input, b: Input) {
        assert(Self::parse(a) == fixed_parse(a, 1));
        assert(Self::parse(b) == fixed_parse(b, 1));
    }
}

impl Serialize for u16 {
    /// The 2 bytes of the number, the lowest first.
    open spec fn encoding(&self) -> Seq<u8> {
        le_bytes(*self as nat, 2)
    }

    fn serialize_to<S: Serializer>(&self, serializer: &mut S) -> (r: Result<()>) {
        proof {
            lemma_limits();
            lemma_le_bytes_len(*self as nat, 2);
        }
        assert(self.encoding() == le_bytes(*self as nat, 2));
        prepend_le(serializer, *self as u128, 2)
    }
}

impl<'a> Deserialize<'a> for u16 {
    open spec fn parse(input: Input) -> Parsed {
        fixed_parse(input, 2)
    }

    fn deserialize_from<D: Deserializer<'a>>(buf: &mut D) -> (r: Result<Self>)
        ensures
            r matches Ok(value) ==> value == le_value(old(buf).input().bytes.take(2)),
    {
        let ghost input = buf.input();
        assert(Self::parse(input) == fixed_parse(input, 2));
        let raw = pop_le(buf, 2)?;
        proof {
            lemma_limits();
            lemma_le_bytes_of_value(input.bytes.take(2));
        }
        let value = raw as u16;
        assert(value.encoding() == le_bytes(value as nat, 2));
        Ok(value)
    }
}

impl<'a> RoundTrip<'a> for u16 {
    proof fn lemma_round_trip(&self, rest: Seq<u8>) {
        let wire = self.encoding();
        assert(wire == le_bytes(*self as nat, 2));
        lemma_le_bytes_len(*self as nat, 2);
        let input = Input::whole(wire + rest);
        assert(Self::parse(input) == fixed_parse(input, 2));
        assert(input.bytes.take(2) =~= wire);
    }
}

impl<'a> Plain<'a> for u16 {
    proof fn lemma_same_wire(&self, other: &Self) {
        lemma_limits();
        assert(self.encoding() == le_bytes(*self as nat, 2));
        assert(other.encoding() == le_bytes(*other as nat, 2));
        lemma_le_value_of_bytes(*self as nat, 2);
        lemma_le_value_of_bytes(*other as nat, 2);
    }
}

impl<'a> Owning<'a> for u16 {
    proof fn lemma_pieces_ignored(a: Input, b: Input) {
        assert(Self::parse(a) == fixed_parse(a, 2));
        assert(Self::parse(b) == fixed_parse(b, 2));
    }
}

impl Serialize for u32 {
    /// The 4 bytes of the number, the lowest first.
    open spec fn encoding(&self) -> Seq<u8> {
        le_bytes(*self as nat, 4)
    }

    fn serialize_to<S: Serializer>(&self, serializer: &mut S) -> (r: Result<()>) {
        proof {
            lemma_limits();
            lemma_le_bytes_len(*self as nat, 4);
        }
        assert(self.encoding() == le_bytes(*self as nat, 4));
        prepend_le(serializer, *self as u128, 4)
    }
}

impl<'a> Deserialize<'a> for u32 {
    open spec fn parse(input: Input) -> Parsed {
        fixed_parse(input, 4)
    }

    fn deserialize_from<D: Deserializer<'a>>(buf: &mut D) -> (r: Result<Self>)
        ensures
            r matches Ok(value) ==> value == le_value(old(buf).input().bytes.take(4)),
    {
        let ghost input = buf.input();
        assert(Self::parse(input) == fixed_parse(input, 4));
        let raw = pop_le(buf, 4)?;
        proof {
            lemma_limits();
            lemma_le_bytes_of_value(input.bytes.take(4));
        }
        let value = raw as u32;
        assert(value.encoding() == le_bytes(value as nat, 4));
        Ok(value)
    }
}

impl<'a> RoundTrip<'a> for u32 {
    proof fn lemma_round_trip(&self, rest: Seq<u8>) {
        let wire = self.encoding();
        assert(wire == le_bytes(*self as nat, 4));
        lemma_le_bytes_len(*self as nat, 4);
        let input = Input::whole(wire + rest);
        assert(Self::parse(input) == fixed_parse(input, 4));
        assert(input.bytes.take(4) =~= wire);
    }
}

impl<'a> Plain<'a> for u32 {
    proof fn lemma_same_wire(&self, other: &Self) {
        lemma_limits();
        assert(self.encoding() == le_bytes(*self as nat, 4));
        assert(other.encoding() == le_bytes(*other as nat, 4));
        lemma_le_value_of_bytes(*self as nat, 4);
        lemma_le_value_of_bytes(*other as nat, 4);
    }
}

impl<'a> Owning<'a> for u32 {
    proof fn lemma_pieces_ignored(a: Input, b: Input) {
        assert(Self::parse(a) == fixed_parse(a, 4));
        assert(Self::parse(b) == fixed_parse(b, 4));
    }
}

impl Serialize for u64 {
    /// The 8 bytes of the number, the lowest first.
    open spec fn encoding(&self) -> Seq<u8> {
        le_bytes(*self as nat, 8)
    }

    fn serialize_to<S: Serializer>(&self, serializer: &mut S) -> (r: Result<()>) {
        proof {
            lemma_limits();
            lemma_le_bytes_len(*self as nat, 8);
        }
        assert(self.encoding() == le_bytes(*self as nat, 8));
        prepend_le(serializer, *self as u128, 8)
    }
}

impl<'a> Deserialize<'a> for u64 {
    open spec fn parse(input: Input) -> Parsed {
        fixed_parse(input, 8)
    }

    fn deserialize_from<D: Deserializer<'a>>(buf: &mut D) -> (r: Result<Self>)
        ensures
            r matches Ok(value) ==> value == le_value(old(buf).input().bytes.take(8)),
    {
        let ghost input = buf.input();
        assert(Self::parse(input) == fixed_parse(input, 8));
        let raw = pop_le(buf, 8)?;
        proof {
            lemma_limits();
            lemma_le_bytes_of_value(input.bytes.take(8));
        }
        let value = raw as u64;
        assert(value.encoding() == le_bytes(value as nat, 8));
        Ok(value)
    }
}

impl<'a> RoundTrip<'a> for u64 {
    proof fn lemma_round_trip(&self, rest: Seq<u8>) {
        let wire = self.encoding();
        assert(wire == le_bytes(*self as nat, 8));
        lemma_le_bytes_len(*self as nat, 8);
        let input = Input::whole(wire + rest);
        assert(Self::parse(input) == fixed_parse(input, 8));
        assert(input.bytes.take(8) =~= wire);
    }
}

impl<'a> Plain<'a> for u64 {
    proof fn lemma_same_wire(&self, other: &Self) {
        lemma_limits();
        assert(self.encoding() == le_bytes(*self as nat, 8));
        assert(other.encoding() == le_bytes(*other as nat, 8));
        lemma_le_value_of_bytes(*self as nat, 8);
        lemma_le_value_of_bytes(*other as nat, 8);
    }
}

impl<'a> Owning<'a> for u64 {
    proof fn lemma_pieces_ignored(a: Input, b: Input) {
        assert(Self::parse(a) == fixed_parse(a, 8));
        assert(Self::parse(b) == fixed_parse(b, 8));
    }
}

impl Serialize for u128 {
    /// The 16 bytes of the number, the lowest first.
    open spec fn encoding(&self) -> Seq<u8> {
        le_bytes(*self as nat, 16)
    }

    fn serialize_to<S: Serializer>(&self, serializer: &mut S) -> (r: Result<()>) {
        proof {
            lemma_limits();
            lemma_le_bytes_len(*self as nat, 16);
        }
        assert(self.encoding() == le_bytes(*self as nat, 16));
        prepend_le(serializer, *self as u128, 16)
    }
}

impl<'a> Deserialize<'a> for u128 {
    open spec fn parse(input: Input) -> Parsed {
        fixed_parse(input, 16)
    }

    fn deserialize_from<D: Deserializer<'a>>(buf: &mut D) -> (r: Result<Self>)
        ensures
            r matches Ok(value) ==> value == le_value(old(buf).input().bytes.take(16)),
    {
        let ghost input = buf.input();
        assert(Self::parse(input) == fixed_parse(input, 16));
        let raw = pop_le(buf, 16)?;
        proof {
            lemma_limits();
            lemma_le_bytes_of_value(input.bytes.take(16));
        }
        let value = raw as u128;
        assert(value.encoding() == le_bytes(value as nat, 16));
        Ok(value)
    }
}

impl<'a> RoundTrip<'a> for u128 {
    proof fn lemma_round_trip(&self, rest: Seq<u8>) {
        let wire = self.encoding();
        assert(wire == le_bytes(*self as nat, 16));
        lemma_le_bytes_len(*self as nat, 16);
        let input = Input::whole(wire + rest);
        assert(Self::parse(input) == fixed_parse(input, 16));
        assert(input.bytes.take(16) =~= wire);
    }
}

impl<'a> Plain<'a> for u128 {
    proof fn lemma_same_wire(&self, other: &Self) {
        lemma_limits();
        assert(self.encoding() == le_bytes(*self as nat, 16));
        assert(other.encoding() == le_bytes(*other as nat, 16));
        lemma_le_value_of_bytes(*self as nat, 16);
        lemma_le_value_of_bytes(*other as nat, 16);
    }
}

impl<'a> Owning<'a> for u128 {
    proof fn lemma_pieces_ignored(a: Input, b: Input) {
        assert(Self::parse(a) == fixed_parse(a, 16));
        assert(Self::parse(b) == fixed_parse(b, 16));
    }
}

impl Serialize for i8 {
    /// The 1 byte of the number in two's complement, the lowest first.
    open spec fn encoding(&self) -> Seq<u8> {
        le_bytes(twos(*self as int, 1), 1)
    }

    fn serialize_to<S: Serializer>(&self, serializer: &mut S) -> (r: Result<()>) {
        proof {
            lemma_limits();
            lemma_twos(*self as int, 1);
            lemma_le_bytes_len(twos(*self as int, 1), 1);
        }
        assert(self.encoding() == le_bytes(twos(*self as int, 1), 1));
        let raw: u128 = if *self < 0 {
            ((*self - i8::MIN) as u8) as u128 + 0x80
        } else {
            *self as u128
        };
        prepend_le(serializer, raw, 1)
    }
}

impl<'a> Deserialize<'a> for i8 {
    open spec fn parse(input: Input) -> Parsed {
        fixed_parse(input, 1)
    }

    fn deserialize_from<D: Deserializer<'a>>(buf: &mut D) -> (r: Result<Self>)
        ensures
            r matches Ok(value) ==> value == untwos(
                le_value(old(buf).input().bytes.take(1)),
                1,
            ),
    {
        let ghost input = buf.input();
        assert(Self::parse(input) == fixed_parse(input, 1));
        let raw = pop_le(buf, 1)?;
        proof {
            lemma_limits();
            lemma_untwos(raw as nat, 1);
            lemma_le_bytes_of_value(input.bytes.take(1));
        }
        let value = if raw >= 0x80 {
            ((raw - 0x80) as i8) + i8::MIN
        } else {
            raw as i8
        };
        assert(value.encoding() == le_bytes(twos(value as int, 1), 1));
        Ok(value)
    }
}

impl<'a> RoundTrip<'a> for i8 {
    proof fn lemma_round_trip(&self, rest: Seq<u8>) {
        let wire = self.encoding();
        assert(wire == le_bytes(twos(*self as int, 1), 1));
        lemma_le_bytes_len(twos(*self as int, 1), 1);
        let input = Input::whole(wire + rest);
        assert(Self::parse(input) == fixed_parse(input, 1));
        assert(input.bytes.take(1) =~= wire);
    }
}

impl<'a> Plain<'a> for i8 {
    proof fn lemma_same_wire(&self, other: &Self) {
        lemma_limits();
        assert(self.encoding() == le_bytes(twos(*self as int, 1), 1));
        assert(other.encoding() == le_bytes(twos(*other as int, 1), 1));
        lemma_twos(*self as int, 1);
        lemma_twos(*other as int, 1);
        lemma_le_value_of_bytes(twos(*self as int, 1), 1);
        lemma_le_value_of_bytes(twos(*other as int, 1), 1);
    }
}

impl<'a> Owning<'a> for i8 {
    proof fn lemma_pieces_ignored(a: Input, b: Input) {
        assert(Self::parse(a) == fixed_parse(a, 1));
        assert(Self::parse(b) == fixed_parse(b, 1));
    }
}

impl Serialize for i16 {
    /// The 2 bytes of the number in two's complement, the lowest first.
    open spec fn encoding(&self) -> Seq<u8> {
        le_bytes(twos(*self as int, 2), 2)
    }

    fn serialize_to<S: Serializer>(&self, serializer: &mut S) -> (r: Result<()>) {
        proof {
            lemma_limits();
            lemma_twos(*self as int, 2);
            lemma_le_bytes_len(twos(*self as int, 2), 2);
        }
        assert(self.encoding() == le_bytes(twos(*self as int, 2), 2));
        let raw: u128 = if *self < 0 {
            ((*self - i16::MIN) as u16) as u128 + 0x8000
        } else {
            *self as u128
        };
        prepend_le(serializer, raw, 2)
    }
}

impl<'a> Deserialize<'a> for i16 {
    open spec fn parse(input: Input) -> Parsed {
        fixed_parse(input, 2)
    }

    fn deserialize_from<D: Deserializer<'a>>(buf: &mut D) -> (r: Result<Self>)
        ensures
            r matches Ok(value) ==> value == untwos(
                le_value(old(buf).input().bytes.take(2)),
                2,
            ),
    {
        let ghost input = buf.input();
        assert(Self::parse(input) == fixed_parse(input, 2));
        let raw = pop_le(buf, 2)?;
        proof {
            lemma_limits();
            lemma_untwos(raw as nat, 2);
            lemma_le_bytes_of_value(input.bytes.take(2));
        }
        let value = if raw >= 0x8000 {
            ((raw - 0x8000) as i16) + i16::MIN
        } else {
            raw as i16
        };
        assert(value.encoding() == le_bytes(twos(value as int, 2), 2));
        Ok(value)
    }
}

impl<'a> RoundTrip<'a> for i16 {
    proof fn lemma_round_trip(&self, rest: Seq<u8>) {
        let wire = self.encoding();
        assert(wire == le_bytes(twos(*self as int, 2), 2));
        lemma_le_bytes_len(twos(*self as int, 2), 2);
        let input = Input::whole(wire + rest);
        assert(Self::parse(input) == fixed_parse(input, 2));
        assert(input.bytes.take(2) =~= wire);
    }
}

impl<'a> Plain<'a> for i16 {
    proof fn lemma_same_wire(&self, other: &Self) {
        lemma_limits();
        assert(self.encoding() == le_bytes(twos(*self as int, 2), 2));
        assert(other.encoding() == le_bytes(twos(*other as int, 2), 2));
        lemma_twos(*self as int, 2);
        lemma_twos(*other as int, 2);
        lemma_le_value_of_bytes(twos(*self as int, 2), 2);
        lemma_le_value_of_bytes(twos(*other as int, 2), 2);
    }
}

impl<'a> Owning<'a> for i16 {
    proof fn lemma_pieces_ignored(a: Input, b: Input) {
        assert(Self::parse(a) == fixed_parse(a, 2));
        assert(Self::parse(b) == fixed_parse(b, 2));
    }
}

impl Serialize for i32 {
    /// The 4 bytes of the number in two's complement, the lowest first.
    open spec fn encoding(&self) -> Seq<u8> {
        le_bytes(twos(*self as int, 4), 4)
    }

    fn serialize_to<S: Serializer>(&self, serializer: &mut S) -> (r: Result<()>) {
        proof {
            lemma_limits();
            lemma_twos(*self as int, 4);
            lemma_le_bytes_len(twos(*self as int, 4), 4);
        }
        assert(self.encoding() == le_bytes(twos(*self as int, 4), 4));
        let raw: u128 = if *self < 0 {
            ((*self - i32::MIN) as u32) as u128 + 0x8000_0000
        } else {
            *self as u128
        };
        prepend_le(serializer, raw, 4)
    }
}

impl<'a> Deserialize<'a> for i32 {
    open spec fn parse(input: Input) -> Parsed {
        fixed_parse(input, 4)
    }

    fn deserialize_from<D: Deserializer<'a>>(buf: &mut D) -> (r: Result<Self>)
        ensures
            r matches Ok(value) ==> value == untwos(
                le_value(old(buf).input().bytes.take(4)),
                4,
            ),
    {
        let ghost input = buf.input();
        assert(Self::parse(input) == fixed_parse(input, 4));
        let raw = pop_le(buf, 4)?;
        proof {
            lemma_limits();
            lemma_untwos(raw as nat, 4);
            lemma_le_bytes_of_value(input.bytes.take(4));
        }
        let value = if raw >= 0x8000_0000 {
            ((raw - 0x8000_0000) as i32) + i32::MIN
        } else {
            raw as i32
        };
        assert(value.encoding() == le_bytes(twos(value as int, 4), 4));
        Ok(value)
    }
}

impl<'a> RoundTrip<'a> for i32 {
    proof fn lemma_round_trip(&self, rest: Seq<u8>) {
        let wire = self.encoding();
        assert(wire == le_bytes(twos(*self as int, 4), 4));
        lemma_le_bytes_len(twos(*self as int, 4), 4);
        let input = Input::whole(wire + rest);
        assert(Self::parse(input) == fixed_parse(input, 4));
        assert(input.bytes.take(4) =~= wire);
    }
}

impl<'a> Plain<'a> for i32 {
    proof fn lemma_same_wire(&self, other: &Self) {
        lemma_limits();
        assert(self.encoding() == le_bytes(twos(*self as int, 4), 4));
        assert(other.encoding() == le_bytes(twos(*other as int, 4), 4));
        lemma_twos(*self as int, 4);
        lemma_twos(*other as int, 4);
        lemma_le_value_of_bytes(twos(*self as int, 4), 4);
        lemma_le_value_of_bytes(twos(*other as int, 4), 4);
    }
}

impl<'a> Owning<'a> for i32 {
    proof fn lemma_pieces_ignored(a: Input, b: Input) {
        assert(Self::parse(a) == fixed_parse(a, 4));
        assert(Self::parse(b) == fixed_parse(b, 4));
    }
}

impl Serialize for i64 {
    /// The 8 bytes of the number in two's complement, the lowest first.
    open spec fn encoding(&self) -> Seq<u8> {
        le_bytes(twos(*self as int, 8), 8)
    }

    fn serialize_to<S: Serializer>(&self, serializer: &mut S) -> (r: Result<()>) {
        proof {
            lemma_limits();
            lemma_twos(*self as int, 8);
            lemma_le_bytes_len(twos(*self as int, 8), 8);
        }
        assert(self.encoding() == le_bytes(twos(*self as int, 8), 8));
        let raw: u128 = if *self < 0 {
            ((*self - i64::MIN) as u64) as u128 + 0x8000_0000_0000_0000
        } else {
            *self as u128
        };
        prepend_le(serializer, raw, 8)
    }
}

impl<'a> Deserialize<'a> for i64 {
    open spec fn parse(input: Input) -> Parsed {
        fixed_parse(input, 8)
    }

    fn deserialize_from<D: Deserializer<'a>>(buf: &mut D) -> (r: Result<Self>)
        ensures
            r matches Ok(value) ==> value == untwos(
                le_value(old(buf).input().bytes.take(8)),
                8,
            ),
    {
        let ghost input = buf.input();
        assert(Self::parse(input) == fixed_parse(input, 8));
        let raw = pop_le(buf, 8)?;
        proof {
            lemma_limits();
            lemma_untwos(raw as nat, 8);
            lemma_le_bytes_of_value(input.bytes.take(8));
        }
        let value = if raw >= 0x8000_0000_0000_0000 {
            ((raw - 0x8000_0000_0000_0000) as i64) + i64::MIN
        } else {
            raw as i64
        };
        assert(value.encoding() == le_bytes(twos(value as int, 8), 8));
        Ok(value)
    }
}

impl<'a> RoundTrip<'a> for i64 {
    proof fn lemma_round_trip(&self, rest: Seq<u8>) {
        let wire = self.encoding();
        assert(wire == le_bytes(twos(*self as int, 8), 8));
        lemma_le_bytes_len(twos(*self as int, 8), 8);
        let input = Input::whole(wire + rest);
        assert(Self::parse(input) == fixed_parse(input, 8));
        assert(input.bytes.take(8) =~= wire);
    }
}

impl<'a> Plain<'a> for i64 {
    proof fn lemma_same_wire(&self, other: &Self) {
        lemma_limits();
        assert(self.encoding() == le_bytes(twos(*self as int, 8), 8));
        assert(other.encoding() == le_bytes(twos(*other as int, 8), 8));
        lemma_twos(*self as int, 8);
        lemma_twos(*other as int, 8);
        lemma_le_value_of_bytes(twos(*self as int, 8), 8);
        lemma_le_value_of_bytes(twos(*other as int, 8), 8);
    }
}

impl<'a> Owning<'a> for i64 {
    proof fn lemma_pieces_ignored(a: Input, b: Input) {
        assert(Self::parse(a) == fixed_parse(a, 8));
        assert(Self::parse(b) == fixed_parse(b, 8));
    }
}

impl Serialize for i128 {
    /// The 16 bytes of the number in two's complement, the lowest first.
    open spec fn encoding(&self) -> Seq<u8> {
        le_bytes(twos(*self as int, 16), 16)
    }

    fn serialize_to<S: Serializer>(&self, serializer: &mut S) -> (r: Result<()>) {
        proof {
            lemma_limits();
            lemma_twos(*self as int, 16);
            lemma_le_bytes_len(twos(*self as int, 16), 16);
        }
        assert(self.encoding() == le_bytes(twos(*self as int, 16), 16));
        let raw: u128 = if *self < 0 {
            ((*self - i128::MIN) as u128) as u128 + 0x8000_0000_0000_0000_0000_0000_0000_0000
        } else {
            *self as u128
        };
        prepend_le(serializer, raw, 16)
    }
}

impl<'a> Deserialize<'a> for i128 {
    open spec fn parse(input: Input) -> Parsed {
        fixed_parse(input, 16)
    }

    fn deserialize_from<D: Deserializer<'a>>(buf: &mut D) -> (r: Result<Self>)
        ensures
            r matches Ok(value) ==> value == untwos(
                le_value(old(buf).input().bytes.take(16)),
                16,
            ),
    {
        let ghost input = buf.input();
        assert(Self::parse(input) == fixed_parse(input, 16));
        let raw = pop_le(buf, 16)?;
        proof {
            lemma_limits();
            lemma_untwos(raw as nat, 16);
            lemma_le_bytes_of_value(input.bytes.take(16));
        }
        let value = if raw >= 0x8000_0000_0000_0000_0000_0000_0000_0000 {
            ((raw - 0x8000_0000_0000_0000_0000_0000_0000_0000) as i128) + i128::MIN
        } else {
            raw as i128
        };
        assert(value.encoding() == le_bytes(twos(value as int, 16), 16));
        Ok(value)
    }
}

impl<'a> RoundTrip<'a> for i128 {
    proof fn lemma_round_trip(&self, rest: Seq<u8>) {
        let wire = self.encoding();
        assert(wire == le_bytes(twos(*self as int, 16), 16));
        lemma_le_bytes_len(twos(*self as int, 16), 16);
        let input = Input::whole(wire + rest);
        assert(Self::parse(input) == fixed_parse(input, 16));
        assert(input.bytes.take(16) =~= wire);
    }
}

impl<'a> Plain<'a> for i128 {
    proof fn lemma_same_wire(&self, other: &Self) {
        lemma_limits();
        assert(self.encoding() == le_bytes(twos(*self as int, 16), 16));
        assert(other.encoding() == le_bytes(twos(*other as int, 16), 16));
        lemma_twos(*self as int, 16);
        lemma_twos(*other as int, 16);
        lemma_le_value_of_bytes(twos(*self as int, 16), 16);
        lemma_le_value_of_bytes(twos(*other as int, 16), 16);
    }
}

impl<'a> Owning<'a> for i128 {
    proof fn lemma_pieces_ignored(a: Input, b: Input) {
        assert(Self::parse(a) == fixed_parse(a, 16));
        assert(Self::parse(b) == fixed_parse(b, 16));
    }
}

} // verus!
