//! Booleans, characters, integers of the machine's width, the unit, and
//! values that are there or not.

use crate::deserializer::{span_bytes, Deserializer, Input};
use crate::error::{Error, Failure, Result};
use crate::fixed::{
    le_bytes, le_value, lemma_le_bytes_len, lemma_le_bytes_of_value, lemma_le_value_bound,
    lemma_le_value_of_bytes, lemma_limits, lemma_twos, twos, untwos,
};
use crate::ints::fixed_parse;
use crate::laws::{Owning, Plain, RoundTrip};
use crate::serializer::{prepend_byte, Serializer};
use crate::{Deserialize, Parsed, Serialize};
use vstd::prelude::*;

verus! {

/// The byte that stands for a boolean.
pub open spec fn bool_byte(b: bool) -> u8 {
    if b {
        1
    } else {
        0
    }
}

/// Whether `raw` is a Unicode scalar value.
pub open spec fn is_scalar_value(raw: nat) -> bool {
    raw < 0xD800 || 0xE000 <= raw <= 0x10FFFF
}

/// What a second parse comes to when it follows a first one that gave `wire`
/// and read `used` bytes.
pub open spec fn preceded(wire: Seq<u8>, used: int, second: Parsed) -> Parsed {
    match second {
        Ok((more, further)) => Ok((wire + more, used + further)),
        Err(failure) => Err(failure),
    }
}

/// `char::from_u32`: gives the character whose number is `raw` where `raw` is
/// a Unicode scalar value, and nothing where it is not.
#[verifier::external_body]
fn char_from_u32(raw: u32) -> (r: Option<char>)
    ensures
        match r {
            Some(c) => is_scalar_value(raw as nat) && c as u32 == raw,
            None => !is_scalar_value(raw as nat),
        },
{
    char::from_u32(raw)
}

impl Serialize for bool {
    /// One byte: 1 for `true`, 0 for `false`.
    open spec fn encoding(&self) -> Seq<u8> {
        seq![bool_byte(*self)]
    }

    fn serialize_to<S: Serializer>(&self, serializer: &mut S) -> (r: Result<()>) {
        assert(self.encoding() == seq![bool_byte(*self)]);
        prepend_byte(
            serializer,
            if *self {
                1
            } else {
                0
            },
        )
    }
}

/// What reading a boolean comes to: one byte, which must be 0 or 1.
pub open spec fn bool_parse(input: Input) -> Parsed {
    if input.len() == 0 {
        Err(Failure::DataIsShort { expect: 1, actual: 0 })
    } else if input.bytes[0] == 0 || input.bytes[0] == 1 {
        Ok((input.bytes.take(1), 1))
    } else {
        Err(Failure::InvalidBool(input.bytes[0]))
    }
}

impl<'a> Deserialize<'a> for bool {
    open spec fn parse(input: Input) -> Parsed {
        bool_parse(input)
    }

    fn deserialize_from<D: Deserializer<'a>>(buf: &mut D) -> (r: Result<Self>)
        ensures
            r matches Ok(value) ==> old(buf).input().bytes[0] == bool_byte(value),
    {
        let ghost input = buf.input();
        assert(Self::parse(input) == bool_parse(input));
        let front = buf.pop(1)?;
        let byte = span_bytes(&front)[0];
        if byte == 0 {
            assert(false.encoding() =~= input.bytes.take(1));
            Ok(false)
        } else if byte == 1 {
            assert(true.encoding() =~= input.bytes.take(1));
            Ok(true)
        } else {
            Err(Error::InvalidBool(byte))
        }
    }
}

impl Serialize for usize {
    /// The number as eight bytes, the lowest first.
    open spec fn encoding(&self) -> Seq<u8> {
        le_bytes(*self as nat, 8)
    }

    fn serialize_to<S: Serializer>(&self, serializer: &mut S) -> (r: Result<()>) {
        let wide = *self as u64;
        assert(self.encoding() == le_bytes(*self as nat, 8));
        assert(wide.encoding() == le_bytes(wide as nat, 8));
        wide.serialize_to(serializer)
    }
}

/// Eight bytes are read, and of their number as much is kept as a `usize` holds.
pub open spec fn usize_parse(input: Input) -> Parsed {
    if input.len() >= 8 {
        Ok((le_bytes(((le_value(input.bytes.take(8)) as u64) as usize) as nat, 8), 8))
    } else {
        Err(Failure::DataIsShort { expect: 8, actual: input.len() as usize })
    }
}

impl<'a> Deserialize<'a> for usize {
    open spec fn parse(input: Input) -> Parsed {
        usize_parse(input)
    }

    fn deserialize_from<D: Deserializer<'a>>(buf: &mut D) -> (r: Result<Self>)
        ensures
            r matches Ok(value) ==> value == (le_value(old(buf).input().bytes.take(8)) as u64)
                as usize,
    {
        let ghost input = buf.input();
        assert(Self::parse(input) == usize_parse(input));
        assert(u64::parse(input) == fixed_parse(input, 8));
        let wide = u64::deserialize_from(buf)?;
        let value = #[verifier::truncate] (wide as usize);
        assert(value.encoding() == le_bytes(value as nat, 8));
        Ok(value)
    }
}

impl Serialize for isize {
    /// The number as eight bytes in two's complement, the lowest first.
    open spec fn encoding(&self) -> Seq<u8> {
        le_bytes(twos(*self as int, 8), 8)
    }

    fn serialize_to<S: Serializer>(&self, serializer: &mut S) -> (r: Result<()>) {
        let wide = *self as i64;
        assert(self.encoding() == le_bytes(twos(*self as int, 8), 8));
        assert(wide.encoding() == le_bytes(twos(wide as int, 8), 8));
        wide.serialize_to(serializer)
    }
}

/// Eight bytes are read, and of their number as much is kept as an `isize` holds.
pub open spec fn isize_parse(input: Input) -> Parsed {
    if input.len() >= 8 {
        Ok(
            (
                le_bytes(
                    twos(
                        ((untwos(le_value(input.bytes.take(8)), 8) as i64) as isize) as int,
                        8,
                    ),
                    8,
                ),
                8,
            ),
        )
    } else {
        Err(Failure::DataIsShort { expect: 8, actual: input.len() as usize })
    }
}

impl<'a> Deserialize<'a> for isize {
    open spec fn parse(input: Input) -> Parsed {
        isize_parse(input)
    }

    fn deserialize_from<D: Deserializer<'a>>(buf: &mut D) -> (r: Result<Self>)
        ensures
            r matches Ok(value) ==> value == (untwos(
                le_value(old(buf).input().bytes.take(8)),
                8,
            ) as i64) as isize,
    {
        let ghost input = buf.input();
        assert(Self::parse(input) == isize_parse(input));
        assert(i64::parse(input) == fixed_parse(input, 8));
        let wide = i64::deserialize_from(buf)?;
        let value = #[verifier::truncate] (wide as isize);
        assert(value.encoding() == le_bytes(twos(value as int, 8), 8));
        Ok(value)
    }
}

impl Serialize for char {
    /// The number of the character as four bytes, the lowest first.
    open spec fn encoding(&self) -> Seq<u8> {
        le_bytes((*self as u32) as nat, 4)
    }

    fn serialize_to<S: Serializer>(&self, serializer: &mut S) -> (r: Result<()>) {
        let number = *self as u32;
        assert(self.encoding() == le_bytes((*self as u32) as nat, 4));
        assert(number.encoding() == le_bytes(number as nat, 4));
        number.serialize_to(serializer)
    }
}

/// What reading a character comes to: four bytes, whose number must be a
/// Unicode scalar value.
pub open spec fn char_parse(input: Input) -> Parsed {
    if input.len() >= 4 {
        let raw = le_value(input.bytes.take(4));
        if is_scalar_value(raw) {
            Ok((input.bytes.take(4), 4))
        } else {
            Err(Failure::InvalidChar(raw as u32))
        }
    } else {
        Err(Failure::DataIsShort { expect: 4, actual: input.len() as usize })
    }
}

impl<'a> Deserialize<'a> for char {
    open spec fn parse(input: Input) -> Parsed {
        char_parse(input)
    }

    fn deserialize_from<D: Deserializer<'a>>(buf: &mut D) -> (r: Result<Self>)
        ensures
            r matches Ok(value) ==> value as u32 == le_value(old(buf).input().bytes.take(4)),
    {
        let ghost input = buf.input();
        assert(Self::parse(input) == char_parse(input));
        assert(u32::parse(input) == fixed_parse(input, 4));
        let number = u32::deserialize_from(buf)?;
        proof {
            lemma_limits();
            lemma_le_value_bound(input.bytes.take(4));
            lemma_le_bytes_of_value(input.bytes.take(4));
        }
        match char_from_u32(number) {
            Some(value) => {
                assert(value.encoding() == le_bytes((value as u32) as nat, 4));
                Ok(value)
            },
            None => Err(Error::InvalidChar(number)),
        }
    }
}

impl Serialize for () {
    /// No bytes at all.
    open spec fn encoding(&self) -> Seq<u8> {
        Seq::empty()
    }

    fn serialize_to<S: Serializer>(&self, serializer: &mut S) -> (r: Result<()>)
        ensures
            r is Ok,
            *final(serializer) == *old(serializer),
    {
        assert(self.encoding() == Seq::<u8>::empty());
        proof {
            serializer.sink().lemma_prepend_nothing();
        }
        Ok(())
    }
}

impl<'a> Deserialize<'a> for () {
    open spec fn parse(input: Input) -> Parsed {
        Ok((Seq::empty(), 0))
    }

    fn deserialize_from<D: Deserializer<'a>>(buf: &mut D) -> (r: Result<Self>) {
        assert(Self::parse(buf.input()) == Ok::<(Seq<u8>, int), Failure>((Seq::empty(), 0)));
        assert(().encoding() == Seq::<u8>::empty());
        proof {
            buf.lemma_input_wf();
            buf.input().lemma_skip_skip(0, 0);
        }
        Ok(())
    }
}

impl<T> Serialize for std::marker::PhantomData<T> {
    /// No bytes at all.
    open spec fn encoding(&self) -> Seq<u8> {
        Seq::empty()
    }

    fn serialize_to<S: Serializer>(&self, serializer: &mut S) -> (r: Result<()>)
        ensures
            r is Ok,
            *final(serializer) == *old(serializer),
    {
        assert(self.encoding() == Seq::<u8>::empty());
        proof {
            serializer.sink().lemma_prepend_nothing();
        }
        Ok(())
    }
}

impl<'a, T> Deserialize<'a> for std::marker::PhantomData<T> {
    open spec fn parse(input: Input) -> Parsed {
        Ok((Seq::empty(), 0))
    }

    fn deserialize_from<D: Deserializer<'a>>(buf: &mut D) -> (r: Result<Self>) {
        assert(Self::parse(buf.input()) == Ok::<(Seq<u8>, int), Failure>((Seq::empty(), 0)));
        let value = std::marker::PhantomData::<T>;
        assert(value.encoding() == Seq::<u8>::empty());
        proof {
            buf.lemma_input_wf();
            buf.input().lemma_skip_skip(0, 0);
        }
        Ok(value)
    }
}

impl<T: Serialize + ?Sized> Serialize for &T {
    /// The wire form of what is referred to.
    open spec fn encoding(&self) -> Seq<u8> {
        (**self).encoding()
    }

    fn serialize_to<S: Serializer>(&self, serializer: &mut S) -> (r: Result<()>) {
        assert(self.encoding() == (**self).encoding());
        (**self).serialize_to(serializer)
    }
}

impl<T: Serialize + ?Sized> Serialize for &mut T {
    /// The wire form of what is referred to.
    open spec fn encoding(&self) -> Seq<u8> {
        (**self).encoding()
    }

    fn serialize_to<S: Serializer>(&self, serializer: &mut S) -> (r: Result<()>) {
        assert(self.encoding() == (**self).encoding());
        (**self).serialize_to(serializer)
    }
}

impl<Item: Serialize> Serialize for Option<Item> {
    /// A byte that says whether a value is there, and the value where it is.
    open spec fn encoding(&self) -> Seq<u8> {
        match self {
            Some(item) => seq![1u8] + item.encoding(),
            None => seq![0u8],
        }
    }

    fn serialize_to<S: Serializer>(&self, serializer: &mut S) -> (r: Result<()>) {
        let ghost start = serializer.sink();
        assert(self.encoding() == (match self {
            Some(item) => seq![1u8] + item.encoding(),
            None => seq![0u8],
        }));
        match self {
            Some(item) => {
                item.serialize_to(serializer)?;
                proof {
                    start.lemma_prepend_twice(item.encoding(), seq![1u8]);
                }
                prepend_byte(serializer, 1)
            },
            None => prepend_byte(serializer, 0),
        }
    }
}

/// What reading a value that is there or not comes to: a boolean, and the
/// value where the boolean is true.
pub open spec fn option_parse<'a, Item: Deserialize<'a>>(input: Input) -> Parsed {
    match bool::parse(input) {
        Ok((flag, _)) => if flag[0] == 1 {
            preceded(flag, 1, Item::parse(input.skip(1)))
        } else {
            Ok((flag, 1))
        },
        Err(failure) => Err(failure),
    }
}

impl<'a, Item: Deserialize<'a>> Deserialize<'a> for Option<Item> {
    open spec fn parse(input: Input) -> Parsed {
        option_parse::<Item>(input)
    }

    fn deserialize_from<D: Deserializer<'a>>(buf: &mut D) -> (r: Result<Self>) {
        let ghost input = buf.input();
        assert(Self::parse(input) == option_parse::<Item>(input));
        proof {
            buf.lemma_input_wf();
        }
        let has = bool::deserialize_from(buf)?;
        let ghost flag = has.encoding();
        if has {
            let item = Item::deserialize_from(buf)?;
            let value = Some(item);
            proof {
                let used = Item::parse(input.skip(1))->Ok_0.1;
                input.lemma_skip_skip(1, used);
                assert(value.encoding() == seq![1u8] + item.encoding());
                assert(flag =~= seq![1u8]);
            }
            Ok(value)
        } else {
            let value: Option<Item> = None;
            assert(value.encoding() == seq![0u8]);
            assert(flag =~= seq![0u8]);
            Ok(value)
        }
    }
}

impl<T: Serialize, E: Serialize> Serialize for std::result::Result<T, E> {
    /// A byte that says which of the two it is, 1 for `Ok`, and then its value.
    open spec fn encoding(&self) -> Seq<u8> {
        match self {
            Ok(value) => seq![1u8] + value.encoding(),
            Err(error) => seq![0u8] + error.encoding(),
        }
    }

    fn serialize_to<S: Serializer>(&self, serializer: &mut S) -> (r: Result<()>) {
        let ghost start = serializer.sink();
        assert(self.encoding() == (match self {
            Ok(value) => seq![1u8] + value.encoding(),
            Err(error) => seq![0u8] + error.encoding(),
        }));
        match self {
            Ok(value) => {
                value.serialize_to(serializer)?;
                proof {
                    start.lemma_prepend_twice(value.encoding(), seq![1u8]);
                }
                prepend_byte(serializer, 1)
            },
            Err(error) => {
                error.serialize_to(serializer)?;
                proof {
                    start.lemma_prepend_twice(error.encoding(), seq![0u8]);
                }
                prepend_byte(serializer, 0)
            },
        }
    }
}

/// What reading one of two comes to: a boolean, and then the first where it
/// is true, the second where it is false.
pub open spec fn result_parse<'a, T: Deserialize<'a>, E: Deserialize<'a>>(
    input: Input,
) -> Parsed {
    match bool::parse(input) {
        Ok((flag, _)) => if flag[0] == 1 {
            preceded(flag, 1, T::parse(input.skip(1)))
        } else {
            preceded(flag, 1, E::parse(input.skip(1)))
        },
        Err(failure) => Err(failure),
    }
}

impl<'a, T: Deserialize<'a>, E: Deserialize<'a>> Deserialize<'a> for std::result::Result<T, E> {
    open spec fn parse(input: Input) -> Parsed {
        result_parse::<T, E>(input)
    }

    fn deserialize_from<D: Deserializer<'a>>(buf: &mut D) -> (r: Result<Self>) {
        let ghost input = buf.input();
        assert(Self::parse(input) == result_parse::<T, E>(input));
        proof {
            buf.lemma_input_wf();
        }
        let has = bool::deserialize_from(buf)?;
        let ghost flag = has.encoding();
        if has {
            let inner = T::deserialize_from(buf)?;
            let value: std::result::Result<T, E> = Ok(inner);
            proof {
                let used = T::parse(input.skip(1))->Ok_0.1;
                input.lemma_skip_skip(1, used);
                assert(value.encoding() == seq![1u8] + inner.encoding());
                assert(flag =~= seq![1u8]);
            }
            Ok(value)
        } else {
            let inner = E::deserialize_from(buf)?;
            let value: std::result::Result<T, E> = Err(inner);
            proof {
                let used = E::parse(input.skip(1))->Ok_0.1;
                input.lemma_skip_skip(1, used);
                assert(value.encoding() == seq![0u8] + inner.encoding());
                assert(flag =~= seq![0u8]);
            }
            Ok(value)
        }
    }
}

impl<'a> RoundTrip<'a> for bool {
    proof fn lemma_round_trip(&self, rest: Seq<u8>) {
        let wire = self.encoding();
        assert(wire == seq![bool_byte(*self)]);
        let input = Input::whole(wire + rest);
        assert(input.bytes.take(1) =~= wire);
    }
}

impl<'a> Plain<'a> for bool {
    proof fn lemma_same_wire(&self, other: &Self) {
        assert(self.encoding() == seq![bool_byte(*self)]);
        assert(other.encoding() == seq![bool_byte(*other)]);
        assert(seq![bool_byte(*self)][0] == bool_byte(*self));
        assert(seq![bool_byte(*other)][0] == bool_byte(*other));
    }
}

impl<'a> Owning<'a> for bool {
    proof fn lemma_pieces_ignored(a: Input, b: Input) {
    }
}

impl<'a> RoundTrip<'a> for usize {
    proof fn lemma_round_trip(&self, rest: Seq<u8>) {
        let wire = self.encoding();
        assert(wire == le_bytes(*self as nat, 8));
        lemma_limits();
        lemma_le_bytes_len(*self as nat, 8);
        lemma_le_value_of_bytes(*self as nat, 8);
        let input = Input::whole(wire + rest);
        assert(input.bytes.take(8) =~= wire);
    }
}

impl<'a> Plain<'a> for usize {
    proof fn lemma_same_wire(&self, other: &Self) {
        lemma_limits();
        assert(self.encoding() == le_bytes(*self as nat, 8));
        assert(other.encoding() == le_bytes(*other as nat, 8));
        lemma_le_value_of_bytes(*self as nat, 8);
        lemma_le_value_of_bytes(*other as nat, 8);
    }
}

impl<'a> Owning<'a> for usize {
    proof fn lemma_pieces_ignored(a: Input, b: Input) {
    }
}

impl<'a> RoundTrip<'a> for isize {
    proof fn lemma_round_trip(&self, rest: Seq<u8>) {
        let wire = self.encoding();
        assert(wire == le_bytes(twos(*self as int, 8), 8));
        lemma_limits();
        lemma_twos(*self as int, 8);
        lemma_le_bytes_len(twos(*self as int, 8), 8);
        lemma_le_value_of_bytes(twos(*self as int, 8), 8);
        let input = Input::whole(wire + rest);
        assert(input.bytes.take(8) =~= wire);
    }
}

impl<'a> Plain<'a> for isize {
    proof fn lemma_same_wire(&self, other: &Self) {
        lemma_limits();
        assert(self.encoding() == le_bytes(twos(*self as int, 8), 8));
        assert(other.encoding() == le_bytes(twos(*other as int, 8), 8));
        lemma_twos(*self as int, 8);
        lemma_twos(*other as int, 8);
        lemma_le_value_of_bytes(twos(*self as int, 8), 8);
        lemma_le_value_of_bytes(twos(*other as int, 8), 8);
    }
}

impl<'a> Owning<'a> for isize {
    proof fn lemma_pieces_ignored(a: Input, b: Input) {
    }
}

impl<'a> RoundTrip<'a> for char {
    proof fn lemma_round_trip(&self, rest: Seq<u8>) {
        let number = (*self as u32) as nat;
        let wire = self.encoding();
        assert(wire == le_bytes(number, 4));
        lemma_limits();
        lemma_le_bytes_len(number, 4);
        lemma_le_value_of_bytes(number, 4);
        vstd::utf8::char_is_scalar(*self);
        let input = Input::whole(wire + rest);
        assert(input.bytes.take(4) =~= wire);
    }
}

impl<'a> Plain<'a> for char {
    proof fn lemma_same_wire(&self, other: &Self) {
        lemma_limits();
        assert(self.encoding() == le_bytes((*self as u32) as nat, 4));
        assert(other.encoding() == le_bytes((*other as u32) as nat, 4));
        lemma_le_value_of_bytes((*self as u32) as nat, 4);
        lemma_le_value_of_bytes((*other as u32) as nat, 4);
        vstd::utf8::char_u32_cast(*self, *self as u32);
        vstd::utf8::char_u32_cast(*other, *other as u32);
    }
}

impl<'a> Owning<'a> for char {
    proof fn lemma_pieces_ignored(a: Input, b: Input) {
    }
}

impl<'a> RoundTrip<'a> for () {
    proof fn lemma_round_trip(&self, rest: Seq<u8>) {
        assert(self.encoding() == Seq::<u8>::empty());
    }
}

impl<'a> Plain<'a> for () {
    proof fn lemma_same_wire(&self, other: &Self) {
    }
}

impl<'a> Owning<'a> for () {
    proof fn lemma_pieces_ignored(a: Input, b: Input) {
    }
}

impl<'a, T> RoundTrip<'a> for std::marker::PhantomData<T> {
    proof fn lemma_round_trip(&self, rest: Seq<u8>) {
        assert(self.encoding() == Seq::<u8>::empty());
    }
}

impl<'a, T> Owning<'a> for std::marker::PhantomData<T> {
    proof fn lemma_pieces_ignored(a: Input, b: Input) {
    }
}

impl<'a, Item: RoundTrip<'a>> RoundTrip<'a> for Option<Item> {
    proof fn lemma_round_trip(&self, rest: Seq<u8>) {
        let wire = self.encoding();
        let input = Input::whole(wire + rest);
        match self {
            Some(item) => {
                assert(wire == seq![1u8] + item.encoding());
                item.lemma_round_trip(rest);
                Input::lemma_whole_parts(wire + rest, 1);
                assert((wire + rest).skip(1) =~= item.encoding() + rest);
                assert(input.bytes.take(1) =~= seq![1u8]);
            },
            None => {
                assert(wire == seq![0u8]);
                assert(input.bytes.take(1) =~= wire);
            },
        }
    }
}

impl<'a, Item: Owning<'a>> Owning<'a> for Option<Item> {
    proof fn lemma_pieces_ignored(a: Input, b: Input) {
        Item::lemma_pieces_ignored(a.skip(1), b.skip(1));
    }
}

impl<'a, T: RoundTrip<'a>, E: RoundTrip<'a>> RoundTrip<'a> for std::result::Result<T, E> {
    proof fn lemma_round_trip(&self, rest: Seq<u8>) {
        let wire = self.encoding();
        let input = Input::whole(wire + rest);
        Input::lemma_whole_parts(wire + rest, 1);
        match self {
            Ok(value) => {
                assert(wire == seq![1u8] + value.encoding());
                value.lemma_round_trip(rest);
                assert((wire + rest).skip(1) =~= value.encoding() + rest);
                assert(input.bytes.take(1) =~= seq![1u8]);
            },
            Err(error) => {
                assert(wire == seq![0u8] + error.encoding());
                error.lemma_round_trip(rest);
                assert((wire + rest).skip(1) =~= error.encoding() + rest);
                assert(input.bytes.take(1) =~= seq![0u8]);
            },
        }
    }
}

impl<'a, T: Owning<'a>, E: Owning<'a>> Owning<'a> for std::result::Result<T, E> {
    proof fn lemma_pieces_ignored(a: Input, b: Input) {
        T::lemma_pieces_ignored(a.skip(1), b.skip(1));
        E::lemma_pieces_ignored(a.skip(1), b.skip(1));
    }
}

impl<'a, Item: Plain<'a>> Plain<'a> for Option<Item> {
    proof fn lemma_same_wire(&self, other: &Self) {
        let mine = self.encoding();
        let theirs = other.encoding();
        match (self, other) {
            (Some(a), Some(b)) => {
                assert(mine == seq![1u8] + a.encoding());
                assert(theirs == seq![1u8] + b.encoding());
                assert(mine.skip(1) =~= a.encoding());
                assert(theirs.skip(1) =~= b.encoding());
                a.lemma_same_wire(b);
            },
            (Some(a), None) => {
                assert(mine == seq![1u8] + a.encoding());
                assert(theirs == seq![0u8]);
                assert(mine[0] == 1 && theirs[0] == 0);
            },
            (None, Some(b)) => {
                assert(mine == seq![0u8]);
                assert(theirs == seq![1u8] + b.encoding());
                assert(mine[0] == 0 && theirs[0] == 1);
            },
            (None, None) => {},
        }
    }
}

impl<'a, T: Plain<'a>, E: Plain<'a>> Plain<'a> for std::result::Result<T, E> {
    proof fn lemma_same_wire(&self, other: &Self) {
        let mine = self.encoding();
        let theirs = other.encoding();
        match (self, other) {
            (Ok(a), Ok(b)) => {
                assert(mine == seq![1u8] + a.encoding());
                assert(theirs == seq![1u8] + b.encoding());
                assert(mine.skip(1) =~= a.encoding());
                assert(theirs.skip(1) =~= b.encoding());
                a.lemma_same_wire(b);
            },
            (Err(a), Err(b)) => {
                assert(mine == seq![0u8] + a.encoding());
                assert(theirs == seq![0u8] + b.encoding());
                assert(mine.skip(1) =~= a.encoding());
                assert(theirs.skip(1) =~= b.encoding());
                a.lemma_same_wire(b);
            },
            (Ok(a), Err(b)) => {
                assert(mine == seq![1u8] + a.encoding());
                assert(theirs == seq![0u8] + b.encoding());
                assert(mine[0] == 1 && theirs[0] == 0);
            },
            (Err(a), Ok(b)) => {
                assert(mine == seq![0u8] + a.encoding());
                assert(theirs == seq![1u8] + b.encoding());
                assert(mine[0] == 0 && theirs[0] == 1);
            },
        }
    }
}

} // verus!
