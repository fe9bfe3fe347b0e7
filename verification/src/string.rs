//! Text and runs of bytes: their length, then their bytes.

use crate::deserializer::{span_bytes, Deserializer, Input};
use crate::error::{Error, Failure, Result};
use crate::laws::{Owning, RoundTrip};
use crate::serializer::Serializer;
use crate::varint64::{
    lemma_varint_encoding_len, lemma_varint_round_trip, lemma_varint_scan_bounds, varint_encoding,
    varint_parse, VarInt64, MAX_GROUPS,
};
use crate::{Deserialize, Parsed, Serialize};
use std::borrow::Cow;
use vstd::prelude::*;
use vstd::slice::slice_to_vec;
use vstd::string::StringSliceAdditionalSpecFns;
use vstd::utf8::{
    decode_utf8, encode_utf8, encode_utf8_decode_utf8, encode_utf8_valid_utf8, valid_utf8,
};

verus! {

/// The wire form of a run of bytes: how many they are, then the bytes.
pub open spec fn bytes_encoding(bytes: Seq<u8>) -> Seq<u8> {
    varint_encoding(bytes.len() as u64) + bytes
}

/// Where a run of bytes stands in `input` that is preceded by its length:
/// the offset of its first byte and the number of its bytes.
pub open spec fn span_parse(input: Input) -> std::result::Result<(int, int), Failure> {
    match varint_parse(input.bytes) {
        Ok((v, k)) => if (v as usize) <= input.len() - k {
            Ok((k, (v as usize) as int))
        } else {
            Err(Failure::DataIsShort { expect: v as usize, actual: (input.len() - k) as usize })
        },
        Err(failure) => Err(failure),
    }
}

/// What reading a run of bytes comes to, whether it is lent or copied.
pub open spec fn bytes_parse(input: Input) -> Parsed {
    match span_parse(input) {
        Ok((k, len)) => Ok((bytes_encoding(input.bytes.subrange(k, k + len)), k + len)),
        Err(failure) => Err(failure),
    }
}

/// What reading a run of bytes comes to that must be lent: it fails, keeping
/// no bytes, where the run lies across two pieces of the input.
pub open spec fn lent_bytes_parse(input: Input) -> Parsed {
    match span_parse(input) {
        Ok((k, len)) => if input.skip(k).lends(len) {
            Ok((bytes_encoding(input.bytes.subrange(k, k + len)), k + len))
        } else {
            Err(Failure::InvalidString(Seq::empty()))
        },
        Err(failure) => Err(failure),
    }
}

/// What reading text comes to, whether it is lent or copied: it fails with
/// the bytes where they are no UTF-8.
pub open spec fn text_parse(input: Input) -> Parsed {
    match span_parse(input) {
        Ok((k, len)) => {
            let bytes = input.bytes.subrange(k, k + len);
            if valid_utf8(bytes) {
                Ok((bytes_encoding(bytes), k + len))
            } else {
                Err(Failure::InvalidString(bytes))
            }
        },
        Err(failure) => Err(failure),
    }
}

/// What reading text comes to that must be lent.
pub open spec fn lent_text_parse(input: Input) -> Parsed {
    match span_parse(input) {
        Ok((k, len)) => {
            let bytes = input.bytes.subrange(k, k + len);
            if !input.skip(k).lends(len) {
                Err(Failure::InvalidString(Seq::empty()))
            } else if valid_utf8(bytes) {
                Ok((bytes_encoding(bytes), k + len))
            } else {
                Err(Failure::InvalidString(bytes))
            }
        },
        Err(failure) => Err(failure),
    }
}

/// The text that stands at the front of `input` and can be lent, with the
/// number of bytes that it and its length take.
pub open spec fn tag_parse(input: Input) -> std::result::Result<(Seq<char>, int), Failure> {
    match span_parse(input) {
        Ok((k, len)) => {
            let bytes = input.bytes.subrange(k, k + len);
            if !input.skip(k).lends(len) {
                Err(Failure::InvalidString(Seq::empty()))
            } else if valid_utf8(bytes) {
                Ok((decode_utf8(bytes), k + len))
            } else {
                Err(Failure::InvalidString(bytes))
            }
        },
        Err(failure) => Err(failure),
    }
}

/// The wire form of text: the number of its bytes in UTF-8, then those bytes.
pub open spec fn text_encoding(text: Seq<char>) -> Seq<u8> {
    bytes_encoding(encode_utf8(text))
}

/// `std::str::from_utf8`: gives the text whose UTF-8 form `bytes` is, and
/// nothing where `bytes` is no UTF-8.
#[verifier::external_body]
fn str_from_utf8<'a>(bytes: &'a [u8]) -> (r: Option<&'a str>)
    ensures
        match r {
            Some(text) => valid_utf8(bytes@) && text.spec_bytes() == bytes@,
            None => !valid_utf8(bytes@),
        },
{
    std::str::from_utf8(bytes).ok()
}

/// Writes `bytes` and their number in front of them.
fn prepend_span<S: Serializer>(bytes: &[u8], serializer: &mut S) -> (r: Result<()>)
    requires
        old(serializer).sink().count + bytes_encoding(bytes@).len() <= usize::MAX,
    ensures
        r is Ok ==> final(serializer).sink() == old(serializer).sink().prepend(
            bytes_encoding(bytes@),
        ),
        old(serializer).sink().dependable ==> r is Ok,
{
    let ghost start = serializer.sink();
    let count = VarInt64(bytes.len() as u64);
    assert(count.encoding() == varint_encoding(bytes@.len() as u64));
    serializer.prepend(bytes)?;
    proof {
        start.lemma_prepend_twice(bytes@, count.encoding());
    }
    count.serialize_to(serializer)
}

/// Reads a number and then that many bytes.
fn pop_span<'a, D: Deserializer<'a>>(buf: &mut D) -> (r: Result<Cow<'a, [u8]>>)
    ensures
        match span_parse(old(buf).input()) {
            Ok((k, len)) => {
                &&& r matches Ok(span)
                &&& span@ == old(buf).input().bytes.subrange(k, k + len)
                &&& span is Borrowed <==> old(buf).input().skip(k).lends(len)
                &&& 0 <= k
                &&& 0 <= len
                &&& k + len <= old(buf).input().len()
                &&& final(buf).input() == old(buf).input().skip(k + len)
            },
            Err(failure) => r matches Err(e) && e@ == failure,
        },
{
    let ghost input = buf.input();
    proof {
        buf.lemma_input_wf();
        lemma_varint_scan_bounds(input.bytes, 0, MAX_GROUPS as nat);
    }
    let count = VarInt64::deserialize_from(buf)?;
    let len = #[verifier::truncate] (count.0 as usize);
    let ghost k = varint_parse(input.bytes)->Ok_0.1;
    let span = buf.pop(len)?;
    proof {
        input.lemma_skip_skip(k, len as int);
        assert(input.skip(k).bytes.take(len as int) =~= input.bytes.subrange(k, k + len));
    }
    Ok(span)
}

impl Serialize for [u8] {
    /// The number of the bytes, then the bytes.
    open spec fn encoding(&self) -> Seq<u8> {
        bytes_encoding(self@)
    }

    fn serialize_to<S: Serializer>(&self, serializer: &mut S) -> (r: Result<()>) {
        assert(self.encoding() == bytes_encoding(self@));
        prepend_span(self, serializer)
    }
}

impl<'a> Deserialize<'a> for &'a [u8] {
    open spec fn parse(input: Input) -> Parsed {
        lent_bytes_parse(input)
    }

    fn deserialize_from<D: Deserializer<'a>>(buf: &mut D) -> (r: Result<Self>)
        ensures
            r matches Ok(lent) ==> span_parse(old(buf).input()) matches Ok((k, len)) && lent@
                == old(buf).input().bytes.subrange(k, k + len),
    {
        let ghost input = buf.input();
        assert(Self::parse(input) == lent_bytes_parse(input));
        match pop_span(buf)? {
            Cow::Borrowed(lent) => {
                assert(lent.encoding() == bytes_encoding(lent@));
                Ok(lent)
            },
            Cow::Owned(_) => Err(Error::InvalidString(Vec::new())),
        }
    }
}

impl Serialize for str {
    /// The number of the bytes of the text in UTF-8, then those bytes.
    open spec fn encoding(&self) -> Seq<u8> {
        bytes_encoding(self.spec_bytes())
    }

    fn serialize_to<S: Serializer>(&self, serializer: &mut S) -> (r: Result<()>) {
        assert(self.encoding() == bytes_encoding(self.spec_bytes()));
        prepend_span(self.as_bytes(), serializer)
    }
}

impl<'a> Deserialize<'a> for &'a str {
    open spec fn parse(input: Input) -> Parsed {
        lent_text_parse(input)
    }

    fn deserialize_from<D: Deserializer<'a>>(buf: &mut D) -> (r: Result<Self>)
        ensures
            r matches Ok(text) ==> tag_parse(old(buf).input()) matches Ok((chars, _)) && text@
                == chars,
    {
        let ghost input = buf.input();
        assert(Self::parse(input) == lent_text_parse(input));
        match pop_span(buf)? {
            Cow::Borrowed(lent) => match str_from_utf8(lent) {
                Some(text) => {
                    assert(text.encoding() == bytes_encoding(text.spec_bytes()));
                    proof {
                        encode_utf8_decode_utf8(text@);
                    }
                    Ok(text)
                },
                None => Err(Error::InvalidString(slice_to_vec(lent))),
            },
            Cow::Owned(_) => Err(Error::InvalidString(Vec::new())),
        }
    }
}

impl Serialize for Cow<'_, [u8]> {
    /// The number of the bytes, then the bytes.
    open spec fn encoding(&self) -> Seq<u8> {
        bytes_encoding(self@)
    }

    fn serialize_to<S: Serializer>(&self, serializer: &mut S) -> (r: Result<()>) {
        assert(self.encoding() == bytes_encoding(self@));
        prepend_span(span_bytes(self), serializer)
    }
}

impl<'a> Deserialize<'a> for Cow<'a, [u8]> {
    open spec fn parse(input: Input) -> Parsed {
        bytes_parse(input)
    }

    fn deserialize_from<D: Deserializer<'a>>(buf: &mut D) -> (r: Result<Self>)
        ensures
            r matches Ok(span) ==> span_parse(old(buf).input()) matches Ok((k, len)) && span@
                == old(buf).input().bytes.subrange(k, k + len) && (span is Borrowed
                <==> old(buf).input().skip(k).lends(len)),
    {
        let ghost input = buf.input();
        assert(Self::parse(input) == bytes_parse(input));
        let span = pop_span(buf)?;
        assert(span.encoding() == bytes_encoding(span@));
        Ok(span)
    }
}

impl Serialize for Cow<'_, str> {
    /// The number of the bytes of the text in UTF-8, then those bytes.
    open spec fn encoding(&self) -> Seq<u8> {
        bytes_encoding(encode_utf8(self@))
    }

    fn serialize_to<S: Serializer>(&self, serializer: &mut S) -> (r: Result<()>) {
        assert(self.encoding() == bytes_encoding(encode_utf8(self@)));
        match self {
            Cow::Borrowed(lent) => prepend_span(lent.as_bytes(), serializer),
            Cow::Owned(owned) => prepend_span(owned.as_str().as_bytes(), serializer),
        }
    }
}

impl<'a> Deserialize<'a> for Cow<'a, str> {
    open spec fn parse(input: Input) -> Parsed {
        text_parse(input)
    }

    fn deserialize_from<D: Deserializer<'a>>(buf: &mut D) -> (r: Result<Self>)
        ensures
            r matches Ok(text) ==> span_parse(old(buf).input()) matches Ok((k, len)) && text@
                == decode_utf8(old(buf).input().bytes.subrange(k, k + len)) && (text is Borrowed
                <==> old(buf).input().skip(k).lends(len)),
    {
        let ghost input = buf.input();
        assert(Self::parse(input) == text_parse(input));
        match pop_span(buf)? {
            Cow::Borrowed(lent) => match str_from_utf8(lent) {
                Some(text) => {
                    let value: Cow<'a, str> = Cow::Borrowed(text);
                    assert(value.encoding() == bytes_encoding(encode_utf8(value@)));
                    proof {
                        encode_utf8_decode_utf8(value@);
                    }
                    Ok(value)
                },
                None => Err(Error::InvalidString(slice_to_vec(lent))),
            },
            Cow::Owned(owned) => match str_from_utf8(owned.as_slice()) {
                Some(text) => {
                    let value: Cow<'a, str> = Cow::Owned(text.to_owned());
                    assert(value.encoding() == bytes_encoding(encode_utf8(value@)));
                    proof {
                        encode_utf8_decode_utf8(value@);
                    }
                    Ok(value)
                },
                None => Err(Error::InvalidString(owned)),
            },
        }
    }
}

impl<T: ToOwned<Owned = T> + Serialize> Serialize for Cow<'_, T> {
    /// The wire form of the value, lent or owned.
    open spec fn encoding(&self) -> Seq<u8> {
        match self {
            Cow::Borrowed(lent) => lent.encoding(),
            Cow::Owned(owned) => owned.encoding(),
        }
    }

    fn serialize_to<S: Serializer>(&self, serializer: &mut S) -> (r: Result<()>) {
        assert(self.encoding() == (match self {
            Cow::Borrowed(lent) => lent.encoding(),
            Cow::Owned(owned) => owned.encoding(),
        }));
        match self {
            Cow::Borrowed(lent) => lent.serialize_to(serializer),
            Cow::Owned(owned) => owned.serialize_to(serializer),
        }
    }
}

impl<'a, T: ToOwned<Owned = T> + Deserialize<'a>> Deserialize<'a> for Cow<'a, T> {
    open spec fn parse(input: Input) -> Parsed {
        T::parse(input)
    }

    fn deserialize_from<D: Deserializer<'a>>(buf: &mut D) -> (r: Result<Self>)
        ensures
            r matches Ok(value) ==> value is Owned,
    {
        assert(Self::parse(buf.input()) == T::parse(buf.input()));
        let inner = T::deserialize_from(buf)?;
        let value: Cow<'a, T> = Cow::Owned(inner);
        assert(value.encoding() == inner.encoding());
        Ok(value)
    }
}

impl Serialize for String {
    /// The number of the bytes of the text in UTF-8, then those bytes.
    open spec fn encoding(&self) -> Seq<u8> {
        bytes_encoding(encode_utf8(self@))
    }

    fn serialize_to<S: Serializer>(&self, serializer: &mut S) -> (r: Result<()>) {
        assert(self.encoding() == bytes_encoding(encode_utf8(self@)));
        prepend_span(self.as_str().as_bytes(), serializer)
    }
}

impl<'a> Deserialize<'a> for String {
    open spec fn parse(input: Input) -> Parsed {
        text_parse(input)
    }

    fn deserialize_from<D: Deserializer<'a>>(buf: &mut D) -> (r: Result<Self>)
        ensures
            r matches Ok(text) ==> span_parse(old(buf).input()) matches Ok((k, len)) && text@
                == decode_utf8(old(buf).input().bytes.subrange(k, k + len)),
    {
        let ghost input = buf.input();
        assert(Self::parse(input) == text_parse(input));
        assert(Cow::<'a, str>::parse(input) == text_parse(input));
        let value = match Cow::<'a, str>::deserialize_from(buf)? {
            Cow::Borrowed(lent) => lent.to_owned(),
            Cow::Owned(owned) => owned,
        };
        assert(value.encoding() == bytes_encoding(encode_utf8(value@)));
        Ok(value)
    }
}

/// A run of bytes is found again behind its length, whatever follows it, and
/// in input in one piece it can be lent.
pub proof fn lemma_span_round_trip(payload: Seq<u8>, rest: Seq<u8>)
    requires
        bytes_encoding(payload).len() + rest.len() <= usize::MAX,
    ensures
        span_parse(Input::whole(bytes_encoding(payload) + rest)) matches Ok((k, len)) && {
            &&& k == varint_encoding(payload.len() as u64).len()
            &&& len == payload.len()
            &&& (bytes_encoding(payload) + rest).subrange(k, k + len) == payload
            &&& Input::whole(bytes_encoding(payload) + rest).skip(k).lends(len)
        },
{
    let count = varint_encoding(payload.len() as u64);
    let all = bytes_encoding(payload) + rest;
    assert(all =~= count + (payload + rest));
    lemma_varint_round_trip(payload.len() as u64, payload + rest);
    lemma_varint_encoding_len(payload.len() as u64);
    Input::lemma_whole_parts(all, count.len() as int);
    assert(all.subrange(count.len() as int, (count.len() + payload.len()) as int) =~= payload);
}

impl<'a> RoundTrip<'a> for &'a [u8] {
    proof fn lemma_round_trip(&self, rest: Seq<u8>) {
        assert(self.encoding() == bytes_encoding((*self)@));
        lemma_span_round_trip((*self)@, rest);
    }
}

impl<'a> RoundTrip<'a> for &'a str {
    proof fn lemma_round_trip(&self, rest: Seq<u8>) {
        assert(self.encoding() == bytes_encoding(self.spec_bytes()));
        lemma_span_round_trip(self.spec_bytes(), rest);
        encode_utf8_valid_utf8((*self)@);
    }
}

impl<'a> RoundTrip<'a> for Cow<'a, [u8]> {
    proof fn lemma_round_trip(&self, rest: Seq<u8>) {
        assert(self.encoding() == bytes_encoding(self@));
        lemma_span_round_trip(self@, rest);
    }
}

impl<'a> Owning<'a> for Cow<'a, [u8]> {
    proof fn lemma_pieces_ignored(a: Input, b: Input) {
    }
}

impl<'a> RoundTrip<'a> for Cow<'a, str> {
    proof fn lemma_round_trip(&self, rest: Seq<u8>) {
        assert(self.encoding() == bytes_encoding(encode_utf8(self@)));
        lemma_span_round_trip(encode_utf8(self@), rest);
        encode_utf8_valid_utf8(self@);
    }
}

impl<'a> Owning<'a> for Cow<'a, str> {
    proof fn lemma_pieces_ignored(a: Input, b: Input) {
    }
}

impl<'a> RoundTrip<'a> for String {
    proof fn lemma_round_trip(&self, rest: Seq<u8>) {
        assert(self.encoding() == bytes_encoding(encode_utf8(self@)));
        lemma_span_round_trip(encode_utf8(self@), rest);
        encode_utf8_valid_utf8(self@);
    }
}

impl<'a> Owning<'a> for String {
    proof fn lemma_pieces_ignored(a: Input, b: Input) {
    }
}

} // verus!
