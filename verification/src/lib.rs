//! A compact binary wire format: values are written back to front into a
//! buffer that grows downward, and read front to back from a cursor over one
//! slice or a chain of slices.

pub mod array;
pub mod bytes_array;
pub mod collections;
pub mod compact;
pub mod deserializer;
pub mod downward_bytes;
pub mod duration;
pub mod error;
pub mod fixed;
pub mod ints;
pub mod laws;
pub mod ordered;
pub mod primitive;
pub mod record;
pub mod serializer;
pub mod string;
pub mod text;
pub mod tuple;
pub mod unordered;
pub mod varint64;

pub use bytes_array::BytesArray;
pub use deserializer::{Deserializer, Input};
pub use downward_bytes::DownwardBytes;
pub use error::{Error, Failure, Result};
pub use serializer::{Serializer, Sink};
pub use varint64::VarInt64;

use vstd::prelude::*;

verus! {

/// A value that can be written to a [`Serializer`].
pub trait Serialize {
    /// The bytes that stand for the value on the wire. A type that states
    /// none leaves them unknown.
    open spec fn encoding(&self) -> Seq<u8> {
        arbitrary()
    }

    /// Writes the value into a new sink and returns the sink.
    fn serialize<S: Serializer + Default>(&self) -> (r: Result<S>)
        requires
            forall|fresh: S| #[trigger]
                call_ensures(S::default, (), fresh) ==> fresh.sink().count + self.encoding().len()
                    <= usize::MAX,
        ensures
            r matches Ok(sink) ==> exists|fresh: S| #[trigger]
                call_ensures(S::default, (), fresh) && sink.sink() == fresh.sink().prepend(
                    self.encoding(),
                ),
            (forall|fresh: S| #[trigger]
                call_ensures(S::default, (), fresh) ==> fresh.sink().dependable) ==> r is Ok,
    {
        let mut serializer = S::default();
        match self.serialize_to(&mut serializer) {
            Ok(()) => Ok(serializer),
            Err(e) => Err(e),
        }
    }

    /// Writes the value in front of what `serializer` holds.
    fn serialize_to<S: Serializer>(&self, serializer: &mut S) -> (r: Result<()>)
        requires
            old(serializer).sink().count + self.encoding().len() <= usize::MAX,
        ensures
            r is Ok ==> final(serializer).sink() == old(serializer).sink().prepend(
                self.encoding(),
            ),
            old(serializer).sink().dependable ==> r is Ok,
    ;
}

/// What decoding comes to: on success the wire form of the value and the
/// number of bytes read.
pub type Parsed = std::result::Result<(Seq<u8>, int), Failure>;

/// A value that can be read from a [`Deserializer`].
pub trait Deserialize<'a>: Serialize + Sized {
    /// What decoding `input` comes to. A type that states nothing leaves it
    /// unknown.
    open spec fn parse(input: Input) -> Parsed {
        arbitrary()
    }

    /// Reads a value from the front of `der`.
    fn deserialize<D: Deserializer<'a>>(der: D) -> (r: Result<Self>)
        ensures
            match Self::parse(der.input()) {
                Ok((wire, used)) => r matches Ok(value) && value.encoding() == wire,
                Err(failure) => r matches Err(e) && e@ == failure,
            },
    {
        let mut der = der;
        Self::deserialize_from(&mut der)
    }

    /// Reads a value from the front of `buf` and moves `buf` past it.
    fn deserialize_from<D: Deserializer<'a>>(buf: &mut D) -> (r: Result<Self>)
        ensures
            match Self::parse(old(buf).input()) {
                Ok((wire, used)) => {
                    &&& r matches Ok(value)
                    &&& value.encoding() == wire
                    &&& 0 <= used <= old(buf).input().len()
                    &&& final(buf).input() == old(buf).input().skip(used)
                },
                Err(failure) => r matches Err(e) && e@ == failure,
            },
    ;
}

/// A record, or a tagged union, that can be read in two steps: first the
/// length that precedes it, then its fields from the bytes that the length
/// spans. What the fields leave unread stays with the caller.
pub trait DetailedDeserialize<'a>: Serialize + Sized {
    /// What reading the fields from `input` comes to: the wire form of the
    /// whole value and the number of bytes read. A type that states nothing
    /// leaves it unknown.
    open spec fn parse_fields(input: Input) -> Parsed {
        arbitrary()
    }

    /// Reads the length that precedes the fields.
    fn deserialize_len<D: Deserializer<'a>>(buf: &mut D) -> (r: Result<usize>)
        ensures
            match varint64::varint_parse(old(buf).input().bytes) {
                Ok((v, used)) => {
                    &&& r == Ok::<usize, Error>(v as usize)
                    &&& final(buf).input() == old(buf).input().skip(used)
                },
                Err(failure) => r matches Err(e) && e@ == failure,
            },
    {
        let ghost input = buf.input();
        assert(VarInt64::parse(input) == (match varint64::varint_parse(input.bytes) {
            Ok((v, n)) => Ok((varint64::varint_encoding(v), n)),
            Err(failure) => Err::<(Seq<u8>, int), Failure>(failure),
        }));
        let count = VarInt64::deserialize_from(buf)?;
        Ok(#[verifier::truncate] (count.0 as usize))
    }

    /// Reads the fields, each in its turn; a field for which no bytes are
    /// left takes its default.
    fn deserialize_fields<D: Deserializer<'a>>(buf: &mut D) -> (r: Result<Self>)
        ensures
            match Self::parse_fields(old(buf).input()) {
                Ok((wire, used)) => {
                    &&& r matches Ok(value)
                    &&& value.encoding() == wire
                    &&& 0 <= used <= old(buf).input().len()
                    &&& final(buf).input() == old(buf).input().skip(used)
                },
                Err(failure) => r matches Err(e) && e@ == failure,
            },
    ;
}

} // verus!
