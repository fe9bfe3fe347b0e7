//! What holds of encoding and decoding taken together.

use crate::bytes_array::{chain_input, flat, lemma_flat_len, total};
use crate::deserializer::Input;
use crate::error::Failure;
use crate::serializer::Sink;
use crate::{Deserialize, Serialize};
use vstd::prelude::*;

verus! {

/// Types whose decoding undoes their encoding.
pub trait RoundTrip<'a>: Deserialize<'a> {
    /// Decoding reads, from input in one piece that starts with the wire form
    /// of a value, just that wire form, and gives a value with that wire form,
    /// whatever follows it.
    proof fn lemma_round_trip(&self, rest: Seq<u8>)
        requires
            self.encoding().len() + rest.len() <= usize::MAX,
        ensures
            Self::parse(Input::whole(self.encoding() + rest)) == Ok::<(Seq<u8>, int), Failure>(
                (self.encoding(), self.encoding().len() as int),
            ),
    ;
}

/// Types whose values are told apart by their wire forms.
pub trait Plain<'a>: RoundTrip<'a> {
    /// Two values with one wire form are one value.
    proof fn lemma_same_wire(&self, other: &Self)
        requires
            self.encoding() == other.encoding(),
        ensures
            *self == *other,
    ;
}

/// Types whose decoding lends nothing, so that it does not matter in how many
/// pieces the input lies.
pub trait Owning<'a>: Deserialize<'a> {
    /// Decoding comes to the same on inputs with the same bytes.
    proof fn lemma_pieces_ignored(a: Input, b: Input)
        requires
            a.bytes == b.bytes,
        ensures
            Self::parse(a) == Self::parse(b),
    ;
}

/// Round trip: what decoding gives from the wire form of a value of a plain
/// type is that value, and decoding reads the wire form and no more.
pub proof fn lemma_decode_encode<'a, T: Plain<'a>>(value: T, rest: Seq<u8>, decoded: T)
    requires
        value.encoding().len() + rest.len() <= usize::MAX,
        T::parse(Input::whole(value.encoding() + rest)) matches Ok((wire, _)) ==> decoded.encoding()
            == wire,
    ensures
        T::parse(Input::whole(value.encoding() + rest)) matches Ok((_, used)) && used
            == value.encoding().len(),
        decoded == value,
{
    value.lemma_round_trip(rest);
    decoded.lemma_same_wire(&value);
}

/// Length accounting: the buffer that a value is written to takes as many
/// bytes as a counter counts to which the value is written.
pub proof fn lemma_length_accounting<T: Serialize + ?Sized>(value: &T)
    ensures
        Sink::empty_buffer().prepend(value.encoding()).held == Some(value.encoding()),
        Sink::empty_buffer().prepend(value.encoding()).count == Sink::zero_count().prepend(
            value.encoding(),
        ).count,
        Sink::zero_count().prepend(value.encoding()).count == value.encoding().len(),
{
    assert(value.encoding() + Seq::<u8>::empty() =~= value.encoding());
}

/// Segmented equivalence: a value of an owning type decodes from bytes that
/// lie in several slices, however they are split, as it does from the same
/// bytes in one slice.
pub proof fn lemma_segmented_equivalence<'a, T: Owning<'a>>(segs: Seq<&[u8]>)
    ensures
        T::parse(chain_input(segs, 0, total(segs) as int)) == T::parse(Input::whole(flat(segs))),
{
    lemma_flat_len(segs);
    let pieces = chain_input(segs, 0, total(segs) as int);
    assert(pieces.bytes =~= flat(segs));
    T::lemma_pieces_ignored(pieces, Input::whole(flat(segs)));
}

} // verus!
