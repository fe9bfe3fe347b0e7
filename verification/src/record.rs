//! Records and tagged unions: a length, and behind it the fields in the
//! order in which they are declared.

use crate::deserializer::{Deserializer, Input};
use crate::error::{Error, Failure, Result};
use crate::laws::RoundTrip;
use crate::primitive::preceded;
use crate::serializer::Serializer;
use crate::string::{bytes_encoding, lemma_span_round_trip, span_parse};
use crate::varint64::{
    lemma_varint_scan_bounds, varint_encoding, varint_parse, VarInt64, MAX_GROUPS,
};
use crate::{Deserialize, DetailedDeserialize, Parsed, Serialize};
use vstd::prelude::*;
use vstd::string::StringExecFns;
use vstd::utf8::{decode_utf8, encode_utf8, encode_utf8_decode_utf8};

verus! {

/// The wire form of a record, or of a variant of a tagged union: the number
/// of the bytes that follow, then `payload`, which holds the fields in the
/// order in which they are declared, after the variant's name where there is
/// one.
pub open spec fn record_encoding(payload: Seq<u8>) -> Seq<u8> {
    bytes_encoding(payload)
}

/// What reading a record comes to. Its length is read; `fields` is what
/// reading the fields comes to on the bytes that the length spans. Bytes that
/// the fields leave unread are passed over.
pub open spec fn record_parse(input: Input, fields: spec_fn(Input) -> Parsed) -> Parsed {
    match span_parse(input) {
        Ok((k, len)) => match fields(input.skip(k).take(len)) {
            Ok((wire, _)) => Ok((wire, k + len)),
            Err(failure) => Err(failure),
        },
        Err(failure) => Err(failure),
    }
}

/// What reading a field comes to: where the record's bytes have run out,
/// nothing is read and the field has the wire form `fallback`, that of its
/// default.
pub open spec fn field_parse(input: Input, fallback: Seq<u8>, field: Parsed) -> Parsed {
    if input.len() == 0 {
        Ok((fallback, 0))
    } else {
        field
    }
}

/// The index of the first of `names` that is `tag`, or the length of `names`
/// where none is.
pub open spec fn variant_index(names: Seq<&str>, tag: Seq<char>) -> int
    decreases names.len(),
{
    if names.len() == 0 {
        0
    } else if names[0]@ == tag {
        0
    } else {
        1 + variant_index(names.drop_first(), tag)
    }
}

/// The text that names a tag which no variant of the type named `owner` has.
pub open spec fn unknown_variant_text(owner: Seq<char>, tag: Seq<char>) -> Seq<char> {
    owner + "::"@ + tag
}

/// `variant_index` points at a name that is `tag`, or past the last name
/// where none is.
pub proof fn lemma_variant_index(names: Seq<&str>, tag: Seq<char>)
    ensures
        0 <= variant_index(names, tag) <= names.len(),
        variant_index(names, tag) < names.len() ==> names[variant_index(names, tag)]@ == tag,
        forall|j: int| 0 <= j < variant_index(names, tag) ==> (#[trigger] names[j])@ != tag,
    decreases names.len(),
{
    if names.len() != 0 && names[0]@ != tag {
        let rest = names.drop_first();
        lemma_variant_index(rest, tag);
        assert forall|j: int| 0 <= j < variant_index(names, tag) implies (#[trigger] names[j])@
            != tag by {
            if j > 0 {
                assert(names[j] == rest[j - 1]);
            }
        }
    }
}

/// Returns whether two texts are the same.
pub fn same_text(a: &str, b: &str) -> (same: bool)
    ensures
        same == (a@ == b@),
{
    let left = a.as_bytes();
    let right = b.as_bytes();
    proof {
        encode_utf8_decode_utf8(a@);
        encode_utf8_decode_utf8(b@);
    }
    if left.len() != right.len() {
        return false;
    }
    let mut i: usize = 0;
    while i < left.len()
        invariant
            i <= left@.len(),
            left@.len() == right@.len(),
            left@ == encode_utf8(a@),
            right@ == encode_utf8(b@),
            decode_utf8(encode_utf8(a@)) == a@,
            decode_utf8(encode_utf8(b@)) == b@,
            forall|j: int| 0 <= j < i ==> left@[j] == right@[j],
        decreases left@.len() - i,
    {
        if left[i] != right[i] {
            return false;
        }
        i += 1;
    }
    assert(left@ =~= right@);
    true
}

/// Finds the variant that `tag` names among `names`, the names of the
/// variants of the type named `owner` in the order in which they are declared.
/// Fails, naming the type and the tag, where no variant has that name.
pub fn select_variant(owner: &str, tag: &str, names: &[&str]) -> (r: Result<usize>)
    ensures
        match r {
            Ok(index) => index == variant_index(names@, tag@) && index < names@.len()
                && names@[index as int]@ == tag@,
            Err(e) => variant_index(names@, tag@) == names@.len() && e@ == Failure::InvalidType(
                unknown_variant_text(owner@, tag@),
            ),
        },
{
    proof {
        lemma_variant_index(names@, tag@);
    }
    let mut i: usize = 0;
    while i < names.len()
        invariant
            i <= names@.len(),
            i <= variant_index(names@, tag@) <= names@.len(),
            variant_index(names@, tag@) < names@.len() ==> names@[variant_index(
                names@,
                tag@,
            )]@ == tag@,
            forall|j: int| 0 <= j < variant_index(names@, tag@) ==> (#[trigger] names@[j])@ != tag@,
        decreases names@.len() - i,
    {
        if same_text(names[i], tag) {
            return Ok(i);
        }
        i += 1;
    }
    let mut text = String::from_str(owner);
    text.append("::");
    text.append(tag);
    Err(Error::InvalidType(text))
}

/// Completes a record: writes, in front of the fields, the number of bytes
/// that the sink has taken since it held `start` bytes.
pub fn serialize_len<S: Serializer>(serializer: &mut S, start: usize) -> (r: Result<()>)
    requires
        start <= old(serializer).sink().count,
        old(serializer).sink().count + varint_encoding(
            (old(serializer).sink().count - start) as u64,
        ).len() <= usize::MAX,
    ensures
        r is Ok ==> final(serializer).sink() == old(serializer).sink().prepend(
            varint_encoding((old(serializer).sink().count - start) as u64),
        ),
        old(serializer).sink().dependable ==> r is Ok,
{
    let len = serializer.len() - start;
    let count = VarInt64(len as u64);
    assert(count.encoding() == varint_encoding(len as u64));
    count.serialize_to(serializer)
}

/// Reads a record: its length, and then its fields from the bytes that the
/// length spans. The cursor moves past all of them, read by a field or not.
pub fn deserialize_record<'a, T: DetailedDeserialize<'a>, D: Deserializer<'a>>(buf: &mut D) -> (r:
    Result<T>)
    ensures
        match record_parse(old(buf).input(), |input: Input| T::parse_fields(input)) {
            Ok((wire, used)) => {
                &&& r matches Ok(value)
                &&& value.encoding() == wire
                &&& 0 <= used <= old(buf).input().len()
                &&& final(buf).input() == old(buf).input().skip(used)
            },
            Err(failure) => r matches Err(e) && e@ == failure,
        },
{
    let ghost input = buf.input();
    proof {
        buf.lemma_input_wf();
        lemma_varint_scan_bounds(input.bytes, 0, MAX_GROUPS as nat);
    }
    let len = T::deserialize_len(buf)?;
    let ghost k = varint_parse(input.bytes)->Ok_0.1;
    let mut bounded = buf.advance(len)?;
    proof {
        input.lemma_skip_skip(k, len as int);
    }
    T::deserialize_fields(&mut bounded)
}

/// Reads a field of a record: the field's default where the record's bytes
/// have run out, else the value that stands next.
pub fn deserialize_field<'a, T: Deserialize<'a> + Default, D: Deserializer<'a>>(buf: &mut D) -> (r:
    Result<T>)
    ensures
        old(buf).input().len() == 0 ==> {
            &&& r matches Ok(value)
            &&& call_ensures(T::default, (), value)
            &&& final(buf).input() == old(buf).input()
        },
        old(buf).input().len() > 0 ==> (match T::parse(old(buf).input()) {
            Ok((wire, used)) => {
                &&& r matches Ok(value)
                &&& value.encoding() == wire
                &&& 0 <= used <= old(buf).input().len()
                &&& final(buf).input() == old(buf).input().skip(used)
            },
            Err(failure) => r matches Err(e) && e@ == failure,
        }),
{
    if buf.is_empty() {
        Ok(T::default())
    } else {
        T::deserialize_from(buf)
    }
}

/// What reading two fields, one after the other, comes to; `default_a` and
/// `default_b` are the wire forms of the fields' defaults.
pub open spec fn two_fields_parse<'a, A: Deserialize<'a>, B: Deserialize<'a>>(
    input: Input,
    default_a: Seq<u8>,
    default_b: Seq<u8>,
) -> Parsed {
    match field_parse(input, default_a, A::parse(input)) {
        Ok((a, used)) => preceded(
            a,
            used,
            field_parse(input.skip(used), default_b, B::parse(input.skip(used))),
        ),
        Err(failure) => Err(failure),
    }
}

/// What reading three fields, one after the other, comes to.
pub open spec fn three_fields_parse<
    'a,
    A: Deserialize<'a>,
    B: Deserialize<'a>,
    C: Deserialize<'a>,
>(input: Input, default_a: Seq<u8>, default_b: Seq<u8>, default_c: Seq<u8>) -> Parsed {
    match field_parse(input, default_a, A::parse(input)) {
        Ok((a, used)) => preceded(
            a,
            used,
            two_fields_parse::<B, C>(input.skip(used), default_b, default_c),
        ),
        Err(failure) => Err(failure),
    }
}

/// The bytes of a record are found behind its length, whatever follows the
/// record: the fields are read from just the bytes that were written for them.
pub proof fn lemma_record_spans_payload(payload: Seq<u8>, rest: Seq<u8>)
    requires
        record_encoding(payload).len() + rest.len() <= usize::MAX,
    ensures
        span_parse(Input::whole(record_encoding(payload) + rest)) matches Ok((k, len)) && {
            &&& len == payload.len()
            &&& k + len == record_encoding(payload).len()
            &&& Input::whole(record_encoding(payload) + rest).skip(k).take(len) == Input::whole(
                payload,
            )
        },
{
    let all = record_encoding(payload) + rest;
    lemma_span_round_trip(payload, rest);
    let k = span_parse(Input::whole(all))->Ok_0.0;
    Input::lemma_whole_parts(all, k);
    Input::lemma_whole_parts(all.skip(k), payload.len() as int);
    assert(all.skip(k).take(payload.len() as int) =~= payload);
}

/// A field is read back from its wire form, whatever follows it; where no
/// byte is there at all, the default that it takes has its wire form.
pub proof fn lemma_field_round_trip<'a, A: RoundTrip<'a>>(a: A, default_a: A, rest: Seq<u8>)
    requires
        a.encoding().len() + rest.len() <= usize::MAX,
        a.encoding().len() + default_a.encoding().len() <= usize::MAX,
    ensures
        field_parse(
            Input::whole(a.encoding() + rest),
            default_a.encoding(),
            A::parse(Input::whole(a.encoding() + rest)),
        ) == Ok::<(Seq<u8>, int), Failure>((a.encoding(), a.encoding().len() as int)),
{
    a.lemma_round_trip(rest);
    if (a.encoding() + rest).len() == 0 {
        a.lemma_round_trip(default_a.encoding());
        default_a.lemma_round_trip(Seq::empty());
        assert(a.encoding() + default_a.encoding() =~= default_a.encoding() + Seq::<u8>::empty());
        assert(a.encoding() =~= default_a.encoding());
    }
}

/// A field whose wire form is not empty is read back from it, whatever
/// follows it and whatever its default is.
pub proof fn lemma_field_present<'a, A: RoundTrip<'a>>(a: A, fallback: Seq<u8>, rest: Seq<u8>)
    requires
        a.encoding().len() + rest.len() <= usize::MAX,
        a.encoding().len() > 0,
    ensures
        field_parse(
            Input::whole(a.encoding() + rest),
            fallback,
            A::parse(Input::whole(a.encoding() + rest)),
        ) == Ok::<(Seq<u8>, int), Failure>((a.encoding(), a.encoding().len() as int)),
{
    a.lemma_round_trip(rest);
}

/// Forward compatibility: from a record written with the fields `a`, `b` and
/// `c`, a reader that knows two fields reads `a` and `b`, and leaves exactly
/// the bytes of `c`.
pub proof fn lemma_forward_compatible<'a, A: RoundTrip<'a>, B: RoundTrip<'a>, C: Serialize>(
    a: A,
    b: B,
    c: C,
    default_a: A,
    default_b: B,
)
    requires
        a.encoding().len() + b.encoding().len() + c.encoding().len() <= usize::MAX,
        a.encoding().len() + default_a.encoding().len() <= usize::MAX,
        b.encoding().len() + default_b.encoding().len() <= usize::MAX,
    ensures
        two_fields_parse::<A, B>(
            Input::whole(a.encoding() + (b.encoding() + c.encoding())),
            default_a.encoding(),
            default_b.encoding(),
        ) == Ok::<(Seq<u8>, int), Failure>(
            (a.encoding() + b.encoding(), (a.encoding().len() + b.encoding().len()) as int),
        ),
        Input::whole(a.encoding() + (b.encoding() + c.encoding())).skip(
            (a.encoding().len() + b.encoding().len()) as int,
        ).bytes == c.encoding(),
{
    let payload = a.encoding() + (b.encoding() + c.encoding());
    let after = b.encoding() + c.encoding();
    lemma_field_round_trip(a, default_a, after);
    Input::lemma_whole_parts(payload, a.encoding().len() as int);
    assert(payload.skip(a.encoding().len() as int) =~= after);
    lemma_field_round_trip(b, default_b, c.encoding());
    assert(payload.skip((a.encoding().len() + b.encoding().len()) as int) =~= c.encoding());
}

/// Backward compatibility: from a record written with the fields `a` and
/// `b`, a reader that knows three fields reads `a` and `b`, and gives the
/// third field its default.
pub proof fn lemma_backward_compatible<
    'a,
    A: RoundTrip<'a>,
    B: RoundTrip<'a>,
    C: Deserialize<'a>,
>(a: A, b: B, default_a: A, default_b: B, default_c: C)
    requires
        a.encoding().len() + b.encoding().len() <= usize::MAX,
        a.encoding().len() + default_a.encoding().len() <= usize::MAX,
        b.encoding().len() + default_b.encoding().len() <= usize::MAX,
    ensures
        three_fields_parse::<A, B, C>(
            Input::whole(a.encoding() + b.encoding()),
            default_a.encoding(),
            default_b.encoding(),
            default_c.encoding(),
        ) == Ok::<(Seq<u8>, int), Failure>(
            (
                a.encoding() + (b.encoding() + default_c.encoding()),
                (a.encoding().len() + b.encoding().len()) as int,
            ),
        ),
{
    let payload = a.encoding() + b.encoding();
    lemma_field_round_trip(a, default_a, b.encoding());
    Input::lemma_whole_parts(payload, a.encoding().len() as int);
    assert(payload.skip(a.encoding().len() as int) =~= b.encoding());
    assert(b.encoding() + Seq::<u8>::empty() =~= b.encoding());
    lemma_field_round_trip(b, default_b, Seq::empty());
    Input::lemma_whole_parts(b.encoding(), b.encoding().len() as int);
    assert(b.encoding().skip(b.encoding().len() as int) =~= Seq::<u8>::empty());
}

} // verus!
