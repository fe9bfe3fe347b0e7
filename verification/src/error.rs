//! The failures of decoding, which travel as a tagged union themselves.

use crate::collections::sequence_encoding;
use crate::deserializer::{Deserializer, Input};
use crate::fixed::{le_bytes, lemma_le_bytes_len};
use crate::laws::RoundTrip;
use crate::primitive::preceded;
use crate::record::{
    deserialize_field, deserialize_record, field_parse, lemma_field_present,
    lemma_record_spans_payload, record_encoding, record_parse, select_variant, serialize_len,
    unknown_variant_text, variant_index,
};
use crate::serializer::Serializer;
use crate::string::{
    bytes_encoding, lemma_span_round_trip, lent_text_parse, tag_parse, text_encoding,
};
use crate::varint64::{lemma_varint_encoding_len, varint_encoding};
use crate::{Deserialize, DetailedDeserialize, Parsed, Serialize};
use vstd::prelude::*;
use crate::text::{bracketed, decimal, push_bracketed, push_decimal};
use vstd::string::StringExecFns;
use vstd::utf8::{encode_utf8, encode_utf8_decode_utf8, encode_utf8_valid_utf8};

verus! {

/// Why a value could not be decoded.
#[derive(Debug, PartialEq)]
pub enum Error {
    Default,
    /// The input holds fewer bytes than were asked for.
    DataIsShort { expect: usize, actual: usize },
    /// A byte other than 0 and 1 where a boolean stands.
    InvalidBool(u8),
    /// A number that is no Unicode scalar value where a character stands.
    InvalidChar(u32),
    /// Bytes that are no UTF-8 where text stands, or text that could not be
    /// lent because it lies across two segments (then no bytes are kept).
    InvalidString(Vec<u8>),
    /// The element at the given index of a fixed-size sequence failed to decode.
    InvalidLength(usize, String),
    /// Ten groups of a variable-length integer went by without a last one.
    VarintIsShort,
    /// A tagged union's tag names none of its variants.
    InvalidType(String),
    InvalidValue(String),
}

pub type Result<T> = std::result::Result<T, Error>;

/// An [`Error`] with the bytes and text it carries as sequences.
pub enum Failure {
    Default,
    DataIsShort { expect: usize, actual: usize },
    InvalidBool(u8),
    InvalidChar(u32),
    InvalidString(Seq<u8>),
    InvalidLength(usize, Seq<char>),
    VarintIsShort,
    InvalidType(Seq<char>),
    InvalidValue(Seq<char>),
}

impl Failure {
    /// What the failure says in words.
    pub open spec fn message(self) -> Seq<char> {
        match self {
            Failure::Default => "default"@,
            Failure::DataIsShort { expect, actual } => "data is short for deserialize: expect "@
                + decimal(expect as nat) + ", actual "@ + decimal(actual as nat),
            Failure::InvalidBool(v) => "invalid bool: "@ + decimal(v as nat),
            Failure::InvalidChar(v) => "invalid char: "@ + decimal(v as nat),
            Failure::InvalidString(bytes) => "invalid string: "@ + bracketed(bytes),
            Failure::InvalidLength(index, cause) => "invalid length: "@ + decimal(index as nat)
                + ", "@ + cause,
            Failure::VarintIsShort => "varint is short"@,
            Failure::InvalidType(name) => "invalid type: "@ + name,
            Failure::InvalidValue(text) => "invalid value: "@ + text,
        }
    }
}

impl View for Error {
    type V = Failure;

    open spec fn view(&self) -> Failure {
        match self {
            Error::Default => Failure::Default,
            Error::DataIsShort { expect, actual } => Failure::DataIsShort {
                expect: *expect,
                actual: *actual,
            },
            Error::InvalidBool(v) => Failure::InvalidBool(*v),
            Error::InvalidChar(v) => Failure::InvalidChar(*v),
            Error::InvalidString(bytes) => Failure::InvalidString(bytes@),
            Error::InvalidLength(index, cause) => Failure::InvalidLength(*index, cause@),
            Error::VarintIsShort => Failure::VarintIsShort,
            Error::InvalidType(name) => Failure::InvalidType(name@),
            Error::InvalidValue(text) => Failure::InvalidValue(text@),
        }
    }
}

impl Default for Error {
    fn default() -> (r: Self)
        ensures
            r == Error::Default,
    {
        Error::Default
    }
}

/// The names of the variants of [`Error`], in the order in which they are declared.
pub open spec fn error_names() -> Seq<&'static str> {
    seq![
        "Default",
        "DataIsShort",
        "InvalidBool",
        "InvalidChar",
        "InvalidString",
        "InvalidLength",
        "VarintIsShort",
        "InvalidType",
        "InvalidValue",
    ]
}

/// What reading a variant's fields comes to that follow a tag of the wire
/// form `tag` and of `used` bytes: the wire form of the whole value.
pub open spec fn variant_parse(tag: Seq<u8>, used: int, fields: Parsed) -> Parsed {
    match fields {
        Ok((wire, further)) => Ok((record_encoding(tag + wire), used + further)),
        Err(failure) => Err(failure),
    }
}

/// What reading the fields of the variant of [`Error`] at `index` comes to.
pub open spec fn error_fields_parse(index: int, rest: Input) -> Parsed {
    let number = le_bytes(0, 8);
    let bytes = sequence_encoding(Seq::<u8>::empty());
    let text = text_encoding(Seq::empty());
    if index == 1 {
        match field_parse(rest, number, usize::parse(rest)) {
            Ok((expect, used)) => preceded(
                expect,
                used,
                field_parse(rest.skip(used), number, usize::parse(rest.skip(used))),
            ),
            Err(failure) => Err(failure),
        }
    } else if index == 2 {
        field_parse(rest, le_bytes(0, 1), u8::parse(rest))
    } else if index == 3 {
        field_parse(rest, le_bytes(0, 4), u32::parse(rest))
    } else if index == 4 {
        field_parse(rest, bytes, Vec::<u8>::parse(rest))
    } else if index == 5 {
        match field_parse(rest, number, usize::parse(rest)) {
            Ok((at, used)) => preceded(
                at,
                used,
                field_parse(rest.skip(used), text, String::parse(rest.skip(used))),
            ),
            Err(failure) => Err(failure),
        }
    } else if index == 7 || index == 8 {
        field_parse(rest, text, String::parse(rest))
    } else {
        Ok((Seq::empty(), 0))
    }
}

impl Error {
    /// The name of the variant.
    pub open spec fn variant_name(&self) -> Seq<char> {
        match self {
            Error::Default => "Default"@,
            Error::DataIsShort { .. } => "DataIsShort"@,
            Error::InvalidBool(_) => "InvalidBool"@,
            Error::InvalidChar(_) => "InvalidChar"@,
            Error::InvalidString(_) => "InvalidString"@,
            Error::InvalidLength(_, _) => "InvalidLength"@,
            Error::VarintIsShort => "VarintIsShort"@,
            Error::InvalidType(_) => "InvalidType"@,
            Error::InvalidValue(_) => "InvalidValue"@,
        }
    }

    /// The wire forms of the variant's fields, in the order in which they are declared.
    pub open spec fn fields_encoding(&self) -> Seq<u8> {
        match self {
            Error::Default => Seq::empty(),
            Error::DataIsShort { expect, actual } => expect.encoding() + actual.encoding(),
            Error::InvalidBool(v) => v.encoding(),
            Error::InvalidChar(v) => v.encoding(),
            Error::InvalidString(bytes) => bytes.encoding(),
            Error::InvalidLength(index, cause) => index.encoding() + cause.encoding(),
            Error::VarintIsShort => Seq::empty(),
            Error::InvalidType(name) => name.encoding(),
            Error::InvalidValue(text) => text.encoding(),
        }
    }

    /// What the error says in words.
    pub open spec fn message(&self) -> Seq<char> {
        self@.message()
    }

    /// Returns what the error says in words.
    pub fn to_string(&self) -> (text: String)
        ensures
            text@ == self.message(),
    {
        match self {
            Error::Default => String::from_str("default"),
            Error::DataIsShort { expect, actual } => {
                let mut text = String::from_str("data is short for deserialize: expect ");
                push_decimal(&mut text, *expect as u128);
                text.append(", actual ");
                push_decimal(&mut text, *actual as u128);
                text
            },
            Error::InvalidBool(v) => {
                let mut text = String::from_str("invalid bool: ");
                push_decimal(&mut text, *v as u128);
                text
            },
            Error::InvalidChar(v) => {
                let mut text = String::from_str("invalid char: ");
                push_decimal(&mut text, *v as u128);
                text
            },
            Error::InvalidString(bytes) => {
                let mut text = String::from_str("invalid string: ");
                push_bracketed(&mut text, bytes.as_slice());
                text
            },
            Error::InvalidLength(index, cause) => {
                let mut text = String::from_str("invalid length: ");
                push_decimal(&mut text, *index as u128);
                text.append(", ");
                text.append(cause.as_str());
                text
            },
            Error::VarintIsShort => String::from_str("varint is short"),
            Error::InvalidType(name) => {
                let mut text = String::from_str("invalid type: ");
                text.append(name.as_str());
                text
            },
            Error::InvalidValue(value) => {
                let mut text = String::from_str("invalid value: ");
                text.append(value.as_str());
                text
            },
        }
    }

    /// Returns the name of the variant.
    pub fn name(&self) -> (name: &'static str)
        ensures
            name@ == self.variant_name(),
    {
        match self {
            Error::Default => "Default",
            Error::DataIsShort { .. } => "DataIsShort",
            Error::InvalidBool(_) => "InvalidBool",
            Error::InvalidChar(_) => "InvalidChar",
            Error::InvalidString(_) => "InvalidString",
            Error::InvalidLength(_, _) => "InvalidLength",
            Error::VarintIsShort => "VarintIsShort",
            Error::InvalidType(_) => "InvalidType",
            Error::InvalidValue(_) => "InvalidValue",
        }
    }
}

/// An error is written as a tagged union: its length, the name of its
/// variant, and the variant's fields.
impl Serialize for Error {
    open spec fn encoding(&self) -> Seq<u8> {
        record_encoding(text_encoding(self.variant_name()) + self.fields_encoding())
    }

    fn serialize_to<S: Serializer>(&self, serializer: &mut S) -> (r: Result<()>) {
        let ghost start = serializer.sink();
        let ghost tag = text_encoding(self.variant_name());
        let ghost fields = self.fields_encoding();
        assert(self.encoding() == record_encoding(tag + fields));
        let begin = serializer.len();
        proof {
            start.lemma_prepend_nothing();
        }
        match self {
            Error::Default => {},
            Error::DataIsShort { expect, actual } => {
                actual.serialize_to(serializer)?;
                proof {
                    start.lemma_prepend_twice(actual.encoding(), expect.encoding());
                }
                expect.serialize_to(serializer)?;
            },
            Error::InvalidBool(v) => {
                v.serialize_to(serializer)?;
            },
            Error::InvalidChar(v) => {
                v.serialize_to(serializer)?;
            },
            Error::InvalidString(bytes) => {
                bytes.serialize_to(serializer)?;
            },
            Error::InvalidLength(index, cause) => {
                cause.serialize_to(serializer)?;
                proof {
                    start.lemma_prepend_twice(cause.encoding(), index.encoding());
                }
                index.serialize_to(serializer)?;
            },
            Error::VarintIsShort => {},
            Error::InvalidType(name) => {
                name.serialize_to(serializer)?;
            },
            Error::InvalidValue(text) => {
                text.serialize_to(serializer)?;
            },
        }
        assert(serializer.sink() == start.prepend(fields));
        let name = self.name();
        assert(name.encoding() == tag);
        proof {
            start.lemma_prepend_twice(fields, tag);
        }
        name.serialize_to(serializer)?;
        proof {
            start.lemma_prepend_twice(
                tag + fields,
                varint_encoding((tag + fields).len() as u64),
            );
        }
        serialize_len(serializer, begin)
    }
}

/// What reading the name of a variant of [`Error`] and then its fields comes
/// to. A name that no variant has is a failure that names it.
pub open spec fn error_parse(input: Input) -> Parsed {
    match tag_parse(input) {
        Ok((tag, used)) => {
            let index = variant_index(error_names(), tag);
            if index < error_names().len() {
                variant_parse(
                    text_encoding(tag),
                    used,
                    error_fields_parse(index, input.skip(used)),
                )
            } else {
                Err(Failure::InvalidType(unknown_variant_text("Error"@, tag)))
            }
        },
        Err(failure) => Err(failure),
    }
}

/// Reads the fields of the variant at `index` and makes the value.
fn read_variant<'a, D: Deserializer<'a>>(index: usize, buf: &mut D) -> (r: Result<Error>)
    requires
        index < error_names().len(),
    ensures
        match error_fields_parse(index as int, old(buf).input()) {
            Ok((wire, used)) => {
                &&& r matches Ok(value)
                &&& value.fields_encoding() == wire
                &&& value.variant_name() == error_names()[index as int]@
                &&& 0 <= used <= old(buf).input().len()
                &&& final(buf).input() == old(buf).input().skip(used)
            },
            Err(failure) => r matches Err(e) && e@ == failure,
        },
{
    let ghost rest = buf.input();
    proof {
        buf.lemma_input_wf();
        rest.lemma_skip_skip(0, 0);
    }
    if index == 1 {
        let expect = deserialize_field::<usize, D>(buf)?;
        let ghost used = field_parse(rest, le_bytes(0, 8), usize::parse(rest))->Ok_0.1;
        let actual = deserialize_field::<usize, D>(buf)?;
        proof {
            let after = rest.skip(used);
            rest.lemma_skip_skip(
                used,
                field_parse(after, le_bytes(0, 8), usize::parse(after))->Ok_0.1,
            );
        }
        Ok(Error::DataIsShort { expect, actual })
    } else if index == 2 {
        let v = deserialize_field::<u8, D>(buf)?;
        Ok(Error::InvalidBool(v))
    } else if index == 3 {
        let v = deserialize_field::<u32, D>(buf)?;
        Ok(Error::InvalidChar(v))
    } else if index == 4 {
        let bytes = deserialize_field::<Vec<u8>, D>(buf)?;
        assert(bytes@.len() == 0 ==> bytes@ =~= Seq::<u8>::empty());
        Ok(Error::InvalidString(bytes))
    } else if index == 5 {
        let at = deserialize_field::<usize, D>(buf)?;
        let ghost used = field_parse(rest, le_bytes(0, 8), usize::parse(rest))->Ok_0.1;
        let cause = deserialize_field::<String, D>(buf)?;
        proof {
            let after = rest.skip(used);
            rest.lemma_skip_skip(
                used,
                field_parse(after, text_encoding(Seq::empty()), String::parse(after))->Ok_0.1,
            );
        }
        Ok(Error::InvalidLength(at, cause))
    } else if index == 7 {
        let text = deserialize_field::<String, D>(buf)?;
        Ok(Error::InvalidType(text))
    } else if index == 8 {
        let text = deserialize_field::<String, D>(buf)?;
        Ok(Error::InvalidValue(text))
    } else if index == 0 {
        Ok(Error::Default)
    } else {
        Ok(Error::VarintIsShort)
    }
}

impl<'a> DetailedDeserialize<'a> for Error {
    open spec fn parse_fields(input: Input) -> Parsed {
        error_parse(input)
    }

    fn deserialize_fields<D: Deserializer<'a>>(buf: &mut D) -> (r: Result<Self>) {
        let ghost input = buf.input();
        assert(Self::parse_fields(input) == error_parse(input));
        proof {
            buf.lemma_input_wf();
        }
        assert(<&'a str>::parse(input) == lent_text_parse(input));
        let tag: &'a str = <&'a str>::deserialize_from(buf)?;
        let ghost used = tag_parse(input)->Ok_0.1;
        let ghost rest = buf.input();
        let names = [
            "Default",
            "DataIsShort",
            "InvalidBool",
            "InvalidChar",
            "InvalidString",
            "InvalidLength",
            "VarintIsShort",
            "InvalidType",
            "InvalidValue",
        ];
        assert(names@ =~= error_names());
        let index = select_variant("Error", tag, names.as_slice())?;
        let value = read_variant(index, buf)?;
        proof {
            let further = error_fields_parse(index as int, rest)->Ok_0.1;
            input.lemma_skip_skip(used, further);
            assert(value.encoding() == record_encoding(
                text_encoding(value.variant_name()) + value.fields_encoding(),
            ));
        }
        Ok(value)
    }
}

impl<'a> Deserialize<'a> for Error {
    open spec fn parse(input: Input) -> Parsed {
        record_parse(input, |fields: Input| Error::parse_fields(fields))
    }

    fn deserialize_from<D: Deserializer<'a>>(buf: &mut D) -> (r: Result<Self>) {
        assert(Self::parse(buf.input()) == record_parse(
            buf.input(),
            |fields: Input| Error::parse_fields(fields),
        ));
        deserialize_record::<Error, D>(buf)
    }
}

impl Error {
    /// The place of the variant among the variants, in the order in which
    /// they are declared.
    pub open spec fn variant_place(&self) -> int {
        match self {
            Error::Default => 0,
            Error::DataIsShort { .. } => 1,
            Error::InvalidBool(_) => 2,
            Error::InvalidChar(_) => 3,
            Error::InvalidString(_) => 4,
            Error::InvalidLength(_, _) => 5,
            Error::VarintIsShort => 6,
            Error::InvalidType(_) => 7,
            Error::InvalidValue(_) => 8,
        }
    }

    /// The name of a variant is found at the variant's place, and nowhere
    /// before it.
    pub proof fn lemma_variant_place(&self)
        ensures
            variant_index(error_names(), self.variant_name()) == self.variant_place(),
    {
        reveal_with_fuel(variant_index, 10);
        reveal_strlit("Default");
        reveal_strlit("DataIsShort");
        reveal_strlit("InvalidBool");
        reveal_strlit("InvalidChar");
        reveal_strlit("InvalidString");
        reveal_strlit("InvalidLength");
        reveal_strlit("VarintIsShort");
        reveal_strlit("InvalidType");
        reveal_strlit("InvalidValue");
        let names = error_names();
        let n1 = names.drop_first();
        let n2 = n1.drop_first();
        let n3 = n2.drop_first();
        let n4 = n3.drop_first();
        let n5 = n4.drop_first();
        let n6 = n5.drop_first();
        let n7 = n6.drop_first();
        let n8 = n7.drop_first();
        assert(names[0]@ == "Default"@);
        assert(n1[0]@ == "DataIsShort"@);
        assert(n2[0]@ == "InvalidBool"@);
        assert(n3[0]@ == "InvalidChar"@);
        assert(n4[0]@ == "InvalidString"@);
        assert(n5[0]@ == "InvalidLength"@);
        assert(n6[0]@ == "VarintIsShort"@);
        assert(n7[0]@ == "InvalidType"@);
        assert(n8[0]@ == "InvalidValue"@);
        assert("Default"@.len() == 7);
        assert("DataIsShort"@.len() == 11);
        assert("InvalidBool"@[7] == 'B');
        assert("InvalidChar"@[7] == 'C');
        assert("InvalidString"@[7] == 'S');
        assert("InvalidLength"@[7] == 'L');
        assert("VarintIsShort"@[0] == 'V');
        assert("InvalidType"@[7] == 'T');
        assert("InvalidValue"@[7] == 'V');
        assert("InvalidValue"@.len() == 12);
        assert("InvalidType"@.len() == 11);
        assert("DataIsShort"@[0] == 'D');
        assert("InvalidBool"@[0] == 'I');
        assert("InvalidBool"@.len() == 11);
        assert("InvalidChar"@.len() == 11);
        assert("InvalidString"@.len() == 13);
        assert("InvalidLength"@.len() == 13);
        assert("VarintIsShort"@.len() == 13);
    }
}

impl<'a> RoundTrip<'a> for Error {
    proof fn lemma_round_trip(&self, rest: Seq<u8>) {
        let name = self.variant_name();
        let tag = text_encoding(name);
        let fields = self.fields_encoding();
        let payload = tag + fields;
        let number = le_bytes(0, 8);
        let text = text_encoding(Seq::empty());
        assert(self.encoding() == record_encoding(payload));
        lemma_record_spans_payload(payload, rest);
        lemma_span_round_trip(encode_utf8(name), fields);
        encode_utf8_valid_utf8(name);
        encode_utf8_decode_utf8(name);
        self.lemma_variant_place();
        Input::lemma_whole_parts(payload, tag.len() as int);
        assert(payload.skip(tag.len() as int) =~= fields);
        assert(fields + Seq::<u8>::empty() =~= fields);
        assert(tag + Seq::<u8>::empty() =~= tag);
        match self {
            Error::DataIsShort { expect, actual } => {
                lemma_le_bytes_len(*expect as nat, 8);
                lemma_le_bytes_len(*actual as nat, 8);
                assert(expect.encoding() == le_bytes(*expect as nat, 8));
                assert(actual.encoding() == le_bytes(*actual as nat, 8));
                lemma_field_present(*expect, number, actual.encoding());
                Input::lemma_whole_parts(fields, 8);
                assert(fields.skip(8) =~= actual.encoding());
                assert(actual.encoding() + Seq::<u8>::empty() =~= actual.encoding());
                lemma_field_present(*actual, number, Seq::empty());
            },
            Error::InvalidBool(v) => {
                lemma_le_bytes_len(*v as nat, 1);
                assert(v.encoding() == le_bytes(*v as nat, 1));
                lemma_field_present(*v, le_bytes(0, 1), Seq::empty());
            },
            Error::InvalidChar(v) => {
                lemma_le_bytes_len(*v as nat, 4);
                assert(v.encoding() == le_bytes(*v as nat, 4));
                lemma_field_present(*v, le_bytes(0, 4), Seq::empty());
            },
            Error::InvalidString(bytes) => {
                assert(bytes.encoding() == sequence_encoding(bytes@));
                lemma_varint_encoding_len(bytes@.len() as u64);
                lemma_field_present(*bytes, sequence_encoding(Seq::<u8>::empty()), Seq::empty());
            },
            Error::InvalidLength(index, cause) => {
                lemma_le_bytes_len(*index as nat, 8);
                assert(index.encoding() == le_bytes(*index as nat, 8));
                assert(cause.encoding() == bytes_encoding(encode_utf8(cause@)));
                lemma_varint_encoding_len(encode_utf8(cause@).len() as u64);
                lemma_field_present(*index, number, cause.encoding());
                Input::lemma_whole_parts(fields, 8);
                assert(fields.skip(8) =~= cause.encoding());
                assert(cause.encoding() + Seq::<u8>::empty() =~= cause.encoding());
                lemma_field_present(*cause, text, Seq::empty());
            },
            Error::InvalidType(name) => {
                assert(name.encoding() == bytes_encoding(encode_utf8(name@)));
                lemma_varint_encoding_len(encode_utf8(name@).len() as u64);
                lemma_field_present(*name, text, Seq::empty());
            },
            Error::InvalidValue(value) => {
                assert(value.encoding() == bytes_encoding(encode_utf8(value@)));
                lemma_varint_encoding_len(encode_utf8(value@).len() as u64);
                lemma_field_present(*value, text, Seq::empty());
            },
            _ => {},
        }
    }
}

} // verus!
