//! Text that is held by a `compact_str::CompactString`.

use crate::deserializer::{Deserializer, Input};
use crate::error::Result;
use crate::serializer::Serializer;
use crate::string::{lent_text_parse, text_encoding};
use crate::{Deserialize, Parsed, Serialize};
use compact_str::CompactString;
use vstd::prelude::*;

verus! {

/// Text in a `compact_str::CompactString`, which keeps short text in place
/// and longer text on the heap.
#[verifier::external_body]
pub struct CompactText {
    inner: CompactString,
}

/// The characters that the text holds.
pub uninterp spec fn compact_text(text: CompactText) -> Seq<char>;

impl View for CompactText {
    type V = Seq<char>;

    open spec fn view(&self) -> Seq<char> {
        compact_text(*self)
    }
}

/// `CompactString::new`: makes compact text that holds `text`.
#[verifier::external_body]
fn compact_new(text: &str) -> (made: CompactText)
    ensures
        compact_text(made) == text@,
{
    CompactText { inner: CompactString::new(text) }
}

/// `CompactString::as_str`: lends the text that is held.
#[verifier::external_body]
fn compact_as_str(text: &CompactText) -> (lent: &str)
    ensures
        lent@ == compact_text(*text),
{
    text.inner.as_str()
}

impl CompactText {
    /// Makes compact text that holds `text`.
    pub fn new(text: &str) -> (made: CompactText)
        ensures
            made@ == text@,
    {
        compact_new(text)
    }

    /// Lends the text that is held.
    pub fn as_str(&self) -> (lent: &str)
        ensures
            lent@ == self@,
    {
        compact_as_str(self)
    }
}

impl Serialize for CompactText {
    /// The number of the bytes of the text in UTF-8, then those bytes.
    open spec fn encoding(&self) -> Seq<u8> {
        text_encoding(compact_text(*self))
    }

    fn serialize_to<S: Serializer>(&self, serializer: &mut S) -> (r: Result<()>) {
        let lent = self.as_str();
        assert(self.encoding() == text_encoding(compact_text(*self)));
        assert(lent.encoding() == text_encoding(lent@));
        lent.serialize_to(serializer)
    }
}

impl<'a> Deserialize<'a> for CompactText {
    /// The text is read as text that is lent, and then copied.
    open spec fn parse(input: Input) -> Parsed {
        lent_text_parse(input)
    }

    fn deserialize_from<D: Deserializer<'a>>(buf: &mut D) -> (r: Result<Self>) {
        assert(Self::parse(buf.input()) == lent_text_parse(buf.input()));
        assert(<&'a str>::parse(buf.input()) == lent_text_parse(buf.input()));
        let lent: &'a str = <&'a str>::deserialize_from(buf)?;
        let made = CompactText::new(lent);
        assert(made.encoding() == text_encoding(compact_text(made)));
        assert(lent.encoding() == text_encoding(lent@));
        Ok(made)
    }
}

} // verus!
