//! Spans of time: whole seconds, then the nanoseconds beyond them.

use crate::deserializer::{Deserializer, Input};
use crate::error::{Error, Failure, Result};
use crate::fixed::{le_bytes, le_value};
use crate::ints::fixed_parse;
use crate::serializer::Serializer;
use crate::{Deserialize, Parsed, Serialize};
use std::time::Duration;
use vstd::prelude::*;
use vstd::string::StringExecFns;

verus! {

/// The number of nanoseconds in a second.
pub const NANOS_PER_SEC: u32 = 1_000_000_000;

/// The whole seconds of a span of time.
pub uninterp spec fn duration_secs(span: Duration) -> u64;

/// The nanoseconds of a span of time beyond its whole seconds.
pub uninterp spec fn duration_nanos(span: Duration) -> u32;

/// `Duration::as_secs`: the whole seconds of the span.
#[verifier::external_body]
fn as_secs(span: &Duration) -> (secs: u64)
    ensures
        secs == duration_secs(*span),
{
    span.as_secs()
}

/// `Duration::subsec_nanos`: the nanoseconds of the span beyond its whole
/// seconds, which are less than a second.
#[verifier::external_body]
fn subsec_nanos(span: &Duration) -> (nanos: u32)
    ensures
        nanos == duration_nanos(*span),
        nanos < NANOS_PER_SEC,
{
    span.subsec_nanos()
}

/// `Duration::new`: the span of `secs` seconds and `nanos` nanoseconds, with
/// the whole seconds among the nanoseconds carried over. The seconds must not
/// overflow by that.
#[verifier::external_body]
fn duration_new(secs: u64, nanos: u32) -> (span: Duration)
    requires
        secs + nanos / NANOS_PER_SEC <= u64::MAX,
    ensures
        duration_secs(span) == secs + nanos / NANOS_PER_SEC,
        duration_nanos(span) == nanos % NANOS_PER_SEC,
{
    Duration::new(secs, nanos)
}

/// What the failure says where the seconds of a span of time overflow.
pub open spec fn duration_overflow_text() -> Seq<char> {
    "duration overflows"@
}

impl Serialize for Duration {
    /// The whole seconds as eight bytes, then the nanoseconds beyond them as
    /// four bytes, the lowest byte first in both.
    open spec fn encoding(&self) -> Seq<u8> {
        le_bytes(duration_secs(*self) as nat, 8) + le_bytes(duration_nanos(*self) as nat, 4)
    }

    fn serialize_to<S: Serializer>(&self, serializer: &mut S) -> (r: Result<()>) {
        let ghost start = serializer.sink();
        let secs = as_secs(self);
        let nanos = subsec_nanos(self);
        assert(self.encoding() == le_bytes(secs as nat, 8) + le_bytes(nanos as nat, 4));
        assert(secs.encoding() == le_bytes(secs as nat, 8));
        assert(nanos.encoding() == le_bytes(nanos as nat, 4));
        nanos.serialize_to(serializer)?;
        proof {
            start.lemma_prepend_twice(nanos.encoding(), secs.encoding());
        }
        secs.serialize_to(serializer)
    }
}

/// Twelve bytes are read. Whole seconds among the nanoseconds are carried
/// over to the seconds; it is a failure where the seconds overflow by that.
pub open spec fn duration_parse(input: Input) -> Parsed {
    if input.len() < 8 {
        Err(Failure::DataIsShort { expect: 8, actual: input.len() as usize })
    } else if input.len() < 12 {
        Err(Failure::DataIsShort { expect: 4, actual: (input.len() - 8) as usize })
    } else {
        let secs = le_value(input.bytes.take(8));
        let nanos = le_value(input.bytes.subrange(8, 12));
        if secs + nanos / (NANOS_PER_SEC as nat) > u64::MAX {
            Err(Failure::InvalidValue(duration_overflow_text()))
        } else {
            Ok(
                (
                    le_bytes(secs + nanos / (NANOS_PER_SEC as nat), 8) + le_bytes(
                        nanos % (NANOS_PER_SEC as nat),
                        4,
                    ),
                    12,
                ),
            )
        }
    }
}

impl<'a> Deserialize<'a> for Duration {
    open spec fn parse(input: Input) -> Parsed {
        duration_parse(input)
    }

    fn deserialize_from<D: Deserializer<'a>>(buf: &mut D) -> (r: Result<Self>) {
        let ghost input = buf.input();
        assert(Self::parse(input) == duration_parse(input));
        assert(u64::parse(input) == fixed_parse(input, 8));
        proof {
            buf.lemma_input_wf();
        }
        let secs = u64::deserialize_from(buf)?;
        assert(u32::parse(input.skip(8)) == fixed_parse(input.skip(8), 4));
        let nanos = u32::deserialize_from(buf)?;
        proof {
            input.lemma_skip_skip(8, 4);
            assert(input.skip(8).bytes.take(4) =~= input.bytes.subrange(8, 12));
        }
        if secs > u64::MAX - (nanos / NANOS_PER_SEC) as u64 {
            return Err(Error::InvalidValue(String::from_str("duration overflows")));
        }
        let span = duration_new(secs, nanos);
        assert(span.encoding() == le_bytes(duration_secs(span) as nat, 8) + le_bytes(
            duration_nanos(span) as nat,
            4,
        ));
        Ok(span)
    }
}

} // verus!
