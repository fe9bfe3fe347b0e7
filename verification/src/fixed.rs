//! Numbers of a fixed width as bytes, the lowest byte first.

use crate::deserializer::{span_bytes, Deserializer};
use crate::error::{Error, Result};
use crate::serializer::Serializer;
use vstd::prelude::*;

verus! {

/// The number of values that `width` bytes can tell apart: 256 to the power `width`.
pub open spec fn limit(width: nat) -> nat
    decreases width,
{
    if width == 0 {
        1
    } else {
        256 * limit((width - 1) as nat)
    }
}

/// The `width` low bytes of `value`, the lowest first.
pub open spec fn le_bytes(value: nat, width: nat) -> Seq<u8>
    decreases width,
{
    if width == 0 {
        Seq::empty()
    } else {
        seq![(value % 256) as u8] + le_bytes(value / 256, (width - 1) as nat)
    }
}

/// The number whose bytes, the lowest first, are `bytes`.
pub open spec fn le_value(bytes: Seq<u8>) -> nat
    decreases bytes.len(),
{
    if bytes.len() == 0 {
        0
    } else {
        bytes[0] as nat + 256 * le_value(bytes.drop_first())
    }
}

/// The number below `limit(width)` that stands for the integer `value` in
/// two's complement.
pub open spec fn twos(value: int, width: nat) -> nat {
    if value < 0 {
        (value + limit(width)) as nat
    } else {
        value as nat
    }
}

/// The integer that `raw` stands for in two's complement of `width` bytes.
pub open spec fn untwos(raw: nat, width: nat) -> int {
    if 2 * raw >= limit(width) {
        raw - limit(width)
    } else {
        raw as int
    }
}

/// The limits of the widths in use.
pub proof fn lemma_limits()
    ensures
        limit(0) == 1,
        limit(1) == 0x100,
        limit(2) == 0x1_0000,
        limit(3) == 0x100_0000,
        limit(4) == 0x1_0000_0000,
        limit(8) == 0x1_0000_0000_0000_0000,
        limit(16) == 0x1_0000_0000_0000_0000_0000_0000_0000_0000,
        forall|w: nat| w <= 16 ==> 1 <= #[trigger] limit(w) <= limit(16),
{
    reveal_with_fuel(limit, 18);
    assert forall|w: nat| w <= 16 implies 1 <= #[trigger] limit(w) <= limit(16) by {
        if w == 0 {
        } else if w == 1 {
        } else if w == 2 {
        } else if w == 3 {
        } else if w == 4 {
        } else if w == 5 {
        } else if w == 6 {
        } else if w == 7 {
        } else if w == 8 {
        } else if w == 9 {
        } else if w == 10 {
        } else if w == 11 {
        } else if w == 12 {
        } else if w == 13 {
        } else if w == 14 {
        } else if w == 15 {
        } else {
        }
    }
}

/// `le_bytes` gives `width` bytes.
pub proof fn lemma_le_bytes_len(value: nat, width: nat)
    ensures
        le_bytes(value, width).len() == width,
    decreases width,
{
    if width != 0 {
        lemma_le_bytes_len(value / 256, (width - 1) as nat);
    }
}

/// The value of `width` bytes is below `limit(width)`.
pub proof fn lemma_le_value_bound(bytes: Seq<u8>)
    ensures
        le_value(bytes) < limit(bytes.len()),
    decreases bytes.len(),
{
    if bytes.len() != 0 {
        lemma_le_value_bound(bytes.drop_first());
    }
}

/// A number below the limit is the value of its bytes.
pub proof fn lemma_le_value_of_bytes(value: nat, width: nat)
    requires
        value < limit(width),
    ensures
        le_value(le_bytes(value, width)) == value,
    decreases width,
{
    if width != 0 {
        let rest = le_bytes(value / 256, (width - 1) as nat);
        lemma_le_value_of_bytes(value / 256, (width - 1) as nat);
        assert(le_bytes(value, width).drop_first() =~= rest);
    }
}

/// Bytes are the bytes of their value.
pub proof fn lemma_le_bytes_of_value(bytes: Seq<u8>)
    ensures
        le_bytes(le_value(bytes), bytes.len()) == bytes,
    decreases bytes.len(),
{
    if bytes.len() != 0 {
        let rest = bytes.drop_first();
        lemma_le_bytes_of_value(rest);
        let value = le_value(bytes);
        assert(value % 256 == bytes[0]);
        assert(value / 256 == le_value(rest));
        assert(le_bytes(value, bytes.len()) =~= bytes);
    }
}

/// Two's complement loses nothing.
pub proof fn lemma_twos(value: int, width: nat)
    requires
        -(limit(width) as int) <= 2 * value < limit(width),
    ensures
        twos(value, width) < limit(width),
        untwos(twos(value, width), width) == value,
{
}

/// Every number below the limit stands for an integer.
pub proof fn lemma_untwos(raw: nat, width: nat)
    requires
        raw < limit(width),
    ensures
        -(limit(width) as int) <= 2 * untwos(raw, width) < limit(width),
        twos(untwos(raw, width), width) == raw,
{
}

/// Writes the `width` low bytes of `value`, the lowest first.
pub fn prepend_le<S: Serializer>(serializer: &mut S, value: u128, width: usize) -> (r: Result<()>)
    requires
        1 <= width <= 16,
        value < limit(width as nat),
        old(serializer).sink().count + width <= usize::MAX,
    ensures
        r is Ok ==> final(serializer).sink() == old(serializer).sink().prepend(
            le_bytes(value as nat, width as nat),
        ),
        old(serializer).sink().dependable ==> r is Ok,
{
    let mut bytes: Vec<u8> = Vec::new();
    let mut rest = value;
    let mut i: usize = 0;
    while i < width
        invariant
            i <= width,
            bytes@.len() == i,
            le_bytes(value as nat, width as nat) == bytes@ + le_bytes(
                rest as nat,
                (width - i) as nat,
            ),
        decreases width - i,
    {
        let ghost tail = le_bytes(rest as nat / 256, (width - i - 1) as nat);
        assert(bytes@ + (seq![(rest % 256) as u8] + tail) =~= bytes@.push((rest % 256) as u8)
            + tail);
        bytes.push((rest % 256) as u8);
        rest = rest / 256;
        i += 1;
    }
    assert(bytes@ + le_bytes(rest as nat, 0) =~= bytes@);
    serializer.prepend(bytes.as_slice())
}

/// Reads `width` bytes as a number, the lowest byte first.
pub fn pop_le<'a, D: Deserializer<'a>>(buf: &mut D, width: usize) -> (r: Result<u128>)
    requires
        1 <= width <= 16,
    ensures
        width <= old(buf).input().len() ==> {
            &&& r matches Ok(value)
            &&& value == le_value(old(buf).input().bytes.take(width as int))
            &&& value < limit(width as nat)
            &&& final(buf).input() == old(buf).input().skip(width as int)
        },
        width > old(buf).input().len() ==> {
            &&& r matches Err(Error::DataIsShort { expect, actual })
            &&& expect == width
            &&& actual == old(buf).input().len()
            &&& final(buf).input() == old(buf).input()
        },
{
    let span = buf.pop(width)?;
    let bytes = span_bytes(&span);
    let mut value: u128 = 0;
    let mut i: usize = width;
    proof {
        lemma_limits();
        assert(bytes@.skip(width as int) =~= Seq::<u8>::empty());
    }
    while i > 0
        invariant
            i <= width <= 16,
            bytes@.len() == width,
            value == le_value(bytes@.skip(i as int)),
            value < limit((width - i) as nat),
        decreases i,
    {
        proof {
            lemma_limits();
            assert(bytes@.skip(i - 1).drop_first() =~= bytes@.skip(i as int));
            assert(limit((width - i + 1) as nat) == 256 * limit((width - i) as nat));
            assert(limit((width - i + 1) as nat) <= limit(16));
        }
        i -= 1;
        value = value * 256 + bytes[i] as u128;
    }
    assert(bytes@.skip(0) =~= bytes@);
    Ok(value)
}

} // verus!
