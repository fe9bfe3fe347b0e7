//! Numbers and lists of bytes as text for a reader.

use vstd::prelude::*;
use vstd::string::StringExecFns;

verus! {

/// The character that stands for the digit `d`.
pub open spec fn digit(d: nat) -> char {
    if d == 0 {
        '0'
    } else if d == 1 {
        '1'
    } else if d == 2 {
        '2'
    } else if d == 3 {
        '3'
    } else if d == 4 {
        '4'
    } else if d == 5 {
        '5'
    } else if d == 6 {
        '6'
    } else if d == 7 {
        '7'
    } else if d == 8 {
        '8'
    } else {
        '9'
    }
}

/// The number `n` in decimal digits, without leading zeros.
pub open spec fn decimal(n: nat) -> Seq<char>
    decreases n,
{
    if n < 10 {
        seq![digit(n)]
    } else {
        decimal(n / 10).push(digit(n % 10))
    }
}

/// The numbers of `bytes` in decimal, with a comma and a space between one
/// and the next.
pub open spec fn listed(bytes: Seq<u8>) -> Seq<char>
    decreases bytes.len(),
{
    if bytes.len() == 0 {
        Seq::empty()
    } else if bytes.len() == 1 {
        decimal(bytes[0] as nat)
    } else {
        listed(bytes.drop_last()) + ", "@ + decimal(bytes.last() as nat)
    }
}

/// `bytes` as a list in square brackets.
pub open spec fn bracketed(bytes: Seq<u8>) -> Seq<char> {
    "["@ + listed(bytes) + "]"@
}

/// Returns the text of one digit.
fn digit_text(d: u8) -> (text: &'static str)
    requires
        d < 10,
    ensures
        text@ == seq![digit(d as nat)],
{
    proof {
        reveal_strlit("0");
        reveal_strlit("1");
        reveal_strlit("2");
        reveal_strlit("3");
        reveal_strlit("4");
        reveal_strlit("5");
        reveal_strlit("6");
        reveal_strlit("7");
        reveal_strlit("8");
        reveal_strlit("9");
    }
    let text = if d == 0 {
        "0"
    } else if d == 1 {
        "1"
    } else if d == 2 {
        "2"
    } else if d == 3 {
        "3"
    } else if d == 4 {
        "4"
    } else if d == 5 {
        "5"
    } else if d == 6 {
        "6"
    } else if d == 7 {
        "7"
    } else if d == 8 {
        "8"
    } else {
        "9"
    };
    assert(text@ =~= seq![digit(d as nat)]);
    text
}

/// Appends `n` in decimal to `text`.
pub fn push_decimal(text: &mut String, n: u128)
    ensures
        final(text)@ == old(text)@ + decimal(n as nat),
    decreases n,
{
    if n >= 10 {
        push_decimal(text, n / 10);
    }
    let ghost before = text@;
    text.append(digit_text((n % 10) as u8));
    assert(before + seq![digit((n % 10) as nat)] =~= before.push(digit((n % 10) as nat)));
    if n >= 10 {
        assert(old(text)@ + decimal(n as nat / 10).push(digit((n % 10) as nat)) =~= (old(text)@
            + decimal(n as nat / 10)).push(digit((n % 10) as nat)));
    }
}

/// Appends `bytes` to `text` as a list in square brackets.
pub fn push_bracketed(text: &mut String, bytes: &[u8])
    ensures
        final(text)@ == old(text)@ + bracketed(bytes@),
{
    let ghost start = text@;
    text.append("[");
    let mut i: usize = 0;
    assert(listed(bytes@.take(0)) =~= Seq::<char>::empty());
    assert(start + "["@ + Seq::<char>::empty() =~= start + "["@);
    while i < bytes.len()
        invariant
            i <= bytes@.len(),
            text@ == start + "["@ + listed(bytes@.take(i as int)),
        decreases bytes@.len() - i,
    {
        let ghost so_far = listed(bytes@.take(i as int));
        let ghost longer = bytes@.take(i + 1);
        assert(longer.drop_last() =~= bytes@.take(i as int));
        assert(longer.last() == bytes@[i as int]);
        if i > 0 {
            text.append(", ");
        }
        push_decimal(text, bytes[i] as u128);
        proof {
            let number = decimal(bytes@[i as int] as nat);
            if i > 0 {
                assert(start + "["@ + so_far + ", "@ + number =~= start + "["@ + (so_far + ", "@
                    + number));
            } else {
                assert(so_far =~= Seq::<char>::empty());
                assert(start + "["@ + so_far + number =~= start + "["@ + number);
            }
        }
        i += 1;
    }
    assert(bytes@.take(bytes@.len() as int) =~= bytes@);
    text.append("]");
    assert(start + "["@ + listed(bytes@) + "]"@ =~= start + ("["@ + listed(bytes@) + "]"@));
}

} // verus!
