//! Arrays: their items travel one after the other, without their number.

use crate::collections::{items_encoding, lemma_items_push, prepend_items};
use crate::deserializer::{Deserializer, Input};
use crate::error::{Error, Failure, Result};
use crate::primitive::preceded;
use crate::serializer::Serializer;
use crate::{Deserialize, Parsed, Serialize};
use vstd::prelude::*;

verus! {

/// What reading `n` items of an array comes to, the first of which stands at
/// the index `at`. Where an item cannot be read, the failure names its index
/// and says in words why.
pub open spec fn array_parse<'a, T: Deserialize<'a>>(input: Input, n: nat, at: nat) -> Parsed
    decreases n,
{
    if n == 0 {
        Ok((Seq::empty(), 0))
    } else {
        match T::parse(input) {
            Ok((wire, used)) => preceded(
                wire,
                used,
                array_parse::<T>(input.skip(used), (n - 1) as nat, at + 1),
            ),
            Err(failure) => Err(Failure::InvalidLength(at as usize, failure.message())),
        }
    }
}

/// `<[T; N]>::try_from`: gives the items of `items` as an array where they
/// are `N`, and nothing where they are not.
#[verifier::external_body]
fn array_from_vec<T, const N: usize>(items: Vec<T>) -> (r: Option<[T; N]>)
    ensures
        match r {
            Some(array) => array@ == items@,
            None => items@.len() != N,
        },
{
    <[T; N]>::try_from(items).ok()
}

impl<T: Serialize, const N: usize> Serialize for [T; N] {
    /// The items in their order, without their number.
    open spec fn encoding(&self) -> Seq<u8> {
        items_encoding(self@)
    }

    fn serialize_to<S: Serializer>(&self, serializer: &mut S) -> (r: Result<()>) {
        assert(self.encoding() == items_encoding(self@));
        prepend_items(self.as_slice(), serializer)
    }
}

impl<'a, T: Deserialize<'a>, const N: usize> Deserialize<'a> for [T; N] {
    open spec fn parse(input: Input) -> Parsed {
        array_parse::<T>(input, N as nat, 0)
    }

    fn deserialize_from<D: Deserializer<'a>>(buf: &mut D) -> (r: Result<Self>) {
        let ghost input = buf.input();
        assert(Self::parse(input) == array_parse::<T>(input, N as nat, 0));
        let mut out: Vec<T> = Vec::new();
        let mut i: usize = 0;
        let ghost mut used: int = 0;
        proof {
            buf.lemma_input_wf();
            input.lemma_skip_skip(0, 0);
            assert(items_encoding(out@) =~= Seq::<u8>::empty());
            assert(Seq::<u8>::empty() + array_parse::<T>(input, N as nat, 0)->Ok_0.0
                =~= array_parse::<T>(input, N as nat, 0)->Ok_0.0);
        }
        while i < N
            invariant
                i <= N,
                out@.len() == i,
                input.wf(),
                0 <= used <= input.len(),
                buf.input() == input.skip(used),
                input == old(buf).input(),
                Self::parse(input) == array_parse::<T>(input, N as nat, 0),
                array_parse::<T>(input, N as nat, 0) == preceded(
                    items_encoding(out@),
                    used,
                    array_parse::<T>(buf.input(), (N - i) as nat, i as nat),
                ),
            decreases N - i,
        {
            let ghost here = buf.input();
            let item = match T::deserialize_from(buf) {
                Ok(item) => item,
                Err(e) => {
                    return Err(Error::InvalidLength(i, e.to_string()));
                },
            };
            proof {
                let (wire, step) = T::parse(here)->Ok_0;
                input.lemma_skip_skip(used, step);
                lemma_items_push(out@, item);
                let rest = array_parse::<T>(here.skip(step), (N - i - 1) as nat, (i + 1) as nat);
                if let Ok((more, further)) = rest {
                    assert((items_encoding(out@) + wire) + more =~= items_encoding(out@) + (wire
                        + more));
                }
                used = used + step;
            }
            out.push(item);
            i += 1;
        }
        proof {
            assert(items_encoding(out@) + Seq::<u8>::empty() =~= items_encoding(out@));
        }
        match array_from_vec::<T, N>(out) {
            Some(array) => {
                assert(array.encoding() == items_encoding(array@));
                Ok(array)
            },
            None => {
                assert(false);
                Err(Error::Default)
            },
        }
    }
}

} // verus!
