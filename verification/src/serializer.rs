//! Sinks for encoded bytes, and what they have taken.

use crate::error::Result;
use vstd::prelude::*;

verus! {

/// What a [`Serializer`] has taken so far.
pub struct Sink {
    /// The number of bytes taken.
    pub count: nat,
    /// The bytes taken, first byte first, where the sink keeps them; `None`
    /// where it only counts.
    pub held: Option<Seq<u8>>,
    /// Whether the sink takes whatever fits: one that does never rejects a write.
    pub dependable: bool,
}

impl Sink {
    /// The sink once `data` has been put in front.
    pub open spec fn prepend(self, data: Seq<u8>) -> Sink {
        Sink {
            count: self.count + data.len(),
            held: match self.held {
                Some(held) => Some(data + held),
                None => None,
            },
            dependable: self.dependable,
        }
    }

    /// A sink that keeps its bytes and has taken none.
    pub open spec fn empty_buffer() -> Sink {
        Sink { count: 0, held: Some(Seq::empty()), dependable: true }
    }

    /// A sink that counts and has taken nothing.
    pub open spec fn zero_count() -> Sink {
        Sink { count: 0, held: None, dependable: true }
    }

    /// Putting `first` and then `second` in front amounts to putting
    /// `second + first` there.
    pub proof fn lemma_prepend_twice(self, first: Seq<u8>, second: Seq<u8>)
        ensures
            self.prepend(first).prepend(second) == self.prepend(second + first),
    {
        if let Some(held) = self.held {
            assert(second + (first + held) =~= (second + first) + held);
        }
    }

    /// Putting nothing in front leaves the sink as it was.
    pub proof fn lemma_prepend_nothing(self)
        ensures
            self.prepend(Seq::empty()) == self,
    {
        if let Some(held) = self.held {
            assert(Seq::<u8>::empty() + held =~= held);
        }
    }
}

/// A sink that takes encoded bytes, each piece in front of what it took before.
pub trait Serializer {
    /// What the sink has taken.
    spec fn sink(&self) -> Sink;

    /// Puts `data` in front of what the sink holds.
    fn prepend(&mut self, data: &[u8]) -> (r: Result<()>)
        requires
            old(self).sink().count + data@.len() <= usize::MAX,
        ensures
            r is Ok ==> final(self).sink() == old(self).sink().prepend(data@),
            old(self).sink().dependable ==> r is Ok,
    ;

    /// Returns the number of bytes taken.
    fn len(&self) -> (n: usize)
        ensures
            n == self.sink().count,
    ;

    /// Returns whether nothing has been taken.
    fn is_empty(&self) -> (b: bool)
        ensures
            b == (self.sink().count == 0),
    {
        self.len() == 0
    }
}

/// Puts one byte in front of what `serializer` holds.
pub fn prepend_byte<S: Serializer>(serializer: &mut S, byte: u8) -> (r: Result<()>)
    requires
        old(serializer).sink().count + 1 <= usize::MAX,
    ensures
        r is Ok ==> final(serializer).sink() == old(serializer).sink().prepend(seq![byte]),
        old(serializer).sink().dependable ==> r is Ok,
{
    let data = [byte];
    assert(data@ =~= seq![byte]);
    serializer.prepend(data.as_slice())
}

/// A `usize` counts the bytes it is given and keeps none.
impl Serializer for usize {
    open spec fn sink(&self) -> Sink {
        Sink { count: *self as nat, held: None, dependable: true }
    }

    fn prepend(&mut self, data: &[u8]) -> (r: Result<()>) {
        *self = *self + data.len();
        Ok(())
    }

    fn len(&self) -> (n: usize) {
        *self
    }
}

} // verus!
