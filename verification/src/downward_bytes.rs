//! The buffer that values are written to, back to front.

use crate::error::Result;
use crate::serializer::{Serializer, Sink};
use crate::text::{bracketed, push_bracketed};
use vstd::prelude::*;
use vstd::string::StringExecFns;

verus! {

/// A byte buffer that is filled from its end towards its start, so that what
/// is written last comes to stand first.
#[derive(Debug)]
pub struct DownwardBytes {
    /// The whole region; what has been written is its tail from `offset` on.
    buf: Vec<u8>,
    offset: usize,
}

/// The capacity that a buffer of `capacity` bytes has once room for `size`
/// bytes is asked of it: unchanged where `size` fits, else twice as much, or
/// `size` where twice as much is still too little or cannot be counted.
pub open spec fn grown_capacity(capacity: nat, size: nat) -> nat {
    if size <= capacity {
        capacity
    } else if size <= 2 * capacity <= usize::MAX {
        2 * capacity
    } else {
        size
    }
}

impl View for DownwardBytes {
    type V = Seq<u8>;

    /// The bytes written, first byte first.
    closed spec fn view(&self) -> Seq<u8> {
        self.buf@.subrange(self.offset as int, self.buf@.len() as int)
    }
}

impl DownwardBytes {
    #[verifier::type_invariant]
    spec fn well_formed(&self) -> bool {
        self.offset <= self.buf@.len()
    }

    /// The size of the whole region.
    pub closed spec fn spec_capacity(&self) -> nat {
        self.buf@.len()
    }

    /// Creates an empty buffer without any room.
    pub fn new() -> (r: Self)
        ensures
            r@ == Seq::<u8>::empty(),
            r.spec_capacity() == 0,
    {
        DownwardBytes { buf: Vec::new(), offset: 0 }
    }

    /// Creates an empty buffer with room for `cap` bytes.
    pub fn with_capacity(cap: usize) -> (r: Self)
        ensures
            r@ == Seq::<u8>::empty(),
            r.spec_capacity() == cap,
    {
        DownwardBytes { buf: vec![0u8; cap], offset: cap }
    }

    /// Returns where the written bytes start within the region.
    fn offset(&self) -> (n: usize)
        ensures
            n == self.spec_capacity() - self@.len(),
            n <= self.spec_capacity(),
    {
        proof {
            use_type_invariant(self);
        }
        self.offset
    }

    /// Returns the number of bytes written.
    pub fn len(&self) -> (n: usize)
        ensures
            n == self@.len(),
    {
        proof {
            use_type_invariant(self);
        }
        self.buf.len() - self.offset
    }

    /// Returns whether nothing has been written.
    pub fn is_empty(&self) -> (b: bool)
        ensures
            b == (self@.len() == 0),
    {
        self.len() == 0
    }

    /// Returns the size of the whole region.
    pub fn capacity(&self) -> (n: usize)
        ensures
            n == self.spec_capacity(),
            self@.len() <= n,
    {
        proof {
            use_type_invariant(self);
        }
        self.buf.len()
    }

    /// Forgets what has been written and keeps the region.
    pub fn clear(&mut self)
        ensures
            final(self)@ == Seq::<u8>::empty(),
            final(self).spec_capacity() == old(self).spec_capacity(),
    {
        self.offset = self.buf.len();
    }

    /// Forgets what has been written, and gives up the region for one of
    /// `capacity` bytes where that is smaller.
    pub fn clear_and_shrink_to(&mut self, capacity: usize)
        ensures
            final(self)@ == Seq::<u8>::empty(),
            final(self).spec_capacity() == if old(self).spec_capacity() <= capacity {
                old(self).spec_capacity()
            } else {
                capacity as nat
            },
    {
        if self.capacity() <= capacity {
            self.clear();
        } else {
            *self = Self::with_capacity(capacity);
        }
    }

    /// Returns the bytes written, first byte first.
    pub fn as_slice(&self) -> (bytes: &[u8])
        ensures
            bytes@ == self@,
    {
        proof {
            use_type_invariant(self);
        }
        vstd::slice::slice_subrange(self.buf.as_slice(), self.offset, self.buf.len())
    }

    /// Returns the bytes written as a list in square brackets after the
    /// type's name, as text for a reader.
    pub fn debug_string(&self) -> (text: String)
        ensures
            text@ == "DownwardBytes("@ + bracketed(self@) + ")"@,
    {
        let mut text = String::from_str("DownwardBytes(");
        push_bracketed(&mut text, self.as_slice());
        text.append(")");
        text
    }

    /// Writes `data` in front of what has been written, making room first
    /// where there is too little.
    pub fn prepend(&mut self, data: &[u8])
        requires
            old(self)@.len() + data@.len() <= usize::MAX,
        ensures
            final(self)@ == data@ + old(self)@,
            final(self).spec_capacity() == grown_capacity(
                old(self).spec_capacity(),
                old(self)@.len() + data@.len(),
            ),
    {
        proof {
            use_type_invariant(&*self);
        }
        if self.offset() < data.len() {
            self.reserve(self.len() + data.len());
        }
        proof {
            use_type_invariant(&*self);
        }
        let ghost before = self.buf@;
        let ghost written = self@;
        let start = self.offset - data.len();
        let mut i: usize = 0;
        while i < data.len()
            invariant
                i <= data@.len(),
                start + data@.len() == self.offset,
                self.offset <= self.buf@.len(),
                self.buf@.len() == before.len(),
                forall|j: int|
                    start <= j < start + i ==> #[trigger] self.buf@[j] == data@[j - start],
                forall|j: int|
                    self.offset <= j < before.len() ==> #[trigger] self.buf@[j] == before[j],
            decreases data@.len() - i,
        {
            self.buf[start + i] = data[i];
            i += 1;
        }
        self.offset = start;
        assert(self@ =~= data@ + written);
    }

    /// Makes the region hold at least `size` bytes, keeping what has been
    /// written at its end.
    pub fn reserve(&mut self, size: usize)
        ensures
            final(self)@ == old(self)@,
            final(self).spec_capacity() == grown_capacity(old(self).spec_capacity(), size as nat),
    {
        proof {
            use_type_invariant(&*self);
        }
        let capacity = self.buf.len();
        if capacity < size {
            let new_cap = match capacity.checked_mul(2) {
                Some(doubled) => if doubled < size {
                    size
                } else {
                    doubled
                },
                None => size,
            };
            let len = capacity - self.offset;
            let new_offset = new_cap - len;
            let mut fresh = Self::new_vec(new_cap);
            let mut i: usize = 0;
            while i < len
                invariant
                    i <= len,
                    len == capacity - self.offset,
                    capacity == self.buf@.len(),
                    self.offset <= capacity,
                    new_offset + len == new_cap,
                    fresh@.len() == new_cap,
                    forall|j: int|
                        new_offset <= j < new_offset + i ==> #[trigger] fresh@[j] == self.buf@[j
                            - new_offset + self.offset],
                decreases len - i,
            {
                fresh[new_offset + i] = self.buf[self.offset + i];
                i += 1;
            }
            let ghost written = self@;
            *self = DownwardBytes { buf: fresh, offset: new_offset };
            assert(self@ =~= written);
        }
    }

    /// Returns a region of `cap` bytes.
    fn new_vec(cap: usize) -> (v: Vec<u8>)
        ensures
            v@.len() == cap,
    {
        vec![0u8; cap]
    }
}

impl Default for DownwardBytes {
    fn default() -> (r: Self)
        ensures
            r@ == Seq::<u8>::empty(),
            r.spec_capacity() == 0,
    {
        DownwardBytes::new()
    }
}

/// Two buffers are equal where they hold the same bytes, whatever their room.
impl PartialEq for DownwardBytes {
    fn eq(&self, other: &Self) -> (r: bool) {
        let mine = self.as_slice();
        let theirs = other.as_slice();
        if mine.len() != theirs.len() {
            return false;
        }
        let mut i: usize = 0;
        while i < mine.len()
            invariant
                i <= mine@.len(),
                mine@.len() == theirs@.len(),
                mine@ == self@,
                theirs@ == other@,
                forall|j: int| 0 <= j < i ==> mine@[j] == theirs@[j],
            decreases mine@.len() - i,
        {
            if mine[i] != theirs[i] {
                return false;
            }
            i += 1;
        }
        assert(self@ =~= other@);
        true
    }
}

impl vstd::std_specs::cmp::PartialEqSpecImpl for DownwardBytes {
    open spec fn obeys_eq_spec() -> bool {
        true
    }

    open spec fn eq_spec(&self, other: &Self) -> bool {
        self@ == other@
    }
}

impl std::ops::Deref for DownwardBytes {
    type Target = [u8];

    fn deref(&self) -> (bytes: &[u8])
        ensures
            bytes@ == self@,
    {
        self.as_slice()
    }
}

/// The buffer keeps every byte it is given and rejects none.
impl Serializer for DownwardBytes {
    open spec fn sink(&self) -> Sink {
        Sink { count: self@.len(), held: Some(self@), dependable: true }
    }

    fn prepend(&mut self, data: &[u8]) -> (r: Result<()>) {
        DownwardBytes::prepend(self, data);
        Ok(())
    }

    fn len(&self) -> (n: usize) {
        DownwardBytes::len(self)
    }
}

} // verus!
