//! Cursors over encoded bytes, and what they have left to read.

use crate::error::{Error, Result};
use std::borrow::Cow;
use vstd::prelude::*;

verus! {

/// What a [`Deserializer`] has left to read.
pub struct Input {
    /// The unread bytes, next byte first.
    pub bytes: Seq<u8>,
    /// For each offset into `bytes`, the end included, how many bytes from
    /// there on lie in one piece of memory.
    pub runs: Seq<int>,
}

impl Input {
    /// Input that lies in one piece.
    pub open spec fn whole(bytes: Seq<u8>) -> Input {
        Input { bytes, runs: Seq::new(bytes.len() + 1, |i: int| bytes.len() - i) }
    }

    /// The number of unread bytes.
    pub open spec fn len(self) -> nat {
        self.bytes.len()
    }

    /// What is left once the first `n` bytes are read.
    pub open spec fn skip(self, n: int) -> Input {
        Input { bytes: self.bytes.skip(n), runs: self.runs.skip(n) }
    }

    /// The first `n` bytes as an input of their own.
    pub open spec fn take(self, n: int) -> Input {
        Input {
            bytes: self.bytes.take(n),
            runs: Seq::new(
                (n + 1) as nat,
                |i: int| if self.runs[i] <= n - i { self.runs[i] } else { n - i },
            ),
        }
    }

    /// Whether the first `n` bytes lie in one piece, so that they can be lent
    /// rather than copied.
    pub open spec fn lends(self, n: int) -> bool {
        n <= self.runs[0]
    }

    /// `runs` has an entry for each offset, and no entry reaches past the end.
    pub open spec fn wf(self) -> bool {
        &&& self.runs.len() == self.bytes.len() + 1
        &&& forall|i: int|
            0 <= i <= self.bytes.len() ==> 0 <= #[trigger] self.runs[i] <= self.bytes.len() - i
    }

    /// Reading `a` bytes and then `b` is reading `a + b`.
    pub proof fn lemma_skip_skip(self, a: int, b: int)
        requires
            0 <= a,
            0 <= b,
            a + b <= self.len(),
            self.wf(),
        ensures
            self.skip(a).skip(b) == self.skip(a + b),
            self.skip(0) == self,
            self.skip(a).wf(),
    {
        assert(self.bytes.skip(a).skip(b) =~= self.bytes.skip(a + b));
        assert(self.runs.skip(a).skip(b) =~= self.runs.skip(a + b));
        assert(self.bytes.skip(0) =~= self.bytes);
        assert(self.runs.skip(0) =~= self.runs);
    }

    /// What is left of input in one piece is in one piece, and so is what is
    /// taken from its front.
    pub proof fn lemma_whole_parts(bytes: Seq<u8>, n: int)
        requires
            0 <= n <= bytes.len(),
        ensures
            Input::whole(bytes).skip(n) == Input::whole(bytes.skip(n)),
            Input::whole(bytes).take(n) == Input::whole(bytes.take(n)),
            Input::whole(bytes).wf(),
    {
        assert(Input::whole(bytes).skip(n).runs =~= Input::whole(bytes.skip(n)).runs);
        assert(Input::whole(bytes).take(n).runs =~= Input::whole(bytes.take(n)).runs);
    }
}

/// A cursor over encoded bytes.
pub trait Deserializer<'a>: Sized {
    /// What is left to read.
    spec fn input(&self) -> Input;

    /// What is left to read is always well formed.
    proof fn lemma_input_wf(&self)
        ensures
            self.input().wf(),
    ;

    /// Returns whether nothing is left to read.
    fn is_empty(&self) -> (b: bool)
        ensures
            b == (self.input().len() == 0),
    ;

    /// Splits off the next `len` bytes as a cursor of their own, and moves
    /// past them. Fails, leaving the cursor as it was, where fewer are left.
    fn advance(&mut self, len: usize) -> (r: Result<Self>)
        ensures
            len <= old(self).input().len() ==> {
                &&& r matches Ok(front)
                &&& front.input() == old(self).input().take(len as int)
                &&& final(self).input() == old(self).input().skip(len as int)
            },
            len > old(self).input().len() ==> {
                &&& r matches Err(Error::DataIsShort { expect, actual })
                &&& expect == len
                &&& actual == old(self).input().len()
                &&& final(self).input() == old(self).input()
            },
    ;

    /// Hands out the next `len` bytes and moves past them: lent where they lie
    /// in one piece, copied where they do not. Fails, leaving the cursor as it
    /// was, where fewer are left.
    fn pop(&mut self, len: usize) -> (r: Result<Cow<'a, [u8]>>)
        ensures
            len <= old(self).input().len() ==> {
                &&& r matches Ok(span)
                &&& span@ == old(self).input().bytes.take(len as int)
                &&& span is Borrowed <==> old(self).input().lends(len as int)
                &&& final(self).input() == old(self).input().skip(len as int)
            },
            len > old(self).input().len() ==> {
                &&& r matches Err(Error::DataIsShort { expect, actual })
                &&& expect == len
                &&& actual == old(self).input().len()
                &&& final(self).input() == old(self).input()
            },
    ;
}

/// The bytes of a span, lent or owned.
pub fn span_bytes<'s>(span: &'s Cow<'_, [u8]>) -> (bytes: &'s [u8])
    ensures
        bytes@ == span@,
{
    match span {
        Cow::Borrowed(lent) => lent,
        Cow::Owned(owned) => owned.as_slice(),
    }
}

/// A slice is a cursor over bytes in one piece: it lends whatever it hands out.
impl<'a> Deserializer<'a> for &'a [u8] {
    open spec fn input(&self) -> Input {
        Input::whole((*self)@)
    }

    proof fn lemma_input_wf(&self) {
        Input::lemma_whole_parts((*self)@, 0);
    }

    fn is_empty(&self) -> (b: bool) {
        self.len() == 0
    }

    fn advance(&mut self, len: usize) -> (r: Result<Self>) {
        if len <= self.len() {
            proof {
                Input::lemma_whole_parts((*self)@, len as int);
            }
            let (front, back) = self.split_at(len);
            *self = back;
            Ok(front)
        } else {
            Err(Error::DataIsShort { expect: len, actual: self.len() })
        }
    }

    fn pop(&mut self, len: usize) -> (r: Result<Cow<'a, [u8]>>) {
        if len <= self.len() {
            proof {
                Input::lemma_whole_parts((*self)@, len as int);
            }
            let (front, back) = self.split_at(len);
            *self = back;
            Ok(Cow::Borrowed(front))
        } else {
            Err(Error::DataIsShort { expect: len, actual: self.len() })
        }
    }
}

} // verus!
