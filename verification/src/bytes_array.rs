//! The cursor over bytes that lie in a chain of slices.

use crate::deserializer::{Deserializer, Input};
use crate::error::{Error, Result};
use std::borrow::Cow;
use vstd::prelude::*;
use vstd::slice::slice_subrange;

verus! {

/// A cursor over bytes that lie in several slices, read as if they were one.
#[derive(Clone, Copy)]
pub struct BytesArray<'a> {
    /// The slices that hold unread bytes; the first one holds some, unless
    /// there are none.
    arr: &'a [&'a [u8]],
    /// How much of the first slice has been read.
    pos: usize,
    /// How many bytes are left to read.
    len: usize,
}

/// The number of bytes in all of `segs`.
pub open spec fn total(segs: Seq<&[u8]>) -> nat
    decreases segs.len(),
{
    if segs.len() == 0 {
        0
    } else {
        segs[0]@.len() + total(segs.drop_first())
    }
}

/// The bytes of `segs`, one slice after the other.
pub open spec fn flat(segs: Seq<&[u8]>) -> Seq<u8>
    decreases segs.len(),
{
    if segs.len() == 0 {
        Seq::empty()
    } else {
        segs[0]@ + flat(segs.drop_first())
    }
}

/// How many bytes follow offset `off` of `flat(segs)` within the slice that
/// holds the byte there; 0 where no byte is there.
pub open spec fn run_of(segs: Seq<&[u8]>, off: int) -> int
    decreases segs.len(),
{
    if segs.len() == 0 {
        0
    } else if off < segs[0]@.len() {
        segs[0]@.len() - off
    } else {
        run_of(segs.drop_first(), off - segs[0]@.len())
    }
}

/// What a cursor has left that has read `pos` bytes of `segs` and may read
/// `len` more.
pub open spec fn chain_input(segs: Seq<&[u8]>, pos: int, len: int) -> Input {
    Input {
        bytes: flat(segs).subrange(pos, pos + len),
        runs: Seq::new(
            (len + 1) as nat,
            |o: int|
                if run_of(segs, pos + o) <= len - o {
                    run_of(segs, pos + o)
                } else {
                    len - o
                },
        ),
    }
}

/// `flat` has `total` bytes.
pub proof fn lemma_flat_len(segs: Seq<&[u8]>)
    ensures
        flat(segs).len() == total(segs),
    decreases segs.len(),
{
    if segs.len() != 0 {
        lemma_flat_len(segs.drop_first());
    }
}

/// The slices before index `k` and those from `k` on make up the whole.
pub proof fn lemma_split(segs: Seq<&[u8]>, k: int)
    requires
        0 <= k <= segs.len(),
    ensures
        flat(segs) == flat(segs.take(k)) + flat(segs.skip(k)),
        total(segs) == total(segs.take(k)) + total(segs.skip(k)),
        flat(segs.take(k)).len() == total(segs.take(k)),
    decreases k,
{
    lemma_flat_len(segs.take(k));
    if k == 0 {
        assert(segs.skip(0) =~= segs);
        assert(flat(segs.take(0)) =~= Seq::<u8>::empty());
        assert(flat(segs) =~= flat(segs.take(k)) + flat(segs.skip(k)));
    } else {
        let rest = segs.drop_first();
        lemma_split(rest, k - 1);
        assert(segs.take(k).drop_first() =~= rest.take(k - 1));
        assert(segs.skip(k) =~= rest.skip(k - 1));
        assert(segs.take(k)[0] == segs[0]);
        assert(flat(segs) =~= flat(segs.take(k)) + flat(segs.skip(k)));
    }
}

/// The slice at index `k` adds its bytes to those before it.
pub proof fn lemma_next_segment(segs: Seq<&[u8]>, k: int)
    requires
        0 <= k < segs.len(),
    ensures
        total(segs.take(k + 1)) == total(segs.take(k)) + segs[k]@.len(),
        flat(segs.take(k + 1)) == flat(segs.take(k)) + segs[k]@,
        total(segs.take(k + 1)) <= total(segs),
{
    let longer = segs.take(k + 1);
    lemma_split(longer, k);
    assert(longer.take(k) =~= segs.take(k));
    let last = longer.skip(k);
    assert(last.len() == 1 && last[0] == segs[k]);
    assert(last.drop_first().len() == 0);
    assert(flat(last.drop_first()) =~= Seq::<u8>::empty());
    assert(total(last.drop_first()) == 0);
    assert(flat(last) =~= segs[k]@);
    assert(total(last) == segs[k]@.len());
    lemma_split(segs, k + 1);
}

/// A run is never negative and never reaches past the end.
pub proof fn lemma_run_bounds(segs: Seq<&[u8]>, off: int)
    requires
        0 <= off,
    ensures
        0 <= run_of(segs, off),
        off <= total(segs) ==> run_of(segs, off) <= total(segs) - off,
        off < total(segs) ==> run_of(segs, off) >= 1,
    decreases segs.len(),
{
    if segs.len() != 0 && off >= segs[0]@.len() {
        lemma_run_bounds(segs.drop_first(), off - segs[0]@.len());
    }
}

/// Runs past the first `k` slices are the runs of the slices that remain.
pub proof fn lemma_run_skip(segs: Seq<&[u8]>, k: int, off: int)
    requires
        0 <= k <= segs.len(),
        0 <= off,
    ensures
        run_of(segs, total(segs.take(k)) + off) == run_of(segs.skip(k), off),
    decreases k,
{
    if k == 0 {
        assert(segs.skip(0) =~= segs);
    } else {
        let rest = segs.drop_first();
        lemma_run_skip(rest, k - 1, off);
        assert(segs.take(k).drop_first() =~= rest.take(k - 1));
        assert(segs.skip(k) =~= rest.skip(k - 1));
        assert(segs.take(k)[0] == segs[0]);
    }
}

/// Runs within the first `k` slices are not changed by leaving out the others.
pub proof fn lemma_run_take(segs: Seq<&[u8]>, k: int, off: int)
    requires
        0 <= k <= segs.len(),
        0 <= off < total(segs.take(k)),
    ensures
        run_of(segs.take(k), off) == run_of(segs, off),
    decreases k,
{
    if k != 0 {
        let rest = segs.drop_first();
        assert(segs.take(k).drop_first() =~= rest.take(k - 1));
        assert(segs.take(k)[0] == segs[0]);
        if off >= segs[0]@.len() {
            lemma_run_take(rest, k - 1, off - segs[0]@.len());
        }
    }
}

/// A cursor's input is well formed.
pub proof fn lemma_chain_wf(segs: Seq<&[u8]>, pos: int, len: int)
    requires
        0 <= pos,
        0 <= len,
        pos + len <= total(segs),
    ensures
        chain_input(segs, pos, len).wf(),
        chain_input(segs, pos, len).len() == len,
{
    lemma_flat_len(segs);
    let input = chain_input(segs, pos, len);
    assert forall|i: int| 0 <= i <= input.bytes.len() implies 0 <= #[trigger] input.runs[i]
        <= input.bytes.len() - i by {
        lemma_run_bounds(segs, pos + i);
    }
}

/// Moving on by `n` bytes, into the slice at index `k`, leaves what skipping
/// `n` bytes of the input leaves.
pub proof fn lemma_chain_skip(segs: Seq<&[u8]>, pos: int, len: int, n: int, k: int, pos2: int)
    requires
        0 <= pos,
        0 <= n <= len,
        pos + len <= total(segs),
        0 <= k <= segs.len(),
        0 <= pos2,
        total(segs.take(k)) + pos2 == pos + n,
    ensures
        chain_input(segs.skip(k), pos2, len - n) == chain_input(segs, pos, len).skip(n),
        pos2 + (len - n) <= total(segs.skip(k)),
{
    lemma_split(segs, k);
    lemma_flat_len(segs);
    lemma_flat_len(segs.skip(k));
    let after = chain_input(segs.skip(k), pos2, len - n);
    let skipped = chain_input(segs, pos, len).skip(n);
    assert(after.bytes =~= skipped.bytes);
    assert(after.runs.len() == skipped.runs.len());
    assert forall|o: int| 0 <= o < after.runs.len() implies after.runs[o] == skipped.runs[o] by {
        lemma_run_skip(segs, k, pos2 + o);
    }
    assert(after.runs =~= skipped.runs);
}

/// The first `n` bytes, where they end within the first `k` slices, are what
/// taking `n` bytes of the input gives.
pub proof fn lemma_chain_take(segs: Seq<&[u8]>, pos: int, len: int, n: int, k: int)
    requires
        0 <= pos,
        0 <= n <= len,
        pos + len <= total(segs),
        0 <= k <= segs.len(),
        pos + n <= total(segs.take(k)),
    ensures
        chain_input(segs.take(k), pos, n) == chain_input(segs, pos, len).take(n),
{
    lemma_split(segs, k);
    lemma_flat_len(segs);
    let front = chain_input(segs.take(k), pos, n);
    let taken = chain_input(segs, pos, len).take(n);
    assert(front.bytes =~= taken.bytes);
    assert(front.runs.len() == taken.runs.len());
    assert forall|o: int| 0 <= o < front.runs.len() implies front.runs[o] == taken.runs[o] by {
        lemma_run_bounds(segs.take(k), pos + o);
        lemma_run_bounds(segs, pos + o);
        if pos + o < total(segs.take(k)) {
            lemma_run_take(segs, k, pos + o);
        }
    }
    assert(front.runs =~= taken.runs);
}

/// Appends `data` to `out`.
fn push_all(out: &mut Vec<u8>, data: &[u8])
    ensures
        final(out)@ == old(out)@ + data@,
{
    let ghost before = out@;
    let mut i: usize = 0;
    while i < data.len()
        invariant
            i <= data@.len(),
            out@ == before + data@.take(i as int),
        decreases data@.len() - i,
    {
        out.push(data[i]);
        assert(data@.take(i + 1) =~= data@.take(i as int).push(data@[i as int]));
        i += 1;
    }
    assert(data@.take(data@.len() as int) =~= data@);
}

/// Returns the index of the first slice from `from` on that holds a byte, or
/// the number of slices where none does.
fn skip_empty(arr: &[&[u8]], from: usize) -> (k: usize)
    requires
        from <= arr@.len(),
    ensures
        from <= k <= arr@.len(),
        total(arr@.take(k as int)) == total(arr@.take(from as int)),
        k < arr@.len() ==> arr@[k as int]@.len() > 0,
{
    let mut k = from;
    while k < arr.len() && arr[k].len() == 0
        invariant
            from <= k <= arr@.len(),
            total(arr@.take(k as int)) == total(arr@.take(from as int)),
        decreases arr@.len() - k,
    {
        proof {
            lemma_next_segment(arr@, k as int);
        }
        k += 1;
    }
    k
}

impl<'a> BytesArray<'a> {
    /// No more is left to read than the slices hold, and the first slice, if
    /// there is one, holds a byte that is unread.
    #[verifier::type_invariant]
    spec fn well_formed(&self) -> bool {
        &&& self.pos + self.len <= total(self.arr@)
        &&& self.arr@.len() > 0 ==> self.pos < self.arr@[0]@.len()
        &&& self.arr@.len() == 0 ==> self.pos == 0
    }

    /// Creates a cursor over the bytes of `arr`, none of them read.
    pub fn new(arr: &'a [&'a [u8]]) -> (r: Self)
        requires
            total(arr@) <= usize::MAX,
        ensures
            r.input() == chain_input(arr@, 0, total(arr@) as int),
            r.input().bytes == flat(arr@),
    {
        let mut len: usize = 0;
        let mut i: usize = 0;
        while i < arr.len()
            invariant
                i <= arr@.len(),
                len == total(arr@.take(i as int)),
                total(arr@) <= usize::MAX,
            decreases arr@.len() - i,
        {
            proof {
                lemma_next_segment(arr@, i as int);
            }
            len = len + arr[i].len();
            i += 1;
        }
        let k = skip_empty(arr, 0);
        proof {
            assert(arr@.take(arr@.len() as int) =~= arr@);
            lemma_chain_skip(arr@, 0, len as int, 0, k as int, 0);
            lemma_chain_wf(arr@, 0, len as int);
            chain_input(arr@, 0, len as int).lemma_skip_skip(0, 0);
            lemma_flat_len(arr@);
            assert(flat(arr@).subrange(0, len as int) =~= flat(arr@));
        }
        BytesArray { arr: slice_subrange(arr, k, arr.len()), pos: 0, len }
    }

    /// Returns the number of bytes left to read.
    pub fn len(&self) -> (n: usize)
        ensures
            n == self.input().len(),
    {
        proof {
            use_type_invariant(self);
            lemma_chain_wf(self.arr@, self.pos as int, self.len as int);
        }
        self.len
    }

    /// Returns whether nothing is left to read.
    pub fn is_empty(&self) -> (b: bool)
        ensures
            b == (self.input().len() == 0),
    {
        proof {
            use_type_invariant(self);
            lemma_chain_wf(self.arr@, self.pos as int, self.len as int);
        }
        self.len == 0
    }
}

impl<'a> Deserializer<'a> for BytesArray<'a> {
    closed spec fn input(&self) -> Input {
        if self.well_formed() {
            chain_input(self.arr@, self.pos as int, self.len as int)
        } else {
            Input::whole(Seq::empty())
        }
    }

    proof fn lemma_input_wf(&self) {
        if self.well_formed() {
            lemma_chain_wf(self.arr@, self.pos as int, self.len as int);
        } else {
            Input::lemma_whole_parts(Seq::empty(), 0);
        }
    }

    fn is_empty(&self) -> (b: bool) {
        proof {
            use_type_invariant(self);
            lemma_chain_wf(self.arr@, self.pos as int, self.len as int);
        }
        self.len == 0
    }

    fn advance(&mut self, len: usize) -> (r: Result<Self>) {
        let arr = self.arr;
        let pos = self.pos;
        let left = self.len;
        proof {
            use_type_invariant(&*self);
            lemma_chain_wf(arr@, pos as int, left as int);
        }
        if len > left {
            return Err(Error::DataIsShort { expect: len, actual: left });
        }
        let mut r = len;
        let mut p = pos;
        let mut k: usize = 0;
        while k < arr.len()
            invariant
                k <= arr@.len(),
                arr == old(self).arr,
                pos == old(self).pos,
                left == old(self).len,
                self == old(self),
                len <= left,
                pos + left <= total(arr@),
                arr@.len() > 0 ==> pos < arr@[0]@.len(),
                total(arr@.take(k as int)) + p + r == pos + len,
                k == 0 ==> p == pos,
                k > 0 ==> p == 0 && r > 0,
                chain_input(arr@, pos as int, left as int).wf(),
            decreases arr@.len() - k,
        {
            proof {
                lemma_next_segment(arr@, k as int);
            }
            let c = arr[k].len() - p;
            if r <= c {
                let front = BytesArray { arr: slice_subrange(arr, 0, k + 1), pos, len };
                let (k2, pos2) = if r == c {
                    (skip_empty(arr, k + 1), 0)
                } else {
                    (k, p + r)
                };
                proof {
                    lemma_chain_take(arr@, pos as int, left as int, len as int, k + 1);
                    lemma_chain_skip(
                        arr@,
                        pos as int,
                        left as int,
                        len as int,
                        k2 as int,
                        pos2 as int,
                    );
                    lemma_chain_wf(arr@.skip(k2 as int), pos2 as int, left - len);
                }
                *self = BytesArray {
                    arr: slice_subrange(arr, k2, arr.len()),
                    pos: pos2,
                    len: left - len,
                };
                return Ok(front);
            }
            r = r - c;
            p = 0;
            k += 1;
        }
        proof {
            assert(arr@.take(arr@.len() as int) =~= arr@);
            lemma_chain_take(arr@, pos as int, left as int, 0, 0);
            chain_input(arr@, pos as int, left as int).lemma_skip_skip(0, 0);
            assert(arr@.take(0) =~= arr@);
        }
        Ok(BytesArray { arr, pos: 0, len: 0 })
    }

    fn pop(&mut self, len: usize) -> (r: Result<Cow<'a, [u8]>>) {
        let arr = self.arr;
        let pos = self.pos;
        let left = self.len;
        let ghost input = chain_input(arr@, pos as int, left as int);
        proof {
            use_type_invariant(&*self);
            lemma_chain_wf(arr@, pos as int, left as int);
            lemma_flat_len(arr@);
        }
        if len > left {
            return Err(Error::DataIsShort { expect: len, actual: left });
        }
        if arr.len() == 0 {
            let nothing: &'a [u8] = &[];
            proof {
                input.lemma_skip_skip(0, 0);
                assert(nothing@ =~= input.bytes.take(0));
            }
            return Ok(Cow::Borrowed(nothing));
        }
        let first = arr[0];
        let first_left = first.len() - pos;
        proof {
            lemma_next_segment(arr@, 0);
            lemma_split(arr@, 1);
            assert(arr@.take(0) =~= Seq::<&[u8]>::empty());
            assert(flat(arr@.take(1)) =~= first@);
        }
        if len <= first_left {
            let lent = slice_subrange(first, pos, pos + len);
            let (k2, pos2) = if len == first_left {
                (skip_empty(arr, 1), 0)
            } else {
                (0, pos + len)
            };
            proof {
                lemma_chain_skip(arr@, pos as int, left as int, len as int, k2 as int, pos2 as int);
                lemma_chain_wf(arr@.skip(k2 as int), pos2 as int, left - len);
                assert(lent@ =~= input.bytes.take(len as int));
            }
            *self = BytesArray {
                arr: slice_subrange(arr, k2, arr.len()),
                pos: pos2,
                len: left - len,
            };
            Ok(Cow::Borrowed(lent))
        } else {
            let mut out: Vec<u8> = Vec::new();
            push_all(&mut out, slice_subrange(first, pos, first.len()));
            let mut remain = len - first_left;
            let mut k: usize = 1;
            let mut pos2: usize = 0;
            assert(out@ =~= flat(arr@).subrange(pos as int, first@.len() as int));
            while remain > 0
                invariant
                    1 <= k <= arr@.len(),
                    len <= left,
                    pos + left <= total(arr@),
                    flat(arr@).len() == total(arr@),
                    total(arr@.take(k as int)) + pos2 + remain == pos + len,
                    remain > 0 ==> pos2 == 0,
                    pos <= total(arr@.take(k as int)),
                    pos2 > 0 ==> k < arr@.len() && pos2 < arr@[k as int]@.len(),
                    out@ == flat(arr@).subrange(pos as int, total(arr@.take(k as int)) + pos2),
                decreases arr@.len() - k, remain,
            {
                proof {
                    if k == arr@.len() {
                        assert(arr@.take(k as int) =~= arr@);
                    }
                    lemma_next_segment(arr@, k as int);
                    lemma_split(arr@, k as int);
                    lemma_split(arr@, k + 1);
                }
                let seg = arr[k];
                let ghost abs = total(arr@.take(k as int)) as int;
                assert(flat(arr@).subrange(abs, abs + seg@.len()) =~= seg@);
                if remain < seg.len() {
                    push_all(&mut out, slice_subrange(seg, 0, remain));
                    pos2 = remain;
                    remain = 0;
                    assert(out@ =~= flat(arr@).subrange(pos as int, abs + pos2));
                } else {
                    remain = remain - seg.len();
                    push_all(&mut out, seg);
                    k += 1;
                    assert(out@ =~= flat(arr@).subrange(pos as int, abs + seg@.len()));
                }
            }
            if pos2 == 0 {
                k = skip_empty(arr, k);
            }
            proof {
                lemma_chain_skip(arr@, pos as int, left as int, len as int, k as int, pos2 as int);
                lemma_chain_wf(arr@.skip(k as int), pos2 as int, left - len);
                assert(out@ =~= input.bytes.take(len as int));
                lemma_run_bounds(arr@, pos as int);
            }
            *self = BytesArray {
                arr: slice_subrange(arr, k, arr.len()),
                pos: pos2,
                len: left - len,
            };
            Ok(Cow::Owned(out))
        }
    }
}

} // verus!
