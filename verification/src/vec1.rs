//! A non-empty owned sequence.
//!
//! [`Vec1`] wraps an owned, growable sequence together with the proof that it
//! holds at least one element. The wrapper carries no state beyond the
//! sequence itself; it is created through the conversion protocol of
//! [`FromMaybeEmpty`] and dissolved again by [`Vec1::into_inner`] with no
//! re-validation. Its surface has no operation that could shrink the
//! sequence to empty: growing and element-wise writes are offered, removal
//! is done on the plain sequence after dissolution.

use crate::FromMaybeEmpty;
use crate::MaybeEmpty;
use crate::iter1::Iterator1;
use crate::safety::NonZeroExt;
use crate::safety::NonZeroLen;
use vstd::prelude::*;

verus! {

/// An owned sequence that is proven to hold at least one element.
pub struct Vec1<T> {
    items: Vec<T>,
}

impl<T> View for Vec1<T> {
    type V = Seq<T>;

    closed spec fn view(&self) -> Seq<T> {
        self.items@
    }
}

impl<T> Vec1<T> {
    /// The invariant carried by every wrapper this module hands out: the
    /// sequence holds at least one element.
    pub open spec fn wf(&self) -> bool {
        self@.len() >= 1
    }

    /// Wraps `items` if it is non-empty; otherwise returns it unchanged as
    /// the error.
    pub fn try_from_vec(items: Vec<T>) -> (r: Result<Vec1<T>, Vec<T>>)
        ensures
            items@.len() >= 1 ==> (r matches Ok(w) && w@ == items@ && w.wf()),
            items@.len() == 0 ==> (r matches Err(e) && e@ == items@),
    {
        FromMaybeEmpty::try_from_maybe_empty(items)
    }

    /// Wraps `items` on the strength of a non-emptiness proof supplied by
    /// the caller.
    pub fn from_vec_unchecked(items: Vec<T>) -> (r: Vec1<T>)
        requires
            items@.len() >= 1,
        ensures
            r@ == items@,
            r.wf(),
    {
        FromMaybeEmpty::from_maybe_empty_unchecked(items)
    }

    /// Borrows the plain sequence, with no re-validation.
    pub fn as_inner(&self) -> (r: &Vec<T>)
        ensures
            r@ == self@,
    {
        &self.items
    }

    /// Borrows the plain sequence exclusively. The borrower may grow or
    /// shrink it freely; the wrapper afterwards describes whatever sequence
    /// the borrower left behind.
    pub fn as_inner_mut(&mut self) -> (r: &mut Vec<T>)
        ensures
            r@ == old(self)@,
            final(self)@ == final(r)@,
    {
        &mut self.items
    }

    /// Dissolves the wrapper into the plain sequence, with no re-validation.
    pub fn into_inner(self) -> (r: Vec<T>)
        ensures
            r@ == self@,
    {
        let Vec1 { items } = self;
        items
    }

    /// Borrows the elements as a plain view.
    pub fn as_slice(&self) -> (r: &[T])
        ensures
            r@ == self@,
    {
        self.items.as_slice()
    }

    /// The first element; total, there is no empty case.
    pub fn first(&self) -> (r: &T)
        requires
            self.wf(),
        ensures
            *r == self@[0],
    {
        vstd::slice::slice_index_get(self.items.as_slice(), 0)
    }

    /// The last element; total, there is no empty case.
    pub fn last(&self) -> (r: &T)
        requires
            self.wf(),
        ensures
            *r == self@[self@.len() - 1],
    {
        let i = self.items.len() - 1;
        vstd::slice::slice_index_get(self.items.as_slice(), i)
    }

    /// Borrows the first element exclusively; total, there is no empty case.
    pub fn first_mut(&mut self) -> (r: &mut T)
        requires
            old(self).wf(),
        ensures
            *r == old(self)@[0],
            final(self)@ == old(self)@.update(0, *final(r)),
    {
        &mut self.items[0]
    }

    /// Borrows the last element exclusively; total, there is no empty case.
    pub fn last_mut(&mut self) -> (r: &mut T)
        requires
            old(self).wf(),
        ensures
            *r == old(self)@[old(self)@.len() - 1],
            final(self)@ == old(self)@.update(old(self)@.len() - 1, *final(r)),
    {
        let i = self.items.len() - 1;
        &mut self.items[i]
    }

    /// Borrows the elements as a plain exclusive view. The borrower may
    /// rearrange or overwrite elements but can never change how many there
    /// are, so non-emptiness is preserved.
    pub fn as_mut_slice(&mut self) -> (r: &mut [T])
        ensures
            r@ == old(self)@,
            final(self)@ == final(r)@,
    {
        self.items.as_mut_slice()
    }

    /// Splits off an exclusive borrow of the first element — totally, with
    /// no empty case — together with the possibly-empty exclusive tail.
    pub fn split_first_mut(&mut self) -> (r: (&mut T, &mut [T]))
        requires
            old(self).wf(),
        ensures
            *r.0 == old(self)@[0],
            r.1@ == old(self)@.skip(1),
            final(self)@ == seq![*final(r.0)] + final(r.1)@,
    {
        let (head_part, tail) = self.items.as_mut_slice().split_at_mut(1);
        let head = match head_part.first_mut() {
            Some(h) => h,
            None => vstd::pervasive::unreached(),
        };
        proof {
            assert(old(self)@.subrange(1, old(self)@.len() as int) =~= old(self)@.skip(1));
            assert(old(self)@.subrange(0, 1).update(0, *final(head)) =~= seq![*final(head)]);
        }
        (head, tail)
    }

    /// A non-empty iteration of exclusive borrows of the elements, in
    /// order. The sequence afterwards holds, position by position, whatever
    /// the borrower left in each borrow; its length cannot change.
    pub fn iter1_mut<'s>(&'s mut self) -> (r: Iterator1<&'s mut T>)
        requires
            old(self).wf(),
        ensures
            r@.len() == old(self)@.len(),
            forall|i: int| 0 <= i < r@.len() ==> *(#[trigger] r@[i]) == old(self)@[i],
            final(self)@ == Seq::new(old(self)@.len(), |i: int| *final(r@[i])),
            r.wf(),
    {
        let out = collect_mut_refs(self.items.as_mut_slice());
        Iterator1::from_iter_unchecked(out)
    }

    /// Exclusive chunks of `n` elements, in order; the last chunk holds the
    /// remainder. The iteration over the chunks is non-empty by
    /// construction-time arithmetic, every chunk is non-empty, and the
    /// sequence afterwards is the concatenation, in order, of whatever the
    /// borrower left in each chunk.
    pub fn chunks_mut<'s>(&'s mut self, n: usize) -> (r: Iterator1<&'s mut [T]>)
        requires
            old(self).wf(),
            n >= 1,
        ensures
            r@.len() == crate::slice1::chunks_of(old(self)@, n as nat).len(),
            forall|i: int|
                0 <= i < r@.len() ==> r@[i]@ == #[trigger] crate::slice1::chunks_of(
                    old(self)@,
                    n as nat,
                )[i],
            final(self)@ == Seq::new(r@.len(), |i: int| final(r@[i])@).flatten(),
            r.wf(),
    {
        proof {
            crate::slice1::lemma_chunks_of(old(self)@, n as nat);
        }
        let out = collect_mut_chunks(self.items.as_mut_slice(), n);
        Iterator1::from_iter_unchecked(out)
    }

    /// Exclusive chunks of `n` elements taken from the end, in order from
    /// the end; the last chunk holds the front remainder. The iteration is
    /// non-empty by construction-time arithmetic, every chunk is non-empty,
    /// and the sequence afterwards is the concatenation, in reverse chunk
    /// order, of whatever the borrower left in each chunk.
    pub fn rchunks_mut<'s>(&'s mut self, n: usize) -> (r: Iterator1<&'s mut [T]>)
        requires
            old(self).wf(),
            n >= 1,
        ensures
            r@.len() == crate::slice1::rchunks_of(old(self)@, n as nat).len(),
            forall|i: int|
                0 <= i < r@.len() ==> r@[i]@ == #[trigger] crate::slice1::rchunks_of(
                    old(self)@,
                    n as nat,
                )[i],
            final(self)@ == Seq::new(r@.len(), |i: int| final(r@[r@.len() - 1 - i])@).flatten(),
            r.wf(),
    {
        proof {
            crate::slice1::lemma_rchunks_of(old(self)@, n as nat);
        }
        let out = collect_mut_rchunks(self.items.as_mut_slice(), n);
        Iterator1::from_iter_unchecked(out)
    }

    /// Appends an element. Growing can never break non-emptiness.
    pub fn push(&mut self, value: T)
        ensures
            final(self)@ == old(self)@.push(value),
    {
        self.items.push(value);
    }

    /// The number of elements, as a provably-positive count.
    pub fn len(&self) -> (r: NonZeroLen)
        requires
            self.wf(),
        ensures
            r@ == self@.len(),
    {
        NonZeroExt::new_maybe_unchecked(self.items.len())
    }
}

/// Collects one exclusive borrow of each element of `s`, in order. The
/// slice afterwards holds, position by position, whatever was left in each
/// borrow.
fn collect_mut_refs<'s, T>(s: &'s mut [T]) -> (r: Vec<&'s mut T>)
    ensures
        r@.len() == old(s)@.len(),
        forall|i: int| 0 <= i < r@.len() ==> *(#[trigger] r@[i]) == old(s)@[i],
        final(s)@ == Seq::new(old(s)@.len(), |i: int| *final(r@[i])),
    decreases old(s)@.len(),
{
    if s.len() == 0 {
        Vec::new()
    } else {
        let (head_part, tail) = s.split_at_mut(1);
        let head = match head_part.first_mut() {
            Some(h) => h,
            None => vstd::pervasive::unreached(),
        };
        let mut rest = collect_mut_refs(tail);
        let ghost rest_refs = rest@;
        let ghost h = head;
        rest.insert(0, head);
        proof {
            assert(old(s)@.subrange(0, 1).update(0, *final(h)) =~= seq![*final(h)]);
            let tail_len = old(s)@.subrange(1, old(s)@.len() as int).len();
            assert(Seq::new(old(s)@.len(), |i: int| *final(rest@[i])) =~= seq![*final(h)]
                + Seq::new(tail_len, |i: int| *final(rest_refs[i])));
        }
        rest
    }
}

/// Splits `s` into exclusive chunks of `n` elements, in order; the last
/// chunk holds the remainder. The slice afterwards is the concatenation of
/// whatever was left in each chunk.
fn collect_mut_chunks<'s, T>(s: &'s mut [T], n: usize) -> (r: Vec<&'s mut [T]>)
    requires
        n >= 1,
    ensures
        r@.len() == crate::slice1::chunks_of(old(s)@, n as nat).len(),
        forall|i: int|
            0 <= i < r@.len() ==> r@[i]@ == #[trigger] crate::slice1::chunks_of(
                old(s)@,
                n as nat,
            )[i],
        final(s)@ == Seq::new(r@.len(), |i: int| final(r@[i])@).flatten(),
    decreases old(s)@.len(),
{
    let ghost chunks = crate::slice1::chunks_of(old(s)@, n as nat);
    if s.len() == 0 {
        proof {
            assert(Seq::new(0, |i: int| Seq::<T>::empty()).flatten() =~= Seq::<T>::empty());
        }
        Vec::new()
    } else {
        let m = if s.len() <= n {
            s.len()
        } else {
            n
        };
        let (head_part, tail) = s.split_at_mut(m);
        let mut rest = collect_mut_chunks(tail, n);
        let ghost rest_chunks = rest@;
        let ghost h = head_part;
        rest.insert(0, head_part);
        proof {
            assert(h@ =~= old(s)@.take(m as int));
            assert(old(s)@.subrange(m as int, old(s)@.len() as int) =~= old(s)@.skip(m as int));
            if old(s)@.len() <= n {
                assert(old(s)@.take(m as int) =~= old(s)@);
                assert(chunks =~= seq![h@] + crate::slice1::chunks_of(
                    old(s)@.skip(m as int),
                    n as nat,
                ));
            } else {
                assert(chunks =~= seq![h@] + crate::slice1::chunks_of(
                    old(s)@.skip(m as int),
                    n as nat,
                ));
            }
            let finals = Seq::new(rest@.len(), |i: int| final(rest@[i])@);
            let rest_finals = Seq::new(rest_chunks.len(), |i: int| final(rest_chunks[i])@);
            assert(finals =~= seq![final(h)@] + rest_finals);
            assert(finals.first() == final(h)@);
            assert(finals.drop_first() =~= rest_finals);
            assert(finals.flatten() == final(h)@ + rest_finals.flatten());
        }
        rest
    }
}

/// Splits `s` into exclusive chunks of `n` elements taken from the end, in
/// order from the end; the last chunk holds the front remainder. The slice
/// afterwards is the concatenation, in reverse chunk order, of whatever was
/// left in each chunk.
fn collect_mut_rchunks<'s, T>(s: &'s mut [T], n: usize) -> (r: Vec<&'s mut [T]>)
    requires
        n >= 1,
    ensures
        r@.len() == crate::slice1::rchunks_of(old(s)@, n as nat).len(),
        forall|i: int|
            0 <= i < r@.len() ==> r@[i]@ == #[trigger] crate::slice1::rchunks_of(
                old(s)@,
                n as nat,
            )[i],
        final(s)@ == Seq::new(r@.len(), |i: int| final(r@[r@.len() - 1 - i])@).flatten(),
    decreases old(s)@.len(),
{
    broadcast use vstd::prelude::Seq::lemma_flatten_push;

    if s.len() == 0 {
        proof {
            assert(Seq::new(0, |i: int| Seq::<T>::empty()).flatten() =~= Seq::<T>::empty());
        }
        Vec::new()
    } else {
        let m = if s.len() <= n {
            s.len()
        } else {
            n
        };
        let cut = s.len() - m;
        let (front, chunk) = s.split_at_mut(cut);
        let mut rest = collect_mut_rchunks(front, n);
        let ghost rest_chunks = rest@;
        let ghost hc = chunk;
        rest.insert(0, chunk);
        proof {
            assert(hc@ =~= old(s)@.skip(cut as int));
            assert(old(s)@.subrange(0, cut as int) =~= old(s)@.take(cut as int));
            if old(s)@.len() <= n {
                assert(hc@ =~= old(s)@);
                assert(old(s)@.take(cut as int) =~= Seq::<T>::empty());
            }
            assert(crate::slice1::rchunks_of(old(s)@, n as nat) =~= seq![hc@]
                + crate::slice1::rchunks_of(old(s)@.take(cut as int), n as nat));
            let finals = Seq::new(rest@.len(), |i: int| final(rest@[rest@.len() - 1 - i])@);
            let rest_finals = Seq::new(
                rest_chunks.len(),
                |i: int| final(rest_chunks[rest_chunks.len() - 1 - i])@,
            );
            assert(finals =~= rest_finals.push(final(hc)@));
            assert(finals.flatten() =~= rest_finals.flatten() + final(hc)@);
        }
        rest
    }
}

/// Law: wrapping and dissolving an owned sequence are mutually inverse. A
/// wrapper built from a non-empty sequence — as [`Vec1::try_from_vec`]
/// builds it — has exactly that sequence, so the plain sequence recovered by
/// [`Vec1::into_inner`] equals the one that was wrapped; and the recovered
/// sequence is never empty, so wrapping it again always succeeds.
pub proof fn lemma_vec_round_trip<T>(items: Seq<T>, w: Vec1<T>)
    requires
        items.len() >= 1,
        w@ == items,
    ensures
        w.wf(),
        w@.len() >= 1,
{
}

impl<T> FromMaybeEmpty<T, Vec<T>> for Vec1<T> {
    fn try_from_maybe_empty(c: Vec<T>) -> (r: Result<Self, Vec<T>>) {
        match c.cardinality() {
            Some(_) => Ok(Vec1 { items: c }),
            None => Err(c),
        }
    }

    fn from_maybe_empty_unchecked(c: Vec<T>) -> (r: Self) {
        Vec1 { items: c }
    }
}

} // verus!
