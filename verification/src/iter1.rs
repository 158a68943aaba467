//! A non-empty sequence of pending values.
//!
//! [`Iterator1`] wraps the values an iteration will produce, in order,
//! together with the proof that there is at least one of them. Its first
//! value can therefore be extracted totally, with no empty case to consider;
//! the remainder reverts to a plain, possibly-empty sequence. A
//! transformation that could reduce the count to zero is deliberately absent
//! here: dropping values is done on the plain sequence after
//! [`Iterator1::into_inner`].

use crate::FromMaybeEmpty;
use crate::MaybeEmpty;
use vstd::prelude::*;

verus! {

/// A producer of values that is proven to produce at least one before it is
/// exhausted. The pending values are held in production order.
pub struct Iterator1<C> {
    items: Vec<C>,
}

impl<C> View for Iterator1<C> {
    type V = Seq<C>;

    closed spec fn view(&self) -> Seq<C> {
        self.items@
    }
}

impl<C> Iterator1<C> {
    /// The invariant carried by every wrapper this module hands out: at
    /// least one value is still to be produced.
    pub open spec fn wf(&self) -> bool {
        self@.len() >= 1
    }

    /// Wraps the pending values `items` if there is at least one; otherwise
    /// returns them unchanged as the error.
    pub fn try_from_iter(items: Vec<C>) -> (r: Result<Iterator1<C>, Vec<C>>)
        ensures
            items@.len() >= 1 ==> (r matches Ok(w) && w@ == items@ && w.wf()),
            items@.len() == 0 ==> (r matches Err(e) && e@ == items@),
    {
        FromMaybeEmpty::try_from_maybe_empty(items)
    }

    /// Wraps the pending values `items` on the strength of a non-emptiness
    /// proof supplied by the caller, such as the chunk-count arithmetic of a
    /// chunked iteration.
    pub fn from_iter_unchecked(items: Vec<C>) -> (r: Iterator1<C>)
        requires
            items@.len() >= 1,
        ensures
            r@ == items@,
            r.wf(),
    {
        FromMaybeEmpty::from_maybe_empty_unchecked(items)
    }

    /// Extracts the first pending value — totally, with no empty case — and
    /// returns it together with the plain, possibly-empty remainder.
    pub fn first(self) -> (r: (C, Vec<C>))
        requires
            self.wf(),
        ensures
            r.0 == self@[0],
            r.1@ == self@.skip(1),
    {
        let Iterator1 { mut items } = self;
        let head = items.remove(0);
        proof {
            assert(items@ =~= self@.skip(1));
        }
        (head, items)
    }

    /// Reads the first pending value without consuming anything.
    pub fn peek_first(&self) -> (r: &C)
        requires
            self.wf(),
        ensures
            *r == self@[0],
    {
        vstd::slice::slice_index_get(self.items.as_slice(), 0)
    }

    /// The number of pending values.
    pub fn len(&self) -> (r: usize)
        ensures
            r == self@.len(),
    {
        self.items.len()
    }

    /// Reverts to the plain, possibly-empty sequence of pending values, with
    /// no re-validation. Shrinking transformations, such as filtering, are
    /// applied after this downgrade.
    pub fn into_inner(self) -> (r: Vec<C>)
        ensures
            r@ == self@,
    {
        let Iterator1 { items } = self;
        items
    }
}

impl<C> FromMaybeEmpty<C, Vec<C>> for Iterator1<C> {
    fn try_from_maybe_empty(c: Vec<C>) -> (r: Result<Self, Vec<C>>) {
        match c.cardinality() {
            Some(_) => Ok(Iterator1 { items: c }),
            None => Err(c),
        }
    }

    fn from_maybe_empty_unchecked(c: Vec<C>) -> (r: Self) {
        Iterator1 { items: c }
    }
}

} // verus!
