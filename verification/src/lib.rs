//! Containers that are statically known to hold at least one element.
//!
//! A plain container may or may not be empty; its size is classified by
//! [`MaybeEmpty::cardinality`]. A container that classifies as non-empty can
//! be wrapped, and the wrapper's existence is the proof that the container
//! holds at least one element: every accessor of the wrapper is total, and no
//! operation reachable through the wrapper can leave it empty.
//!
//! The wrappers are [`slice1::Slice1`], a non-empty read-only view of a
//! borrowed sequence, [`vec1::Vec1`], a non-empty owned sequence, and
//! [`iter1::Iterator1`], a non-empty sequence of pending values. Each is
//! created through the conversion protocol of [`FromMaybeEmpty`]: a fallible
//! conversion that hands the container back unchanged on rejection, and an
//! unchecked conversion whose precondition — that the container is non-empty —
//! is discharged statically at every call site.

use vstd::prelude::*;

pub mod iter1;
pub mod safety;
pub mod slice1;
pub mod vec1;

verus! {

/// Classification of the size of a non-empty container: exactly one element,
/// or many (two or more). An empty container has no cardinality; a size query
/// reports `None` for it.
#[derive(Clone, Copy, Debug, PartialEq, Eq, Structural)]
pub enum Cardinality {
    One,
    Many,
}

/// A container that can classify its own size in a length query, without
/// being consumed or mutated.
///
/// This classification is the single source of truth that every non-empty
/// wrapper reduces to: a container is wrappable exactly when its cardinality
/// is not `None`.
pub trait MaybeEmpty {
    /// The number of elements the container holds.
    spec fn size(&self) -> nat;

    /// Classifies the container's size: `None` for empty, `One` for exactly
    /// one element, `Many` for two or more.
    fn cardinality(&self) -> (r: Option<Cardinality>)
        ensures
            (r is None) <==> self.size() == 0,
            (r == Some(Cardinality::One)) <==> self.size() == 1,
            (r == Some(Cardinality::Many)) <==> self.size() >= 2,
    ;
}

impl<T> MaybeEmpty for [T] {
    open spec fn size(&self) -> nat {
        self@.len()
    }

    fn cardinality(&self) -> (r: Option<Cardinality>) {
        let n = self.len();
        if n == 0 {
            None
        } else if n == 1 {
            Some(Cardinality::One)
        } else {
            Some(Cardinality::Many)
        }
    }
}

impl<T> MaybeEmpty for Vec<T> {
    open spec fn size(&self) -> nat {
        self@.len()
    }

    fn cardinality(&self) -> (r: Option<Cardinality>) {
        let n = self.len();
        if n == 0 {
            None
        } else if n == 1 {
            Some(Cardinality::One)
        } else {
            Some(Cardinality::Many)
        }
    }
}

/// The conversion protocol between a plain container `C` and its proven
/// non-empty wrapper.
///
/// Both directions preserve the container's contents exactly: the fallible
/// conversion wraps without copying and returns the original container as the
/// error when it is empty, and the unchecked conversion trusts a
/// non-emptiness proof established at the call site.
pub trait FromMaybeEmpty<T, C: View<V = Seq<T>>>: View<V = Seq<T>> + Sized {
    /// Wraps `c` if it is non-empty; otherwise returns `c` itself, unchanged,
    /// as the error. No data is lost in either case.
    fn try_from_maybe_empty(c: C) -> (r: Result<Self, C>)
        ensures
            c@.len() >= 1 ==> (r matches Ok(w) && w@ == c@),
            c@.len() == 0 ==> (r matches Err(e) && e@ == c@),
    ;

    /// Wraps `c` on the strength of a non-emptiness proof supplied by the
    /// caller; no check is performed at run time.
    fn from_maybe_empty_unchecked(c: C) -> (r: Self)
        requires
            c@.len() >= 1,
        ensures
            r@ == c@,
    ;
}

} // verus!
