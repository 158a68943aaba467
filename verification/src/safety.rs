//! Precondition-bearing primitives shared by the non-empty wrappers.
//!
//! Each capability here names an operation that is only meaningful when a
//! precondition holds: unwrapping a value that is known to be present,
//! constructing a positive number from a number known to be non-zero, or
//! indexing at a position known to be in bounds. Every precondition is a
//! `requires` clause and is discharged statically at each call site, so the
//! operations carry no run-time check and no failure path: a build that
//! re-validates the preconditions and a build that assumes them would behave
//! identically, because the preconditions are proven to hold on every
//! reachable call.

use vstd::pervasive::unreached;
use vstd::prelude::*;

verus! {

/// Capability of fixed-capacity containers: appending an element once a
/// vacancy has been proven. Implemented only by backends that carry a
/// capacity bound; growable backends never need it.
pub trait ArrayVecExt<T> {
    /// The number of elements currently held.
    spec fn filled(&self) -> nat;

    /// The fixed capacity of the container.
    spec fn capacity(&self) -> nat;

    /// Appends `item`. The caller has proven that a vacancy exists.
    fn push_maybe_unchecked(&mut self, item: T)
        requires
            old(self).filled() < old(self).capacity(),
    ;
}

/// Construction of a provably non-zero number from a plain number.
pub trait NonZeroExt<T>: Sized {
    /// Whether `n` is an admissible, non-zero input.
    spec fn is_nonzero(n: T) -> bool;

    /// The plain number that the constructed value stands for.
    spec fn value_of(self) -> T;

    /// Constructs from `n`. The caller has proven that `n` is non-zero.
    fn new_maybe_unchecked(n: T) -> (r: Self)
        requires
            Self::is_nonzero(n),
        ensures
            r.value_of() == n,
    ;
}

/// Unwrapping an optional value that is known to be present.
pub trait OptionExt<T>: Sized {
    /// Whether a value is present.
    spec fn has_value(self) -> bool;

    /// The value that is present.
    spec fn value(self) -> T;

    /// Returns the contained value. The caller has proven it is present.
    fn unwrap_maybe_unchecked(self) -> (r: T)
        requires
            self.has_value(),
        ensures
            r == self.value(),
    ;
}

/// Unwrapping a result that is known to be a success.
pub trait ResultExt<T, E>: Sized {
    /// Whether the result is a success.
    spec fn has_value(self) -> bool;

    /// The success value.
    spec fn value(self) -> T;

    /// Returns the success value. The caller has proven the result is one.
    fn unwrap_maybe_unchecked(self) -> (r: T)
        requires
            self.has_value(),
        ensures
            r == self.value(),
    ;
}

/// Indexing at a position that is known to be in bounds.
pub trait SliceExt<T>: View<V = Seq<T>> {
    /// Reads the element at `index`. The caller has proven it in bounds.
    fn get_maybe_unchecked(&self, index: usize) -> (r: &T)
        requires
            index < self@.len(),
        ensures
            *r == self@[index as int],
    ;

    /// Borrows the element at `index` exclusively. The caller has proven it
    /// in bounds.
    fn get_maybe_unchecked_mut(&mut self, index: usize) -> (r: &mut T)
        requires
            index < old(self)@.len(),
        ensures
            *r == old(self)@[index as int],
            final(self)@ == old(self)@.update(index as int, *final(r)),
    ;
}

impl<T> OptionExt<T> for Option<T> {
    open spec fn has_value(self) -> bool {
        self is Some
    }

    open spec fn value(self) -> T {
        self->Some_0
    }

    fn unwrap_maybe_unchecked(self) -> (r: T) {
        match self {
            Some(t) => t,
            None => unreached(),
        }
    }
}

impl<T, E> ResultExt<T, E> for Result<T, E> {
    open spec fn has_value(self) -> bool {
        self is Ok
    }

    open spec fn value(self) -> T {
        self->Ok_0
    }

    fn unwrap_maybe_unchecked(self) -> (r: T) {
        match self {
            Ok(t) => t,
            Err(_) => unreached(),
        }
    }
}

impl<T> SliceExt<T> for [T] {
    fn get_maybe_unchecked(&self, index: usize) -> (r: &T) {
        vstd::slice::slice_index_get(self, index)
    }

    fn get_maybe_unchecked_mut(&mut self, index: usize) -> (r: &mut T) {
        &mut self[index]
    }
}

/// A count that is statically known to be positive: the length reported by a
/// non-empty container.
#[derive(Clone, Copy, Debug)]
pub struct NonZeroLen {
    value: usize,
}

impl View for NonZeroLen {
    type V = usize;

    closed spec fn view(&self) -> usize {
        self.value
    }
}

impl NonZeroLen {
    #[verifier::type_invariant]
    spec fn positive(self) -> bool {
        self.value >= 1
    }

    /// Constructs from `n` when `n` is positive; rejects zero.
    pub fn new(n: usize) -> (r: Option<NonZeroLen>)
        ensures
            n >= 1 ==> (r matches Some(l) && l@ == n),
            n == 0 ==> r is None,
    {
        if n >= 1 {
            Some(NonZeroLen { value: n })
        } else {
            None
        }
    }

    /// The plain number: always positive.
    pub fn get(&self) -> (r: usize)
        ensures
            r == self@,
            r >= 1,
    {
        proof {
            use_type_invariant(&*self);
        }
        self.value
    }
}

impl NonZeroExt<usize> for NonZeroLen {
    open spec fn is_nonzero(n: usize) -> bool {
        n >= 1
    }

    open spec fn value_of(self) -> usize {
        self@
    }

    fn new_maybe_unchecked(n: usize) -> (r: Self) {
        NonZeroLen { value: n }
    }
}

} // verus!
