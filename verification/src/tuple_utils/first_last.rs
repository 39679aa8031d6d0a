//! Traits for splitting a tuple at its first or last element.

use vstd::prelude::*;
use crate::tuple_utils::tuple_core::Tuple;

verus! {

/// Trait for tuples with a first element.
pub trait TupleFirstElement: Sized {
    /// The first element's type.
    type First;

    /// The tuple of the remaining elements.
    type Rest: Tuple;

    /// The first element and the rest, as values.
    spec fn spec_split_first(self) -> (Self::First, Self::Rest);

    /// Splits the tuple into its first element and the rest.
    fn split_first(self) -> (r: (Self::First, Self::Rest))
        ensures
            r == self.spec_split_first(),
    ;
}

impl<A> TupleFirstElement for (A,) {
    type First = A;

    type Rest = ();

    open spec fn spec_split_first(self) -> (A, ()) {
        (self.0, ())
    }

    fn split_first(self) -> (r: (A, ())) {
        (self.0, ())
    }
}

impl<A, B> TupleFirstElement for (A, B) {
    type First = A;

    type Rest = (B,);

    open spec fn spec_split_first(self) -> (A, (B,)) {
        (self.0, (self.1,))
    }

    fn split_first(self) -> (r: (A, (B,))) {
        (self.0, (self.1,))
    }
}

impl<A, B, C> TupleFirstElement for (A, B, C) {
    type First = A;

    type Rest = (B, C);

    open spec fn spec_split_first(self) -> (A, (B, C)) {
        (self.0, (self.1, self.2))
    }

    fn split_first(self) -> (r: (A, (B, C))) {
        (self.0, (self.1, self.2))
    }
}

impl<A, B, C, D> TupleFirstElement for (A, B, C, D) {
    type First = A;

    type Rest = (B, C, D);

    open spec fn spec_split_first(self) -> (A, (B, C, D)) {
        (self.0, (self.1, self.2, self.3))
    }

    fn split_first(self) -> (r: (A, (B, C, D))) {
        (self.0, (self.1, self.2, self.3))
    }
}

impl<A, B, C, D, E> TupleFirstElement for (A, B, C, D, E) {
    type First = A;

    type Rest = (B, C, D, E);

    open spec fn spec_split_first(self) -> (A, (B, C, D, E)) {
        (self.0, (self.1, self.2, self.3, self.4))
    }

    fn split_first(self) -> (r: (A, (B, C, D, E))) {
        (self.0, (self.1, self.2, self.3, self.4))
    }
}

/// Trait for tuples with a last element.
pub trait TupleLastElement: Sized {
    /// The last element's type.
    type Last;

    /// The tuple of the elements before the last.
    type Rest: Tuple;

    /// The rest and the last element, as values.
    spec fn spec_split_last(self) -> (Self::Rest, Self::Last);

    /// Splits the tuple into the elements before the last and the last.
    fn split_last(self) -> (r: (Self::Rest, Self::Last))
        ensures
            r == self.spec_split_last(),
    ;
}

impl<A> TupleLastElement for (A,) {
    type Last = A;

    type Rest = ();

    open spec fn spec_split_last(self) -> ((), A) {
        ((), self.0)
    }

    fn split_last(self) -> (r: ((), A)) {
        ((), self.0)
    }
}

impl<A, B> TupleLastElement for (A, B) {
    type Last = B;

    type Rest = (A,);

    open spec fn spec_split_last(self) -> ((A,), B) {
        ((self.0,), self.1)
    }

    fn split_last(self) -> (r: ((A,), B)) {
        ((self.0,), self.1)
    }
}

impl<A, B, C> TupleLastElement for (A, B, C) {
    type Last = C;

    type Rest = (A, B);

    open spec fn spec_split_last(self) -> ((A, B), C) {
        ((self.0, self.1), self.2)
    }

    fn split_last(self) -> (r: ((A, B), C)) {
        ((self.0, self.1), self.2)
    }
}

impl<A, B, C, D> TupleLastElement for (A, B, C, D) {
    type Last = D;

    type Rest = (A, B, C);

    open spec fn spec_split_last(self) -> ((A, B, C), D) {
        ((self.0, self.1, self.2), self.3)
    }

    fn split_last(self) -> (r: ((A, B, C), D)) {
        ((self.0, self.1, self.2), self.3)
    }
}

impl<A, B, C, D, E> TupleLastElement for (A, B, C, D, E) {
    type Last = E;

    type Rest = (A, B, C, D);

    open spec fn spec_split_last(self) -> ((A, B, C, D), E) {
        ((self.0, self.1, self.2, self.3), self.4)
    }

    fn split_last(self) -> (r: ((A, B, C, D), E)) {
        ((self.0, self.1, self.2, self.3), self.4)
    }
}

} // verus!
