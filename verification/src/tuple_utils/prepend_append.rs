//! Traits for prepending and appending an element to a tuple.

use vstd::prelude::*;
use crate::tuple_utils::tuple_core::{NonEmptyTuple, TooBig};

verus! {

/// Trait for constructing a tuple with an element of type `Head` prepended.
pub trait TuplePrepend<Head>: Sized {
    /// The resulting tuple type.
    type PrependedTuple: NonEmptyTuple;

    /// The resulting tuple, as a value.
    spec fn spec_prepend(self, head: Head) -> Self::PrependedTuple;

    /// Returns the tuple with `head` prepended.
    fn prepend(self, head: Head) -> (r: Self::PrependedTuple)
        ensures
            r == self.spec_prepend(head),
    ;
}

impl<Head> TuplePrepend<Head> for () {
    type PrependedTuple = (Head,);

    open spec fn spec_prepend(self, head: Head) -> (Head,) {
        (head,)
    }

    fn prepend(self, head: Head) -> (r: (Head,)) {
        (head,)
    }
}

impl<Head, A> TuplePrepend<Head> for (A,) {
    type PrependedTuple = (Head, A);

    open spec fn spec_prepend(self, head: Head) -> (Head, A) {
        (head, self.0)
    }

    fn prepend(self, head: Head) -> (r: (Head, A)) {
        (head, self.0)
    }
}

impl<Head, A, B> TuplePrepend<Head> for (A, B) {
    type PrependedTuple = (Head, A, B);

    open spec fn spec_prepend(self, head: Head) -> (Head, A, B) {
        (head, self.0, self.1)
    }

    fn prepend(self, head: Head) -> (r: (Head, A, B)) {
        (head, self.0, self.1)
    }
}

impl<Head, A, B, C> TuplePrepend<Head> for (A, B, C) {
    type PrependedTuple = (Head, A, B, C);

    open spec fn spec_prepend(self, head: Head) -> (Head, A, B, C) {
        (head, self.0, self.1, self.2)
    }

    fn prepend(self, head: Head) -> (r: (Head, A, B, C)) {
        (head, self.0, self.1, self.2)
    }
}

impl<Head, A, B, C, D> TuplePrepend<Head> for (A, B, C, D) {
    type PrependedTuple = (Head, A, B, C, D);

    open spec fn spec_prepend(self, head: Head) -> (Head, A, B, C, D) {
        (head, self.0, self.1, self.2, self.3)
    }

    fn prepend(self, head: Head) -> (r: (Head, A, B, C, D)) {
        (head, self.0, self.1, self.2, self.3)
    }
}

impl<Head> TuplePrepend<Head> for TooBig {
    type PrependedTuple = TooBig;

    open spec fn spec_prepend(self, head: Head) -> TooBig {
        TooBig
    }

    fn prepend(self, head: Head) -> (r: TooBig) {
        TooBig
    }
}

/// Trait for constructing a tuple with an element of type `Tail` appended.
pub trait TupleAppend<Tail>: Sized {
    /// The resulting tuple type.
    type AppendedTuple: NonEmptyTuple;

    /// The resulting tuple, as a value.
    spec fn spec_append(self, tail: Tail) -> Self::AppendedTuple;

    /// Returns the tuple with `tail` appended.
    fn append(self, tail: Tail) -> (r: Self::AppendedTuple)
        ensures
            r == self.spec_append(tail),
    ;
}

impl<Tail> TupleAppend<Tail> for () {
    type AppendedTuple = (Tail,);

    open spec fn spec_append(self, tail: Tail) -> (Tail,) {
        (tail,)
    }

    fn append(self, tail: Tail) -> (r: (Tail,)) {
        (tail,)
    }
}

impl<Tail, A> TupleAppend<Tail> for (A,) {
    type AppendedTuple = (A, Tail);

    open spec fn spec_append(self, tail: Tail) -> (A, Tail) {
        (self.0, tail)
    }

    fn append(self, tail: Tail) -> (r: (A, Tail)) {
        (self.0, tail)
    }
}

impl<Tail, A, B> TupleAppend<Tail> for (A, B) {
    type AppendedTuple = (A, B, Tail);

    open spec fn spec_append(self, tail: Tail) -> (A, B, Tail) {
        (self.0, self.1, tail)
    }

    fn append(self, tail: Tail) -> (r: (A, B, Tail)) {
        (self.0, self.1, tail)
    }
}

impl<Tail, A, B, C> TupleAppend<Tail> for (A, B, C) {
    type AppendedTuple = (A, B, C, Tail);

    open spec fn spec_append(self, tail: Tail) -> (A, B, C, Tail) {
        (self.0, self.1, self.2, tail)
    }

    fn append(self, tail: Tail) -> (r: (A, B, C, Tail)) {
        (self.0, self.1, self.2, tail)
    }
}

impl<Tail, A, B, C, D> TupleAppend<Tail> for (A, B, C, D) {
    type AppendedTuple = (A, B, C, D, Tail);

    open spec fn spec_append(self, tail: Tail) -> (A, B, C, D, Tail) {
        (self.0, self.1, self.2, self.3, tail)
    }

    fn append(self, tail: Tail) -> (r: (A, B, C, D, Tail)) {
        (self.0, self.1, self.2, self.3, tail)
    }
}

impl<Tail> TupleAppend<Tail> for TooBig {
    type AppendedTuple = TooBig;

    open spec fn spec_append(self, tail: Tail) -> TooBig {
        TooBig
    }

    fn append(self, tail: Tail) -> (r: TooBig) {
        TooBig
    }
}

} // verus!
