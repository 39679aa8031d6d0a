//! Trait for concatenating two tuples.

use vstd::prelude::*;
use crate::tuple_utils::first_last::TupleFirstElement;
use crate::tuple_utils::prepend_append::TuplePrepend;
use crate::tuple_utils::tuple_core::Tuple;

verus! {

/// Trait for concatenating a tuple with another tuple `Right`.
pub trait TupleConcat<Right>: Sized {
    /// The concatenated tuple type.
    type ConcatenatedTuple: Tuple;

    /// The concatenated tuple, as a value.
    spec fn spec_concat(self, other: Right) -> Self::ConcatenatedTuple;

    /// Returns this tuple's elements followed by `other`'s.
    fn concat(self, other: Right) -> (r: Self::ConcatenatedTuple)
        ensures
            r == self.spec_concat(other),
    ;
}

impl<Right: Tuple> TupleConcat<Right> for () {
    type ConcatenatedTuple = Right;

    open spec fn spec_concat(self, other: Right) -> Right {
        other
    }

    fn concat(self, other: Right) -> (r: Right) {
        other
    }
}

impl<Left, Right> TupleConcat<Right> for Left where
    Left: TupleFirstElement,
    Left::Rest: TupleConcat<Right>,
    <Left::Rest as TupleConcat<Right>>::ConcatenatedTuple: TuplePrepend<Left::First>,
 {
    type ConcatenatedTuple = <<Left::Rest as TupleConcat<Right>>::ConcatenatedTuple as TuplePrepend<
        Left::First,
    >>::PrependedTuple;

    open spec fn spec_concat(self, other: Right) -> Self::ConcatenatedTuple {
        self.spec_split_first().1.spec_concat(other).spec_prepend(self.spec_split_first().0)
    }

    fn concat(self, other: Right) -> (r: Self::ConcatenatedTuple) {
        let (first, rest) = self.split_first();
        rest.concat(other).prepend(first)
    }
}

} // verus!
