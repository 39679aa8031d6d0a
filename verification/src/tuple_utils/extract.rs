//! Trait for extracting an element of a tuple by a type-level position,
//! splitting the tuple into the elements before it, the element, and the
//! elements after it.

use vstd::prelude::*;
use crate::mapped_index::compound_index::{Here, There};
use crate::tuple_utils::first_last::TupleFirstElement;
use crate::tuple_utils::prepend_append::TuplePrepend;
use crate::tuple_utils::tuple_core::Tuple;

verus! {

/// Trait for extracting the member of a tuple that the type-level position
/// `At` selects.
pub trait TupleExtract<At>: Sized {
    /// The tuple of the elements before the selected one.
    type Before: Tuple;

    /// The selected element's type.
    type Result;

    /// The tuple of the elements after the selected one.
    type After: Tuple;

    /// The three parts, as values.
    spec fn spec_extract(self) -> (Self::Before, Self::Result, Self::After);

    /// Splits the tuple into the elements before the selected position, the
    /// selected element, and the elements after it.
    fn extract_recursive(self) -> (r: (Self::Before, Self::Result, Self::After))
        ensures
            r == self.spec_extract(),
    ;
}

impl<T: TupleFirstElement> TupleExtract<Here> for T {
    type Before = ();

    type Result = T::First;

    type After = T::Rest;

    open spec fn spec_extract(self) -> ((), T::First, T::Rest) {
        ((), self.spec_split_first().0, self.spec_split_first().1)
    }

    fn extract_recursive(self) -> (r: ((), T::First, T::Rest)) {
        let (first, rest) = self.split_first();
        ((), first, rest)
    }
}

impl<T, Prev> TupleExtract<There<Prev>> for T where
    T: TupleFirstElement,
    T::Rest: TupleExtract<Prev>,
    <T::Rest as TupleExtract<Prev>>::Before: TuplePrepend<T::First>,
    <<T::Rest as TupleExtract<Prev>>::Before as TuplePrepend<T::First>>::PrependedTuple: Tuple,
 {
    type Before = <<T::Rest as TupleExtract<Prev>>::Before as TuplePrepend<
        T::First,
    >>::PrependedTuple;

    type Result = <T::Rest as TupleExtract<Prev>>::Result;

    type After = <T::Rest as TupleExtract<Prev>>::After;

    open spec fn spec_extract(self) -> (Self::Before, Self::Result, Self::After) {
        let rest_split = <T::Rest as TupleExtract<Prev>>::spec_extract(self.spec_split_first().1);
        (
            rest_split.0.spec_prepend(self.spec_split_first().0),
            rest_split.1,
            rest_split.2,
        )
    }

    fn extract_recursive(self) -> (r: (Self::Before, Self::Result, Self::After)) {
        let (first, rest) = self.split_first();
        let (before, extracted, after) = rest.extract_recursive();
        (before.prepend(first), extracted, after)
    }
}

/// Extraction sugar: `extract_at` with the position given at the call.
pub trait ExtractAt: Sized {
    /// Splits the tuple at the position that `At` selects, as
    /// [`TupleExtract::extract_recursive`] does.
    fn extract_at<At>(self) -> (r: (
        <Self as TupleExtract<At>>::Before,
        <Self as TupleExtract<At>>::Result,
        <Self as TupleExtract<At>>::After,
    )) where Self: TupleExtract<At>
        ensures
            r == self.spec_extract(),
    ;
}

impl<T> ExtractAt for T {
    fn extract_at<At>(self) -> (r: (
        <Self as TupleExtract<At>>::Before,
        <Self as TupleExtract<At>>::Result,
        <Self as TupleExtract<At>>::After,
    )) where Self: TupleExtract<At> {
        self.extract_recursive()
    }
}

} // verus!
