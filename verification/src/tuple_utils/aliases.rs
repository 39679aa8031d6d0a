//! Type aliases for common tuple operations.

use vstd::prelude::*;
use crate::tuple_utils::concat::TupleConcat;
use crate::tuple_utils::extract::TupleExtract;
use crate::tuple_utils::first_last::TupleFirstElement;
use crate::tuple_utils::prepend_append::TuplePrepend;

verus! {

/// The first element of a tuple.
pub type First<T> = <T as TupleFirstElement>::First;

/// The tuple without its first element.
pub type DropFirst<T> = <T as TupleFirstElement>::Rest;

/// The tuple with an element of type `A` prepended.
pub type Prepend<A, T> = <T as TuplePrepend<A>>::PrependedTuple;

/// The concatenation of two tuples.
pub type Concat<Left, Right> = <Left as TupleConcat<Right>>::ConcatenatedTuple;

/// The element that position `N` selects.
pub type Extract<N, T> = <T as TupleExtract<N>>::Result;

/// The elements before the position that `N` selects.
pub type ExtractLeft<N, T> = <T as TupleExtract<N>>::Before;

/// The elements after the position that `N` selects.
pub type ExtractRight<N, T> = <T as TupleExtract<N>>::After;

/// The tuple that remains when the element at position `N` is removed.
pub type ExtractRemainder<N, T> = Concat<ExtractLeft<N, T>, ExtractRight<N, T>>;

} // verus!
