//! A wrapped numeric value: a coordinate checked to lie inside a numeric
//! range.

use vstd::prelude::*;
use crate::mapped_index::numeric_range::{NumericRangeIndex, NumericRangeValue};

verus! {

/// A value in a numeric range index, representing a coordinate in the range.
#[derive(Debug, Copy, Clone, PartialEq, Eq)]
pub struct NumericValue<I> {
    /// The numeric coordinate.
    pub index: I,
}

impl<I> NumericValue<I> {
    /// Create a new NumericValue from a coordinate.
    pub fn new(index: I) -> (r: Self)
        ensures
            r.index == index,
    {
        Self { index }
    }
}

impl<I: NumericRangeValue> NumericRangeIndex<I> {
    /// Wrap a coordinate that lies inside this range as a NumericValue.
    pub fn at(&self, index: I) -> (v: NumericValue<I>)
        requires
            self.start.spec_int() <= index.spec_int() < self.end.spec_int(),
        ensures
            v.index == index,
    {
        NumericValue { index }
    }
}

} // verus!
