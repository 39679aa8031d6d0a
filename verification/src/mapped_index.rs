//! Index types and traits for mapping between flat positions and values.

pub mod categorical_index;
pub mod compound_index;
pub mod fn_map_index;
pub mod numeric_range;
pub mod numeric_range_index;
pub mod one_to_many;
pub mod singleton_index;
pub mod sparse_numeric_index;
pub mod union_range;

use vstd::prelude::*;

verus! {

/// A trait for types that provide an ordered, finite range of values of a
/// certain variable.
///
/// The mathematical model of a range is: a well-formedness condition
/// [`wf`](VariableRange::wf), a size, the value standing at each flat
/// position in `0 .. size` ([`value_at`](VariableRange::value_at)), and the
/// flat position of a value ([`flat_of`](VariableRange::flat_of)).
/// `flat_of` inverts `value_at` on every range whose values are pairwise
/// distinct ([`uniq`](VariableRange::uniq)); the law is
/// [`lemma_flatten_unflatten`](VariableRange::lemma_flatten_unflatten).
pub trait VariableRange: Sized {
    /// The value type handed out by the range.
    type Value;

    /// Well-formedness of the range description.
    spec fn wf(&self) -> bool;

    /// The number of values in the range.
    spec fn spec_size(&self) -> nat;

    /// The value at flat position `i`, for `0 <= i < spec_size()`.
    spec fn value_at(&self, i: int) -> Self::Value;

    /// The flat position of value `v`.
    spec fn flat_of(&self, v: Self::Value) -> int;

    /// Whether the values at distinct positions are distinct, so that
    /// `flat_of` is a two-sided inverse of `value_at`.
    spec fn uniq(&self) -> bool;

    /// Round trip: flattening the value at position `i` gives back `i`.
    proof fn lemma_flatten_unflatten(&self, i: int)
        requires
            self.wf(),
            self.uniq(),
            0 <= i < self.spec_size(),
        ensures
            self.flat_of(self.value_at(i)) == i,
    ;

    /// Returns the total number of values in the range.
    fn size(&self) -> (n: usize)
        requires
            self.wf(),
        ensures
            n == self.spec_size(),
    ;

    /// Returns the value for the given flat position.
    fn unflatten_index_value(&self, index: usize) -> (v: Self::Value)
        requires
            self.wf(),
            index < self.spec_size(),
        ensures
            v == self.value_at(index as int),
    ;

    /// Returns all values of the range, in flat-position order.
    fn iter(&self) -> (vs: Vec<Self::Value>)
        requires
            self.wf(),
        ensures
            vs.len() == self.spec_size(),
            forall|i: int| 0 <= i < vs.len() ==> vs[i] == self.value_at(i),
    ;

    /// Returns a copy of the range that models the same range.
    fn clone_range(&self) -> (r: Self)
        requires
            self.wf(),
        ensures
            r.wf(),
            r.uniq() == self.uniq(),
            r.spec_size() == self.spec_size(),
            forall|i: int| 0 <= i < self.spec_size() ==> r.value_at(i) == self.value_at(i),
            forall|v: Self::Value| r.flat_of(v) == self.flat_of(v),
    ;
}

/// A range that can also compute the flat position of one of its values.
pub trait MappedIndex: VariableRange {
    /// Returns the flat position of `value`, which must be a value of the
    /// range.
    fn flatten_index_value(&self, value: Self::Value) -> (i: usize)
        requires
            self.wf(),
            0 <= self.flat_of(value) < self.spec_size(),
            self.value_at(self.flat_of(value)) == value,
        ensures
            i == self.flat_of(value),
    ;
}

/// A range that can decide whether another range of its type describes the
/// same values.
pub trait IndexEq: VariableRange {
    /// Whether the two ranges describe the same values.
    spec fn eq_spec(&self, other: &Self) -> bool;

    /// Ranges that are equal in the sense of `eq_spec` have the same size
    /// and the same value at every position.
    proof fn lemma_eq_spec(&self, other: &Self)
        requires
            self.eq_spec(other),
        ensures
            self.spec_size() == other.spec_size(),
            forall|i: int| 0 <= i < self.spec_size() ==> self.value_at(i) == other.value_at(i),
    ;

    /// Decides whether the two ranges describe the same values.
    fn index_eq(&self, other: &Self) -> (b: bool)
        requires
            self.wf(),
            other.wf(),
        ensures
            b == self.eq_spec(other),
    ;
}

/// Round trip: on every well-formed range whose values are pairwise
/// distinct, and at every flat position of the range, flattening the value
/// standing at that position gives back the position; hence each value that
/// enumeration yields is recovered exactly from its flat position.
pub proof fn lemma_round_trip<R: VariableRange>(range: R, i: int)
    requires
        range.wf(),
        range.uniq(),
        0 <= i < range.spec_size(),
    ensures
        range.flat_of(range.value_at(i)) == i,
        range.value_at(range.flat_of(range.value_at(i))) == range.value_at(i),
{
    range.lemma_flatten_unflatten(i);
}

} // verus!
