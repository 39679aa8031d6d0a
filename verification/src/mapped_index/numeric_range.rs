//! A numeric range index: the half-open interval `[start, end)` over an
//! ordered scalar type that supports a `next` / `distance` operation.

use vstd::prelude::*;
use crate::mapped_index::{IndexEq, MappedIndex, VariableRange};

verus! {

/// The distance between two mathematical integers.
pub open spec fn int_dist(a: int, b: int) -> nat {
    if a >= b {
        (a - b) as nat
    } else {
        (b - a) as nat
    }
}

/// An ordered scalar that a [`NumericRangeIndex`] can enumerate.
///
/// The model of a value is the mathematical integer
/// [`spec_int`](NumericRangeValue::spec_int); the type represents exactly the
/// integers satisfying [`in_bounds`](NumericRangeValue::in_bounds), an
/// interval (see [`lemma_bounds_convex`](NumericRangeValue::lemma_bounds_convex)).
pub trait NumericRangeValue: Sized + Copy {
    /// The mathematical integer this value stands for.
    spec fn spec_int(&self) -> int;

    /// Which integers the type can represent.
    spec fn in_bounds(x: int) -> bool;

    /// The value standing for the integer `x` (meaningful when `in_bounds(x)`).
    spec fn spec_from_int(x: int) -> Self;

    /// `spec_from_int` inverts `spec_int` on representable integers.
    proof fn lemma_from_int(x: int)
        requires
            Self::in_bounds(x),
        ensures
            Self::spec_from_int(x).spec_int() == x,
    ;

    /// Every value is representable, and is recovered from its integer.
    proof fn lemma_to_from(&self)
        ensures
            Self::in_bounds(self.spec_int()),
            Self::spec_from_int(self.spec_int()) == *self,
    ;

    /// The representable integers form an interval.
    proof fn lemma_bounds_convex(a: int, b: int, x: int)
        requires
            Self::in_bounds(a),
            Self::in_bounds(b),
            a <= x <= b,
        ensures
            Self::in_bounds(x),
    ;

    /// The successor of this value.
    fn next(&self) -> (r: Self)
        requires
            Self::in_bounds(self.spec_int() + 1),
        ensures
            r == Self::spec_from_int(self.spec_int() + 1),
    ;

    /// The value `n` steps after this one.
    fn nth_next(&self, n: usize) -> (r: Self)
        requires
            Self::in_bounds(self.spec_int() + n),
        ensures
            r == Self::spec_from_int(self.spec_int() + n),
    ;

    /// The absolute difference between two values.
    fn distance(&self, other: &Self) -> (d: usize)
        requires
            int_dist(self.spec_int(), other.spec_int()) <= usize::MAX,
        ensures
            d == int_dist(self.spec_int(), other.spec_int()),
    ;

    /// Order comparison.
    fn le(&self, other: &Self) -> (b: bool)
        ensures
            b == (self.spec_int() <= other.spec_int()),
    ;
}

impl NumericRangeValue for i32 {
    open spec fn spec_int(&self) -> int {
        *self as int
    }

    open spec fn in_bounds(x: int) -> bool {
        i32::MIN as int <= x <= i32::MAX as int
    }

    open spec fn spec_from_int(x: int) -> Self {
        x as i32
    }

    proof fn lemma_from_int(x: int) {
    }

    proof fn lemma_to_from(&self) {
    }

    proof fn lemma_bounds_convex(a: int, b: int, x: int) {
    }

    fn next(&self) -> (r: Self) {
        *self + 1
    }

    fn nth_next(&self, n: usize) -> (r: Self) {
        ((*self as i64) + (n as i64)) as i32
    }

    fn distance(&self, other: &Self) -> (d: usize) {
        let diff: i64 = (*self as i64) - (*other as i64);
        if diff >= 0 {
            diff as usize
        } else {
            (-diff) as usize
        }
    }

    fn le(&self, other: &Self) -> (b: bool) {
        *self <= *other
    }
}

impl NumericRangeValue for i64 {
    open spec fn spec_int(&self) -> int {
        *self as int
    }

    open spec fn in_bounds(x: int) -> bool {
        i64::MIN as int <= x <= i64::MAX as int
    }

    open spec fn spec_from_int(x: int) -> Self {
        x as i64
    }

    proof fn lemma_from_int(x: int) {
    }

    proof fn lemma_to_from(&self) {
    }

    proof fn lemma_bounds_convex(a: int, b: int, x: int) {
    }

    fn next(&self) -> (r: Self) {
        *self + 1
    }

    fn nth_next(&self, n: usize) -> (r: Self) {
        ((*self as i128) + (n as i128)) as i64
    }

    fn distance(&self, other: &Self) -> (d: usize) {
        let diff: i128 = (*self as i128) - (*other as i128);
        if diff >= 0 {
            diff as usize
        } else {
            (-diff) as usize
        }
    }

    fn le(&self, other: &Self) -> (b: bool) {
        *self <= *other
    }
}

impl NumericRangeValue for u32 {
    open spec fn spec_int(&self) -> int {
        *self as int
    }

    open spec fn in_bounds(x: int) -> bool {
        0 <= x <= u32::MAX as int
    }

    open spec fn spec_from_int(x: int) -> Self {
        x as u32
    }

    proof fn lemma_from_int(x: int) {
    }

    proof fn lemma_to_from(&self) {
    }

    proof fn lemma_bounds_convex(a: int, b: int, x: int) {
    }

    fn next(&self) -> (r: Self) {
        *self + 1
    }

    fn nth_next(&self, n: usize) -> (r: Self) {
        ((*self as u64) + (n as u64)) as u32
    }

    fn distance(&self, other: &Self) -> (d: usize) {
        if *self >= *other {
            (*self - *other) as usize
        } else {
            (*other - *self) as usize
        }
    }

    fn le(&self, other: &Self) -> (b: bool) {
        *self <= *other
    }
}

impl NumericRangeValue for u64 {
    open spec fn spec_int(&self) -> int {
        *self as int
    }

    open spec fn in_bounds(x: int) -> bool {
        0 <= x <= u64::MAX as int
    }

    open spec fn spec_from_int(x: int) -> Self {
        x as u64
    }

    proof fn lemma_from_int(x: int) {
    }

    proof fn lemma_to_from(&self) {
    }

    proof fn lemma_bounds_convex(a: int, b: int, x: int) {
    }

    fn next(&self) -> (r: Self) {
        *self + 1
    }

    fn nth_next(&self, n: usize) -> (r: Self) {
        ((*self as u128) + (n as u128)) as u64
    }

    fn distance(&self, other: &Self) -> (d: usize) {
        if *self >= *other {
            (*self - *other) as usize
        } else {
            (*other - *self) as usize
        }
    }

    fn le(&self, other: &Self) -> (b: bool) {
        *self <= *other
    }
}

impl NumericRangeValue for usize {
    open spec fn spec_int(&self) -> int {
        *self as int
    }

    open spec fn in_bounds(x: int) -> bool {
        0 <= x <= usize::MAX as int
    }

    open spec fn spec_from_int(x: int) -> Self {
        x as usize
    }

    proof fn lemma_from_int(x: int) {
    }

    proof fn lemma_to_from(&self) {
    }

    proof fn lemma_bounds_convex(a: int, b: int, x: int) {
    }

    fn next(&self) -> (r: Self) {
        *self + 1
    }

    fn nth_next(&self, n: usize) -> (r: Self) {
        *self + n
    }

    fn distance(&self, other: &Self) -> (d: usize) {
        if *self >= *other {
            *self - *other
        } else {
            *other - *self
        }
    }

    fn le(&self, other: &Self) -> (b: bool) {
        *self <= *other
    }
}

/// An index representing a numeric range from `start` to `end` (exclusive).
#[derive(Debug, Clone, Copy, PartialEq, Eq, Hash)]
pub struct NumericRangeIndex<I> {
    /// The start of the range (inclusive).
    pub start: I,
    /// The end of the range (exclusive).
    pub end: I,
}

impl<I: NumericRangeValue> NumericRangeIndex<I> {
    /// Create a new numeric range index `[start, end)` (end exclusive).
    pub fn new(start: I, end: I) -> (r: Self)
        requires
            start.spec_int() < end.spec_int(),
            int_dist(end.spec_int(), start.spec_int()) <= usize::MAX,
        ensures
            r.start == start,
            r.end == end,
            r.wf(),
    {
        Self { start, end }
    }
}

impl<I: NumericRangeValue> VariableRange for NumericRangeIndex<I> {
    type Value = I;

    open spec fn wf(&self) -> bool {
        &&& self.start.spec_int() < self.end.spec_int()
        &&& self.end.spec_int() - self.start.spec_int() <= usize::MAX
    }

    open spec fn spec_size(&self) -> nat {
        (self.end.spec_int() - self.start.spec_int()) as nat
    }

    open spec fn value_at(&self, i: int) -> I {
        I::spec_from_int(self.start.spec_int() + i)
    }

    open spec fn flat_of(&self, v: I) -> int {
        v.spec_int() - self.start.spec_int()
    }

    open spec fn uniq(&self) -> bool {
        true
    }

    proof fn lemma_flatten_unflatten(&self, i: int) {
        self.start.lemma_to_from();
        self.end.lemma_to_from();
        I::lemma_bounds_convex(
            self.start.spec_int(),
            self.end.spec_int(),
            self.start.spec_int() + i,
        );
        I::lemma_from_int(self.start.spec_int() + i);
    }

    fn size(&self) -> (n: usize) {
        proof {
            self.start.lemma_to_from();
            self.end.lemma_to_from();
        }
        self.end.distance(&self.start)
    }

    fn unflatten_index_value(&self, index: usize) -> (v: I) {
        proof {
            self.start.lemma_to_from();
            self.end.lemma_to_from();
            I::lemma_bounds_convex(
                self.start.spec_int(),
                self.end.spec_int(),
                self.start.spec_int() + index,
            );
        }
        self.start.nth_next(index)
    }

    fn iter(&self) -> (vs: Vec<I>) {
        let n = self.size();
        let mut vs: Vec<I> = Vec::new();
        let mut i: usize = 0;
        while i < n
            invariant
                self.wf(),
                n == self.spec_size(),
                i <= n,
                vs.len() == i,
                forall|j: int| 0 <= j < i ==> vs[j] == self.value_at(j),
            decreases n - i,
        {
            vs.push(self.unflatten_index_value(i));
            i += 1;
        }
        vs
    }

    fn clone_range(&self) -> (r: Self) {
        Self { start: self.start, end: self.end }
    }
}

impl<I: NumericRangeValue> IndexEq for NumericRangeIndex<I> {
    open spec fn eq_spec(&self, other: &Self) -> bool {
        self.start.spec_int() == other.start.spec_int() && self.end.spec_int()
            == other.end.spec_int()
    }

    proof fn lemma_eq_spec(&self, other: &Self) {
    }

    fn index_eq(&self, other: &Self) -> (b: bool) {
        self.start.le(&other.start) && other.start.le(&self.start) && self.end.le(&other.end)
            && other.end.le(&self.end)
    }
}

impl<I: NumericRangeValue> MappedIndex for NumericRangeIndex<I> {
    fn flatten_index_value(&self, value: I) -> (i: usize) {
        proof {
            value.lemma_to_from();
            self.start.lemma_to_from();
        }
        value.distance(&self.start)
    }
}

} // verus!
