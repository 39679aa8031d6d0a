//! Core tuple marker traits, and the `TooBig` bound type.

use vstd::prelude::*;

verus! {

/// A placeholder dummy type for a tuple that is too big to extend.
pub struct TooBig;

/// Marker trait for the tuples these utilities manipulate.
pub trait Tuple {

}

impl Tuple for TooBig {

}

impl Tuple for () {

}

impl<T1> Tuple for (T1,) {

}

impl<T1, T2> Tuple for (T1, T2) {

}

impl<T1, T2, T3> Tuple for (T1, T2, T3) {

}

impl<T1, T2, T3, T4> Tuple for (T1, T2, T3, T4) {

}

impl<T1, T2, T3, T4, T5> Tuple for (T1, T2, T3, T4, T5) {

}

/// Marker trait for non-empty tuples.
pub trait NonEmptyTuple: Tuple {

}

impl NonEmptyTuple for TooBig {

}

impl<T1> NonEmptyTuple for (T1,) {

}

impl<T1, T2> NonEmptyTuple for (T1, T2) {

}

impl<T1, T2, T3> NonEmptyTuple for (T1, T2, T3) {

}

impl<T1, T2, T3, T4> NonEmptyTuple for (T1, T2, T3, T4) {

}

impl<T1, T2, T3, T4, T5> NonEmptyTuple for (T1, T2, T3, T4, T5) {

}

} // verus!
