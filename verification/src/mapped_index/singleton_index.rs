//! Singleton indices: a range holding exactly one value.

use vstd::prelude::*;
use crate::mapped_index::VariableRange;

verus! {

/// A range of a single value.
#[derive(Debug, Copy, Clone, PartialEq, Eq, Hash, PartialOrd, Ord)]
pub struct SingletonRange<T> {
    /// The value of type T.
    pub value: T,
}

/// A range of a single value where `T` is `Copy`, and the value being handed
/// out is a copy of it.
#[derive(Debug, Copy, Clone, PartialEq, Eq, Hash, PartialOrd, Ord)]
pub struct CopySingletonRange<T: Copy> {
    /// The value of type T.
    pub value: T,
}

impl<T> SingletonRange<T> {
    /// Create a new SingletonRange with the given value.
    pub fn new(value: T) -> (r: Self)
        ensures
            r.value == value,
    {
        Self { value }
    }

    /// Get a reference to the value.
    pub fn value(&self) -> (r: &T)
        ensures
            r == &self.value,
    {
        &self.value
    }
}

impl<T: Copy> CopySingletonRange<T> {
    /// Create a new CopySingletonRange with the given value.
    pub fn new(value: T) -> (r: Self)
        ensures
            r.value == value,
    {
        Self { value }
    }

    /// Get a copy of the value.
    pub fn value(&self) -> (r: T)
        ensures
            r == self.value,
    {
        self.value
    }
}

impl<T: Copy> VariableRange for SingletonRange<T> {
    type Value = T;

    open spec fn wf(&self) -> bool {
        true
    }

    open spec fn spec_size(&self) -> nat {
        1
    }

    open spec fn value_at(&self, i: int) -> T {
        self.value
    }

    open spec fn flat_of(&self, v: T) -> int {
        0
    }

    open spec fn uniq(&self) -> bool {
        true
    }

    proof fn lemma_flatten_unflatten(&self, i: int) {
    }

    fn size(&self) -> (n: usize) {
        1
    }

    fn unflatten_index_value(&self, index: usize) -> (v: T) {
        self.value
    }

    fn iter(&self) -> (vs: Vec<T>) {
        let mut vs: Vec<T> = Vec::new();
        vs.push(self.value);
        vs
    }

    fn clone_range(&self) -> (r: Self) {
        Self { value: self.value }
    }
}

impl<T: Copy> VariableRange for CopySingletonRange<T> {
    type Value = T;

    open spec fn wf(&self) -> bool {
        true
    }

    open spec fn spec_size(&self) -> nat {
        1
    }

    open spec fn value_at(&self, i: int) -> T {
        self.value
    }

    open spec fn flat_of(&self, v: T) -> int {
        0
    }

    open spec fn uniq(&self) -> bool {
        true
    }

    proof fn lemma_flatten_unflatten(&self, i: int) {
    }

    fn size(&self) -> (n: usize) {
        1
    }

    fn unflatten_index_value(&self, index: usize) -> (v: T) {
        self.value
    }

    fn iter(&self) -> (vs: Vec<T>) {
        let mut vs: Vec<T> = Vec::new();
        vs.push(self.value);
        vs
    }

    fn clone_range(&self) -> (r: Self) {
        Self { value: self.value }
    }
}

} // verus!
