//! An index that wraps another index and maps its values through a function,
//! so that one index's values can be reinterpreted as another semantic type
//! without materializing a new collection.

use vstd::prelude::*;
use crate::mapped_index::VariableRange;

verus! {

/// A value in a function-mapped index: the flat position in the underlying
/// index together with the mapped value.
#[derive(Debug, Copy, Clone, PartialEq, Eq)]
pub struct FnMapValue<O> {
    /// The flat position in the underlying index.
    pub flat_index: usize,
    /// The mapped value.
    pub mapped: O,
}

impl<O> FnMapValue<O> {
    /// Create a new FnMapValue from a flat position and a mapped value.
    pub fn new(flat_index: usize, mapped: O) -> (r: Self)
        ensures
            r.flat_index == flat_index,
            r.mapped == mapped,
    {
        Self { flat_index, mapped }
    }
}

/// An index that wraps another index and maps its values using a function.
///
/// Because the mapping function is the caller's, its result is pinned only
/// through its own contract: each handed-out value carries its flat
/// position, and its `mapped` part is a possible result of the function on
/// the underlying value at that position.
#[derive(Debug, Clone)]
pub struct FnMapIndex<I, F> {
    /// The underlying index.
    pub index: I,
    /// The mapping function.
    pub map_fn: F,
}

impl<I: VariableRange, F, O> FnMapIndex<I, F> where F: Fn(I::Value) -> O {
    /// The index invariant: the underlying index is well-formed and the
    /// mapping function accepts each of its values.
    pub open spec fn wf(&self) -> bool {
        &&& self.index.wf()
        &&& forall|i: int|
            0 <= i < self.index.spec_size() ==> call_requires(
                self.map_fn,
                (#[trigger] self.index.value_at(i),),
            )
    }

    /// Create a new FnMapIndex with the given underlying index and mapping
    /// function.
    pub fn new(index: I, map_fn: F) -> (r: Self)
        ensures
            r.index == index,
            r.map_fn == map_fn,
    {
        Self { index, map_fn }
    }

    /// Returns the number of values in the index.
    pub fn size(&self) -> (n: usize)
        requires
            self.index.wf(),
        ensures
            n == self.index.spec_size(),
    {
        self.index.size()
    }

    /// Returns the mapped value for a given flat position.
    pub fn unflatten_index_value(&self, index: usize) -> (r: FnMapValue<O>)
        requires
            self.wf(),
            index < self.index.spec_size(),
        ensures
            r.flat_index == index,
            call_ensures(self.map_fn, (self.index.value_at(index as int),), r.mapped),
    {
        let original = self.index.unflatten_index_value(index);
        let mapped = (self.map_fn)(original);
        FnMapValue { flat_index: index, mapped }
    }

    /// Returns all mapped values, in flat-position order.
    pub fn iter(&self) -> (vs: Vec<FnMapValue<O>>)
        requires
            self.wf(),
        ensures
            vs.len() == self.index.spec_size(),
            forall|i: int|
                0 <= i < vs.len() ==> (#[trigger] vs[i]).flat_index == i && call_ensures(
                    self.map_fn,
                    (self.index.value_at(i),),
                    vs[i].mapped,
                ),
    {
        let n = self.index.size();
        let mut vs: Vec<FnMapValue<O>> = Vec::new();
        let mut i: usize = 0;
        while i < n
            invariant
                self.wf(),
                n == self.index.spec_size(),
                i <= n,
                vs.len() == i,
                forall|j: int|
                    0 <= j < i ==> (#[trigger] vs[j]).flat_index == j && call_ensures(
                        self.map_fn,
                        (self.index.value_at(j),),
                        vs[j].mapped,
                    ),
            decreases n - i,
        {
            vs.push(self.unflatten_index_value(i));
            i += 1;
        }
        vs
    }
}

} // verus!
