//! Categorical indices: an ordered list of labels, where the flat position of
//! a label is its position in the list.

use vstd::prelude::*;
use crate::mapped_index::VariableRange;

verus! {

/// The position of the first occurrence of `v` in `s` (equals `s.len()` when
/// `v` does not occur).
pub open spec fn first_index_of<T>(s: Seq<T>, v: T) -> int
    decreases s.len(),
{
    if s.len() == 0 {
        0
    } else if s[0] == v {
        0
    } else {
        1 + first_index_of(s.drop_first(), v)
    }
}

/// Whether the elements of `s` are pairwise distinct.
pub open spec fn distinct_seq<T>(s: Seq<T>) -> bool {
    forall|p: int, q: int| 0 <= p < q < s.len() ==> s[p] != s[q]
}

pub proof fn lemma_first_index_of_distinct<T>(s: Seq<T>, i: int)
    requires
        0 <= i < s.len(),
        distinct_seq(s),
    ensures
        first_index_of(s, s[i]) == i,
    decreases s.len(),
{
    if i == 0 {
    } else {
        assert(s[0] != s[i]);
        lemma_first_index_of_distinct(s.drop_first(), i - 1);
        assert(s.drop_first()[i - 1] == s[i]);
    }
}

/// An index for categorical values, mapping flat positions to values of type `T`.
#[derive(Debug, Clone, PartialEq, Eq, Hash)]
pub struct CategoricalRange<T> {
    /// The values stored in the index.
    pub values: Vec<T>,
}

/// An index for categorical values, mapping flat positions to values of type
/// `T` held in a borrowed slice.
#[derive(Debug, Clone, PartialEq, Eq, Hash)]
pub struct SliceCategoricalIndex<'a, T> {
    /// The values stored in the index.
    pub values: &'a [T],
}

impl<T> CategoricalRange<T> {
    /// Create a new CategoricalRange from a vector of values.
    pub fn new(values: Vec<T>) -> (r: Self)
        ensures
            r.values == values,
    {
        Self { values }
    }
}

impl<'a, T> SliceCategoricalIndex<'a, T> {
    /// Create a new SliceCategoricalIndex from a slice of values.
    pub fn new(values: &'a [T]) -> (r: Self)
        ensures
            r.values == values,
    {
        Self { values }
    }
}

fn copy_vec<T: Copy>(v: &Vec<T>) -> (r: Vec<T>)
    ensures
        r@ == v@,
{
    let mut r: Vec<T> = Vec::new();
    let mut i: usize = 0;
    while i < v.len()
        invariant
            i <= v.len(),
            r@ == v@.take(i as int),
        decreases v.len() - i,
    {
        r.push(v[i]);
        i += 1;
    }
    assert(v@.take(v@.len() as int) == v@);
    r
}

impl<T: Copy> VariableRange for CategoricalRange<T> {
    type Value = T;

    open spec fn wf(&self) -> bool {
        true
    }

    open spec fn spec_size(&self) -> nat {
        self.values@.len()
    }

    open spec fn value_at(&self, i: int) -> T {
        self.values@[i]
    }

    open spec fn flat_of(&self, v: T) -> int {
        first_index_of(self.values@, v)
    }

    open spec fn uniq(&self) -> bool {
        distinct_seq(self.values@)
    }

    proof fn lemma_flatten_unflatten(&self, i: int) {
        lemma_first_index_of_distinct(self.values@, i);
    }

    fn size(&self) -> (n: usize) {
        self.values.len()
    }

    fn unflatten_index_value(&self, index: usize) -> (v: T) {
        self.values[index]
    }

    fn iter(&self) -> (vs: Vec<T>) {
        copy_vec(&self.values)
    }

    fn clone_range(&self) -> (r: Self) {
        Self { values: copy_vec(&self.values) }
    }
}

impl<'a, T: Copy> VariableRange for SliceCategoricalIndex<'a, T> {
    type Value = T;

    open spec fn wf(&self) -> bool {
        true
    }

    open spec fn spec_size(&self) -> nat {
        self.values@.len()
    }

    open spec fn value_at(&self, i: int) -> T {
        self.values@[i]
    }

    open spec fn flat_of(&self, v: T) -> int {
        first_index_of(self.values@, v)
    }

    open spec fn uniq(&self) -> bool {
        distinct_seq(self.values@)
    }

    proof fn lemma_flatten_unflatten(&self, i: int) {
        lemma_first_index_of_distinct(self.values@, i);
    }

    fn size(&self) -> (n: usize) {
        self.values.len()
    }

    fn unflatten_index_value(&self, index: usize) -> (v: T) {
        *vstd::slice::slice_index_get(self.values, index)
    }

    fn iter(&self) -> (vs: Vec<T>) {
        let mut r: Vec<T> = Vec::new();
        let mut i: usize = 0;
        let n = self.values.len();
        while i < n
            invariant
                i <= n,
                n == self.values@.len(),
                r@ == self.values@.take(i as int),
            decreases n - i,
        {
            r.push(*vstd::slice::slice_index_get(self.values, i));
            i += 1;
        }
        assert(self.values@.take(n as int) == self.values@);
        r
    }

    fn clone_range(&self) -> (r: Self) {
        Self { values: self.values }
    }
}

} // verus!
