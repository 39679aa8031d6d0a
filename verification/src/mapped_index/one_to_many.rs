//! A one-to-many range: each element of a left-hand range is associated with
//! a right-hand range, and the associated ranges are flattened in order.

use vstd::prelude::*;
use crate::mapped_index::VariableRange;
use crate::mapped_index::union_range::{
    clone_ranges, concat_flat_of, concat_uniq, concat_value_at, concat_wf,
    lemma_concat_flatten_unflatten, lemma_concat_congruent, lemma_concat_uniq_congruent,
    range_sizes, union_total_size, union_unflatten,
};
use crate::seq_sum;

verus! {

/// A one-to-many range that associates each element of a left-hand range
/// with a corresponding range from a vector, then flattens the associated
/// right-hand ranges in the order of the left-hand elements.
///
/// For each left position `i`, all values of `rights[i]` are appended to the
/// resulting sequence; the total size is the sum of the right-hand ranges'
/// sizes.
#[derive(Debug, Clone, PartialEq, Eq, Hash)]
pub struct OneToManyRange<L, R> {
    /// The left-hand range used to define association and order.
    pub left: L,
    /// The right-hand ranges, one per element of `left`.
    pub rights: Vec<R>,
}

impl<L: VariableRange, R: VariableRange> OneToManyRange<L, R> {
    /// Create a new OneToManyRange from a left-hand range and a vector of
    /// right-hand ranges, one per left-hand element.
    pub fn new(left: L, rights: Vec<R>) -> (r: Self)
        requires
            left.wf(),
            rights@.len() == left.spec_size(),
        ensures
            r.left == left,
            r.rights == rights,
    {
        Self { left, rights }
    }

    /// Number of associations (i.e., size of the left-hand range).
    pub fn associations(&self) -> (n: usize)
        requires
            self.left.wf(),
        ensures
            n == self.left.spec_size(),
    {
        self.left.size()
    }

    /// Number of right-hand ranges.
    pub fn len(&self) -> (n: usize)
        ensures
            n == self.rights@.len(),
    {
        self.rights.len()
    }

    /// Returns true if there are no right-hand ranges (which implies an
    /// empty left-hand range).
    pub fn is_empty(&self) -> (b: bool)
        ensures
            b == (self.rights@.len() == 0),
    {
        self.rights.len() == 0
    }
}

impl<L: VariableRange, R: VariableRange> VariableRange for OneToManyRange<L, R> {
    type Value = R::Value;

    open spec fn wf(&self) -> bool {
        &&& self.left.wf()
        &&& self.rights@.len() == self.left.spec_size()
        &&& concat_wf(self.rights@)
    }

    open spec fn spec_size(&self) -> nat {
        seq_sum(range_sizes(self.rights@))
    }

    open spec fn value_at(&self, i: int) -> R::Value {
        concat_value_at(self.rights@, i)
    }

    open spec fn flat_of(&self, v: R::Value) -> int {
        concat_flat_of(self.rights@, v)
    }

    open spec fn uniq(&self) -> bool {
        concat_uniq(self.rights@)
    }

    proof fn lemma_flatten_unflatten(&self, i: int) {
        lemma_concat_flatten_unflatten(self.rights@, i);
    }

    fn size(&self) -> (n: usize) {
        union_total_size(&self.rights)
    }

    fn unflatten_index_value(&self, index: usize) -> (v: R::Value) {
        union_unflatten(&self.rights, index)
    }

    fn iter(&self) -> (vs: Vec<R::Value>) {
        let n = self.size();
        let mut vs: Vec<R::Value> = Vec::new();
        let mut i: usize = 0;
        while i < n
            invariant
                self.wf(),
                n == self.spec_size(),
                i <= n,
                vs.len() == i,
                forall|j: int| 0 <= j < i ==> vs[j] == self.value_at(j),
            decreases n - i,
        {
            vs.push(self.unflatten_index_value(i));
            i += 1;
        }
        vs
    }

    fn clone_range(&self) -> (r: Self) {
        let cloned = clone_ranges(&self.rights);
        proof {
            lemma_concat_congruent(cloned@, self.rights@);
            lemma_concat_uniq_congruent(cloned@, self.rights@);
        }
        OneToManyRange { left: self.left.clone_range(), rights: cloned }
    }
}

} // verus!
