//! A sparse numeric index: an arbitrary, sorted set of `i64` keys, where the
//! flat position of a key is its position in the sorted order.

use vstd::prelude::*;
use crate::mapped_index::{IndexEq, MappedIndex, VariableRange};
use crate::mapped_index::categorical_index::{
    distinct_seq, first_index_of, lemma_first_index_of_distinct,
};

verus! {

#[verifier::external_type_specification]
#[verifier::external_body]
#[verifier::reject_recursive_types(T)]
pub struct ExSortedSet<T: Ord>(sorted_vec::SortedSet<T>);

/// The keys that a sorted set holds, in storage order.
pub uninterp spec fn sorted_set_seq(s: sorted_vec::SortedSet<i64>) -> Seq<i64>;

/// Relies on the derived `Clone` of `SortedSet`; nothing is assumed of the
/// copy here (the wrapper [`sorted_set_clone`] states what the copy holds).
pub assume_specification<T>[ <sorted_vec::SortedSet<T> as core::clone::Clone>::clone ](
    s: &sorted_vec::SortedSet<T>,
) -> sorted_vec::SortedSet<T> where T: core::clone::Clone + core::cmp::Ord;

/// Whether a key sequence is strictly increasing.
pub open spec fn strictly_sorted(s: Seq<i64>) -> bool {
    forall|i: int, j: int| 0 <= i < j < s.len() ==> s[i] < s[j]
}

/// Relies on `SortedSet::from` (`from_unsorted`): it sorts the input with
/// `sort_unstable` and removes the then-adjacent duplicates with `dedup`, so
/// the result holds exactly the distinct input keys, in increasing order.
#[verifier::external_body]
pub fn sorted_set_from_vec(v: Vec<i64>) -> (s: sorted_vec::SortedSet<i64>)
    ensures
        strictly_sorted(sorted_set_seq(s)),
        forall|x: i64| sorted_set_seq(s).contains(x) <==> v@.contains(x),
        sorted_set_seq(s).len() <= v@.len(),
{
    sorted_vec::SortedSet::from(v)
}

/// Relies on `Vec::len`, reached through `SortedSet`'s and `SortedVec`'s
/// `Deref` chain to the underlying vector.
#[verifier::external_body]
pub fn sorted_set_len(s: &sorted_vec::SortedSet<i64>) -> (n: usize)
    ensures
        n == sorted_set_seq(*s).len(),
{
    s.len()
}

/// Relies on `Vec` indexing, reached through `SortedSet`'s and `SortedVec`'s
/// `Deref` chain to the underlying vector.
#[verifier::external_body]
pub fn sorted_set_get(s: &sorted_vec::SortedSet<i64>, i: usize) -> (x: i64)
    requires
        i < sorted_set_seq(*s).len(),
    ensures
        x == sorted_set_seq(*s)[i as int],
{
    s[i]
}

/// Relies on `slice::binary_search`, reached through the `Deref` chain to
/// the underlying vector: on a sorted slice it returns the position of a
/// matching element, or the position at which the key would be inserted to
/// keep the slice sorted.
#[verifier::external_body]
pub fn sorted_set_binary_search(s: &sorted_vec::SortedSet<i64>, key: i64) -> (r: Result<
    usize,
    usize,
>)
    requires
        strictly_sorted(sorted_set_seq(*s)),
    ensures
        r matches Ok(i) ==> i < sorted_set_seq(*s).len() && sorted_set_seq(*s)[i as int] == key,
        r matches Err(i) ==> {
            &&& i <= sorted_set_seq(*s).len()
            &&& forall|j: int| 0 <= j < i ==> sorted_set_seq(*s)[j] < key
            &&& forall|j: int| i <= j < sorted_set_seq(*s).len() ==> sorted_set_seq(*s)[j] > key
        },
{
    s.binary_search(&key)
}

/// Relies on the derived `Clone` of `SortedSet`, which clones the underlying
/// vector of keys element for element.
#[verifier::external_body]
pub fn sorted_set_clone(s: &sorted_vec::SortedSet<i64>) -> (r: sorted_vec::SortedSet<i64>)
    ensures
        sorted_set_seq(r) == sorted_set_seq(*s),
{
    s.clone()
}

/// A sparse numeric index, holding a sorted set of `i64` keys.
#[derive(Debug, Clone, Hash)]
pub struct SparseNumericIndex {
    /// The sorted keys.
    pub indices: sorted_vec::SortedSet<i64>,
}

impl SparseNumericIndex {
    /// Create a new SparseNumericIndex from a sorted set of keys.
    pub fn new(indices: sorted_vec::SortedSet<i64>) -> (r: Self)
        ensures
            r.indices == indices,
    {
        Self { indices }
    }
}

impl VariableRange for SparseNumericIndex {
    type Value = i64;

    open spec fn wf(&self) -> bool {
        strictly_sorted(sorted_set_seq(self.indices))
    }

    open spec fn spec_size(&self) -> nat {
        sorted_set_seq(self.indices).len()
    }

    open spec fn value_at(&self, i: int) -> i64 {
        sorted_set_seq(self.indices)[i]
    }

    open spec fn flat_of(&self, v: i64) -> int {
        first_index_of(sorted_set_seq(self.indices), v)
    }

    open spec fn uniq(&self) -> bool {
        distinct_seq(sorted_set_seq(self.indices))
    }

    proof fn lemma_flatten_unflatten(&self, i: int) {
        lemma_first_index_of_distinct(sorted_set_seq(self.indices), i);
    }

    fn size(&self) -> (n: usize) {
        sorted_set_len(&self.indices)
    }

    fn unflatten_index_value(&self, index: usize) -> (v: i64) {
        sorted_set_get(&self.indices, index)
    }

    fn iter(&self) -> (vs: Vec<i64>) {
        let n = sorted_set_len(&self.indices);
        let mut vs: Vec<i64> = Vec::new();
        let mut i: usize = 0;
        while i < n
            invariant
                n == self.spec_size(),
                i <= n,
                vs.len() == i,
                forall|j: int| 0 <= j < i ==> vs[j] == self.value_at(j),
            decreases n - i,
        {
            vs.push(sorted_set_get(&self.indices, i));
            i += 1;
        }
        vs
    }

    fn clone_range(&self) -> (r: Self) {
        Self { indices: sorted_set_clone(&self.indices) }
    }
}

impl IndexEq for SparseNumericIndex {
    open spec fn eq_spec(&self, other: &Self) -> bool {
        sorted_set_seq(self.indices) == sorted_set_seq(other.indices)
    }

    proof fn lemma_eq_spec(&self, other: &Self) {
    }

    fn index_eq(&self, other: &Self) -> (b: bool) {
        let n = sorted_set_len(&self.indices);
        let m = sorted_set_len(&other.indices);
        if n != m {
            proof {
                assert(sorted_set_seq(self.indices) != sorted_set_seq(other.indices));
            }
            return false;
        }
        let mut i: usize = 0;
        while i < n
            invariant
                n == sorted_set_seq(self.indices).len(),
                n == sorted_set_seq(other.indices).len(),
                i <= n,
                forall|j: int|
                    0 <= j < i ==> sorted_set_seq(self.indices)[j] == sorted_set_seq(
                        other.indices,
                    )[j],
            decreases n - i,
        {
            let a = sorted_set_get(&self.indices, i);
            let b = sorted_set_get(&other.indices, i);
            if a != b {
                return false;
            }
            i += 1;
        }
        proof {
            assert(sorted_set_seq(self.indices) =~= sorted_set_seq(other.indices));
        }
        true
    }
}

impl MappedIndex for SparseNumericIndex {
    fn flatten_index_value(&self, value: i64) -> (i: usize) {
        let r = sorted_set_binary_search(&self.indices, value);
        proof {
            assert(distinct_seq(sorted_set_seq(self.indices)));
        }
        match r {
            Ok(i) => {
                proof {
                    lemma_first_index_of_distinct(sorted_set_seq(self.indices), i as int);
                }
                i
            },
            Err(_) => {
                proof {
                    let s = sorted_set_seq(self.indices);
                    assert(s[self.flat_of(value)] == value);
                    assert(false);
                }
                vstd::pervasive::unreached()
            },
        }
    }
}

} // verus!
