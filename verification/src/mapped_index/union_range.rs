//! A range that is the concatenation (union) of multiple other ranges with
//! the same value type.

use vstd::prelude::*;
use crate::mapped_index::VariableRange;
use crate::{lemma_seq_sum_app, seq_sum};

verus! {

/// The sizes of a sequence of ranges, in order.
pub open spec fn range_sizes<R: VariableRange>(rs: Seq<R>) -> Seq<nat> {
    Seq::new(rs.len(), |k: int| rs[k].spec_size())
}

/// The value at flat position `i` of the concatenation of `rs`: positions
/// run through the first range first, then the second, and so on.
pub open spec fn concat_value_at<R: VariableRange>(rs: Seq<R>, i: int) -> R::Value
    decreases rs.len(),
{
    if rs.len() == 0 {
        rs[0].value_at(i)
    } else if i < rs[0].spec_size() {
        rs[0].value_at(i)
    } else {
        concat_value_at(rs.drop_first(), i - rs[0].spec_size())
    }
}

/// The flat position of `v` in the concatenation of `rs`: its position in
/// the first range that contains it, offset by the sizes of the ranges
/// before that one.
pub open spec fn concat_flat_of<R: VariableRange>(rs: Seq<R>, v: R::Value) -> int
    decreases rs.len(),
{
    if rs.len() == 0 {
        0
    } else if 0 <= rs[0].flat_of(v) < rs[0].spec_size() && rs[0].value_at(rs[0].flat_of(v)) == v {
        rs[0].flat_of(v)
    } else {
        rs[0].spec_size() + concat_flat_of(rs.drop_first(), v)
    }
}

/// Each range of a concatenation is well-formed, and the total size fits.
pub open spec fn concat_wf<R: VariableRange>(rs: Seq<R>) -> bool {
    &&& forall|k: int| 0 <= k < rs.len() ==> (#[trigger] rs[k]).wf()
    &&& seq_sum(range_sizes(rs)) <= usize::MAX
}

/// The values of a concatenation are pairwise distinct, and so are the
/// values of each part.
pub open spec fn concat_uniq<R: VariableRange>(rs: Seq<R>) -> bool {
    &&& forall|k: int| 0 <= k < rs.len() ==> (#[trigger] rs[k]).uniq()
    &&& forall|i: int, j: int|
        0 <= i < j < seq_sum(range_sizes(rs)) ==> concat_value_at(rs, i) != concat_value_at(rs, j)
}

/// Flattening the value at position `i` of a concatenation of distinct
/// ranges gives back `i`.
pub proof fn lemma_concat_flatten_unflatten<R: VariableRange>(rs: Seq<R>, i: int)
    requires
        concat_wf(rs),
        concat_uniq(rs),
        0 <= i < seq_sum(range_sizes(rs)),
    ensures
        concat_flat_of(rs, concat_value_at(rs, i)) == i,
    decreases rs.len(),
{
    let sizes = range_sizes(rs);
    assert(rs.len() > 0);
    let s0 = rs[0].spec_size();
    assert(sizes[0] == s0);
    assert(sizes.drop_first() =~= range_sizes(rs.drop_first()));
    let v = concat_value_at(rs, i);
    if i < s0 {
        rs[0].lemma_flatten_unflatten(i);
    } else {
        let rest = rs.drop_first();
        assert(forall|k: int| 0 <= k < rest.len() ==> (#[trigger] rest[k]).wf()) by {
            assert(forall|k: int| 0 <= k < rest.len() ==> rest[k] == rs[k + 1]);
        }
        assert(concat_uniq(rest)) by {
            assert(forall|k: int| 0 <= k < rest.len() ==> rest[k] == rs[k + 1]);
            assert forall|p: int, q: int|
                0 <= p < q < seq_sum(range_sizes(rest)) implies concat_value_at(rest, p)
                != concat_value_at(rest, q) by {
                assert(concat_value_at(rs, s0 + p) == concat_value_at(rest, p));
                assert(concat_value_at(rs, s0 + q) == concat_value_at(rest, q));
            }
        }
        lemma_concat_flatten_unflatten(rest, i - s0);
        if 0 <= rs[0].flat_of(v) < s0 && rs[0].value_at(rs[0].flat_of(v)) == v {
            let j = rs[0].flat_of(v);
            assert(concat_value_at(rs, j) == v);
            assert(concat_value_at(rs, i) == v);
            assert(false);
        }
    }
}

/// Two range sequences with the same sizes and the same values position by
/// position concatenate to the same values and the same positions.
pub proof fn lemma_concat_congruent<R: VariableRange>(a: Seq<R>, b: Seq<R>)
    requires
        a.len() == b.len(),
        forall|k: int| 0 <= k < a.len() ==> (#[trigger] a[k]).spec_size() == b[k].spec_size(),
        forall|k: int, i: int|
            0 <= k < a.len() && 0 <= i < a[k].spec_size() ==> (#[trigger] a[k].value_at(i))
                == b[k].value_at(i),
        forall|k: int, v: R::Value|
            0 <= k < a.len() ==> (#[trigger] a[k].flat_of(v)) == b[k].flat_of(v),
    ensures
        range_sizes(a) == range_sizes(b),
        forall|i: int|
            0 <= i < seq_sum(range_sizes(a)) ==> concat_value_at(a, i) == concat_value_at(b, i),
        forall|v: R::Value| concat_flat_of(a, v) == concat_flat_of(b, v),
    decreases a.len(),
{
    assert(range_sizes(a) =~= range_sizes(b));
    if a.len() == 0 {
    } else {
        let ar = a.drop_first();
        let br = b.drop_first();
        assert(forall|k: int| 0 <= k < ar.len() ==> ar[k] == a[k + 1]);
        assert(forall|k: int| 0 <= k < br.len() ==> br[k] == b[k + 1]);
        lemma_concat_congruent(ar, br);
        assert(range_sizes(a).drop_first() =~= range_sizes(ar));
        assert forall|i: int| 0 <= i < seq_sum(range_sizes(a)) implies concat_value_at(a, i)
            == concat_value_at(b, i) by {
            if i >= a[0].spec_size() {
                assert(concat_value_at(ar, i - a[0].spec_size()) == concat_value_at(
                    br,
                    i - a[0].spec_size(),
                )) by {
                    assert(seq_sum(range_sizes(a)) == a[0].spec_size() + seq_sum(range_sizes(ar)));
                }
            }
        }
        assert forall|v: R::Value| concat_flat_of(a, v) == concat_flat_of(b, v) by {
            assert(a[0].flat_of(v) == b[0].flat_of(v));
            if 0 <= a[0].flat_of(v) < a[0].spec_size() && a[0].value_at(a[0].flat_of(v)) == v {
            } else {
                assert(concat_flat_of(ar, v) == concat_flat_of(br, v));
            }
        }
    }
}

/// Under the hypotheses of [`lemma_concat_congruent`], two range sequences
/// are distinct-valued together.
pub proof fn lemma_concat_uniq_congruent<R: VariableRange>(a: Seq<R>, b: Seq<R>)
    requires
        a.len() == b.len(),
        forall|k: int| 0 <= k < a.len() ==> (#[trigger] a[k]).spec_size() == b[k].spec_size(),
        forall|k: int| 0 <= k < a.len() ==> (#[trigger] a[k]).uniq() == b[k].uniq(),
        forall|k: int, i: int|
            0 <= k < a.len() && 0 <= i < a[k].spec_size() ==> (#[trigger] a[k].value_at(i))
                == b[k].value_at(i),
        forall|k: int, v: R::Value|
            0 <= k < a.len() ==> (#[trigger] a[k].flat_of(v)) == b[k].flat_of(v),
    ensures
        concat_uniq(a) == concat_uniq(b),
{
    lemma_concat_congruent(a, b);
    let n = seq_sum(range_sizes(a));
    assert(seq_sum(range_sizes(b)) == n);
    assert forall|k: int| 0 <= k < a.len() implies ((#[trigger] a[k]).uniq() <==> (
    #[trigger] b[k]).uniq()) by {}
    if concat_uniq(a) {
        assert forall|i: int, j: int| 0 <= i < j < n implies concat_value_at(b, i)
            != concat_value_at(b, j) by {
            assert(concat_value_at(a, i) == concat_value_at(b, i));
            assert(concat_value_at(a, j) == concat_value_at(b, j));
        }
        assert forall|k: int| 0 <= k < b.len() implies (#[trigger] b[k]).uniq() by {
            assert(a[k].uniq());
        }
        assert(concat_uniq(b));
    }
    if concat_uniq(b) {
        assert forall|i: int, j: int| 0 <= i < j < n implies concat_value_at(a, i)
            != concat_value_at(a, j) by {
            assert(concat_value_at(a, i) == concat_value_at(b, i));
            assert(concat_value_at(a, j) == concat_value_at(b, j));
        }
        assert forall|k: int| 0 <= k < a.len() implies (#[trigger] a[k]).uniq() by {
            assert(b[k].uniq());
        }
        assert(concat_uniq(a));
    }
    assert(concat_uniq(a) == concat_uniq(b));
}

/// A range that is the concatenation (union) of multiple other ranges with
/// the same value type.
///
/// The union is evaluated in order: the first range comes first, then the
/// second, and so on. Sizes are summed; a flat position belongs to the range
/// whose cumulative size range covers it.
#[derive(Debug, Clone, PartialEq, Eq, Hash)]
pub struct UnionRange<R> {
    /// The inner ranges that form the union.
    pub ranges: Vec<R>,
}

impl<R: VariableRange> UnionRange<R> {
    /// Create a new UnionRange from a vector of ranges.
    pub fn new(ranges: Vec<R>) -> (r: Self)
        ensures
            r.ranges == ranges,
    {
        Self { ranges }
    }

    /// Push a new range to the end of the union.
    pub fn push(&mut self, range: R)
        ensures
            final(self).ranges@ == old(self).ranges@.push(range),
    {
        self.ranges.push(range);
    }

    /// Number of inner ranges.
    pub fn len(&self) -> (n: usize)
        ensures
            n == self.ranges@.len(),
    {
        self.ranges.len()
    }

    /// Returns true if there are no inner ranges.
    pub fn is_empty(&self) -> (b: bool)
        ensures
            b == (self.ranges@.len() == 0),
    {
        self.ranges.len() == 0
    }
}

impl<R: VariableRange> VariableRange for UnionRange<R> {
    type Value = R::Value;

    open spec fn wf(&self) -> bool {
        concat_wf(self.ranges@)
    }

    open spec fn spec_size(&self) -> nat {
        seq_sum(range_sizes(self.ranges@))
    }

    open spec fn value_at(&self, i: int) -> R::Value {
        concat_value_at(self.ranges@, i)
    }

    open spec fn flat_of(&self, v: R::Value) -> int {
        concat_flat_of(self.ranges@, v)
    }

    open spec fn uniq(&self) -> bool {
        concat_uniq(self.ranges@)
    }

    proof fn lemma_flatten_unflatten(&self, i: int) {
        lemma_concat_flatten_unflatten(self.ranges@, i);
    }

    fn size(&self) -> (n: usize) {
        union_total_size(&self.ranges)
    }

    fn unflatten_index_value(&self, index: usize) -> (v: R::Value) {
        union_unflatten(&self.ranges, index)
    }

    fn iter(&self) -> (vs: Vec<R::Value>) {
        let n = self.size();
        let mut vs: Vec<R::Value> = Vec::new();
        let mut i: usize = 0;
        while i < n
            invariant
                self.wf(),
                n == self.spec_size(),
                i <= n,
                vs.len() == i,
                forall|j: int| 0 <= j < i ==> vs[j] == self.value_at(j),
            decreases n - i,
        {
            vs.push(self.unflatten_index_value(i));
            i += 1;
        }
        vs
    }

    fn clone_range(&self) -> (r: Self) {
        let cloned = clone_ranges(&self.ranges);
        proof {
            lemma_concat_congruent(cloned@, self.ranges@);
            lemma_concat_uniq_congruent(cloned@, self.ranges@);
        }
        UnionRange { ranges: cloned }
    }
}

/// The total size of a sequence of ranges: the sum of their sizes.
pub(crate) fn union_total_size<R: VariableRange>(ranges: &Vec<R>) -> (n: usize)
    requires
        concat_wf(ranges@),
    ensures
        n == seq_sum(range_sizes(ranges@)),
{
    let mut total: usize = 0;
    let mut k: usize = 0;
    let len = ranges.len();
    proof {
        assert(range_sizes(ranges@.take(0)) =~= Seq::<nat>::empty());
    }
    while k < len
        invariant
            concat_wf(ranges@),
            len == ranges@.len(),
            k <= len,
            total == seq_sum(range_sizes(ranges@.take(k as int))),
        decreases len - k,
    {
        proof {
            let pre = range_sizes(ranges@.take(k as int));
            let pre1 = range_sizes(ranges@.take(k + 1));
            let rest = range_sizes(ranges@.skip(k as int));
            assert(pre1 =~= pre + seq![ranges@[k as int].spec_size()]);
            lemma_seq_sum_app(pre, seq![ranges@[k as int].spec_size()]);
            assert(seq_sum(seq![ranges@[k as int].spec_size()]) == ranges@[
                k as int
            ].spec_size()) by {
                assert(seq![ranges@[k as int].spec_size()].drop_first() =~= Seq::<nat>::empty());
                assert(seq_sum(Seq::<nat>::empty()) == 0);
                assert(seq![ranges@[k as int].spec_size()][0] == ranges@[k as int].spec_size());
            }
            assert(range_sizes(ranges@) =~= pre1 + range_sizes(ranges@.skip(k + 1)));
            lemma_seq_sum_app(pre1, range_sizes(ranges@.skip(k + 1)));
        }
        total = total + ranges[k].size();
        k += 1;
    }
    proof {
        assert(ranges@.take(len as int) == ranges@);
    }
    total
}

/// The value at flat position `index` of the concatenation of `ranges`.
pub(crate) fn union_unflatten<R: VariableRange>(ranges: &Vec<R>, index: usize) -> (v: R::Value)
    requires
        concat_wf(ranges@),
        index < seq_sum(range_sizes(ranges@)),
    ensures
        v == concat_value_at(ranges@, index as int),
{
    let mut k: usize = 0;
    let mut rem: usize = index;
    let len = ranges.len();
    proof {
        assert(ranges@.skip(0) == ranges@);
    }
    loop
        invariant
            concat_wf(ranges@),
            len == ranges@.len(),
            k <= len,
            rem <= index,
            rem < seq_sum(range_sizes(ranges@.skip(k as int))),
            concat_value_at(ranges@, index as int) == concat_value_at(
                ranges@.skip(k as int),
                rem as int,
            ),
        decreases len - k,
    {
        proof {
            if k >= len {
                assert(ranges@.skip(k as int) =~= Seq::<R>::empty());
                assert(range_sizes(ranges@.skip(k as int)) =~= Seq::<nat>::empty());
            }
        }
        let sz = ranges[k].size();
        proof {
            let rest = ranges@.skip(k as int);
            assert(rest[0] == ranges@[k as int]);
            assert(range_sizes(rest)[0] == ranges@[k as int].spec_size());
            assert(range_sizes(rest).drop_first() =~= range_sizes(ranges@.skip(k + 1)));
            assert(rest.drop_first() =~= ranges@.skip(k + 1));
        }
        if rem < sz {
            return ranges[k].unflatten_index_value(rem);
        }
        rem = rem - sz;
        k += 1;
    }
}

/// A model-preserving copy of each range in `ranges`.
pub(crate) fn clone_ranges<R: VariableRange>(ranges: &Vec<R>) -> (r: Vec<R>)
    requires
        forall|k: int| 0 <= k < ranges@.len() ==> (#[trigger] ranges@[k]).wf(),
    ensures
        r@.len() == ranges@.len(),
        forall|k: int|
            0 <= k < ranges@.len() ==> {
                &&& (#[trigger] r@[k]).wf()
                &&& r@[k].uniq() == ranges@[k].uniq()
                &&& r@[k].spec_size() == ranges@[k].spec_size()
                &&& forall|i: int|
                    0 <= i < ranges@[k].spec_size() ==> r@[k].value_at(i) == ranges@[k].value_at(i)
                &&& forall|v: R::Value| r@[k].flat_of(v) == ranges@[k].flat_of(v)
            },
{
    let mut r: Vec<R> = Vec::new();
    let mut k: usize = 0;
    while k < ranges.len()
        invariant
            forall|j: int| 0 <= j < ranges@.len() ==> (#[trigger] ranges@[j]).wf(),
            k <= ranges@.len(),
            r@.len() == k,
            forall|j: int|
                0 <= j < k ==> {
                    &&& (#[trigger] r@[j]).wf()
                    &&& r@[j].uniq() == ranges@[j].uniq()
                    &&& r@[j].spec_size() == ranges@[j].spec_size()
                    &&& forall|i: int|
                        0 <= i < ranges@[j].spec_size() ==> r@[j].value_at(i)
                            == ranges@[j].value_at(i)
                    &&& forall|v: R::Value| r@[j].flat_of(v) == ranges@[j].flat_of(v)
                },
        decreases ranges@.len() - k,
    {
        r.push(ranges[k].clone_range());
        k += 1;
    }
    r
}

} // verus!
