//! Stacking logic for DataFrame: several DataFrames over equal inner indices
//! become one DataFrame over a compound index, and DataFrames over
//! mismatching sparse indices are stacked over the union of their keys, with
//! missing values filled by a configurable policy.

use vstd::prelude::*;
use crate::data_frame::frame_core::DataFrame;
use crate::mapped_index::{IndexEq, VariableRange};
use crate::mapped_index::compound_index::{CompoundIndex, HCons, HNil};
use crate::mapped_index::numeric_range::{NumericRangeIndex, NumericRangeValue};
use crate::mapped_index::sparse_numeric_index::{
    sorted_set_binary_search, sorted_set_from_vec, sorted_set_get, sorted_set_len, sorted_set_seq,
    SparseNumericIndex,
};

verus! {

/// Interpolation method for missing data points that lie between two known
/// keys.
#[derive(Debug, Clone, Copy, PartialEq, Eq)]
pub enum InterpolationMethod {
    /// Use the value of a neighbouring key; between two known keys this
    /// resolves to the predecessor.
    Nearest,
    /// Use the previous value.
    Previous,
    /// Use the next value.
    Next,
    /// Use a default value.
    Default,
}

/// Extrapolation method for missing data points that lie before the first or
/// after the last known key.
#[derive(Debug, Clone, Copy, PartialEq, Eq)]
pub enum ExtrapolationMethod {
    /// Use the nearest value.
    Nearest,
    /// Use a default value.
    Default,
}

/// The number of keys smaller than `key`.
pub open spec fn count_lt(keys: Seq<i64>, key: i64) -> int
    decreases keys.len(),
{
    if keys.len() == 0 {
        0
    } else {
        count_lt(keys.drop_last(), key) + if keys.last() < key {
            1int
        } else {
            0int
        }
    }
}

/// When a position `i` splits the keys into those below `key` and those not
/// below it, `i` counts the keys below `key`.
pub proof fn lemma_count_lt_split(keys: Seq<i64>, key: i64, i: int)
    requires
        0 <= i <= keys.len(),
        forall|j: int| 0 <= j < i ==> keys[j] < key,
        forall|j: int| i <= j < keys.len() ==> keys[j] >= key,
    ensures
        count_lt(keys, key) == i,
    decreases keys.len(),
{
    if keys.len() == 0 {
    } else {
        let pre = keys.drop_last();
        if keys.last() < key {
            assert(i == keys.len());
            lemma_count_lt_split(pre, key, i - 1);
        } else {
            assert(i <= keys.len() - 1);
            lemma_count_lt_split(pre, key, i);
        }
    }
}

/// The value that stacking gives one DataFrame at a key of the union index:
/// the stored value when the DataFrame has the key; otherwise the
/// extrapolated value when the key falls before all or after all of the
/// DataFrame's keys, and the interpolated value when it falls between two of
/// them.
pub open spec fn sparse_fill<T>(
    keys: Seq<i64>,
    data: Seq<T>,
    key: i64,
    interpolation: InterpolationMethod,
    extrapolation: ExtrapolationMethod,
    default_value: T,
) -> T {
    let pos = count_lt(keys, key);
    if pos < keys.len() && keys[pos] == key {
        data[pos]
    } else if pos == 0 || pos == keys.len() {
        match extrapolation {
            ExtrapolationMethod::Nearest => if keys.len() == 0 {
                default_value
            } else if pos == 0 {
                data[0]
            } else {
                data[keys.len() - 1]
            },
            ExtrapolationMethod::Default => default_value,
        }
    } else {
        match interpolation {
            InterpolationMethod::Nearest => data[pos - 1],
            InterpolationMethod::Previous => data[pos - 1],
            InterpolationMethod::Next => data[pos],
            InterpolationMethod::Default => default_value,
        }
    }
}

impl<I, T> DataFrame<I, Vec<T>> where I: VariableRange + IndexEq, T: Copy {
    /// Stack a vector of DataFrames into one DataFrame with a compound
    /// index: the top-level index selects the original DataFrame, and the
    /// lower-level index is the DataFrames' shared inner index. Nothing is
    /// returned when there is no DataFrame to stack, or when the inner
    /// indices are not all equal.
    pub fn stack(dfs: Vec<DataFrame<I, Vec<T>>>) -> (out: Option<
        DataFrame<CompoundIndex<HCons<NumericRangeIndex<usize>, HCons<I, HNil>>>, Vec<T>>,
    >)
        requires
            forall|k: int| 0 <= k < dfs@.len() ==> (#[trigger] dfs@[k]).wf(),
        ensures
            out is Some <==> (dfs@.len() > 0 && forall|k: int|
                0 <= k < dfs@.len() ==> (#[trigger] dfs@[k]).index.eq_spec(&dfs@[0].index)),
            out matches Some(df) ==> {
                &&& df.wf()
                &&& df.index.indices.head.start.spec_int() == 0
                &&& df.index.indices.head.end.spec_int() == dfs@.len()
                &&& df.index.indices.tail.head.spec_size() == dfs@[0].index.spec_size()
                &&& forall|i: int|
                    0 <= i < dfs@[0].index.spec_size()
                        ==> #[trigger] df.index.indices.tail.head.value_at(i)
                        == dfs@[0].index.value_at(i)
                &&& df.data@.len() == dfs@.len() * dfs@[0].index.spec_size()
                &&& forall|k: int, i: int|
                    0 <= k < dfs@.len() && 0 <= i < dfs@[0].index.spec_size()
                        ==> #[trigger] df.data@[k * dfs@[0].index.spec_size() + i]
                        == dfs@[k].data@[i]
            },
    {
        let n = dfs.len();
        if n == 0 {
            return None;
        }
        let mut k: usize = 0;
        while k < n
            invariant
                forall|j: int| 0 <= j < dfs@.len() ==> (#[trigger] dfs@[j]).wf(),
                n == dfs@.len(),
                n > 0,
                k <= n,
                forall|j: int| 0 <= j < k ==> (#[trigger] dfs@[j]).index.eq_spec(&dfs@[0].index),
            decreases n - k,
        {
            if !dfs[k].index.index_eq(&dfs[0].index) {
                return None;
            }
            k += 1;
        }
        let ghost s = dfs@[0].index.spec_size();
        let outer_index = NumericRangeIndex::new(0usize, n);
        let inner_index = dfs[0].index.clone_range();
        let inner_size = dfs[0].index.size();
        let mut data: Vec<T> = Vec::new();
        let mut k: usize = 0;
        while k < n
            invariant
                forall|j: int| 0 <= j < dfs@.len() ==> (#[trigger] dfs@[j]).wf(),
                forall|j: int| 0 <= j < dfs@.len() ==> (#[trigger] dfs@[j]).index.eq_spec(
                    &dfs@[0].index,
                ),
                n == dfs@.len(),
                s == dfs@[0].index.spec_size(),
                inner_size == s,
                k <= n,
                data@.len() == k * s,
                forall|j: int, i: int|
                    0 <= j < k && 0 <= i < s ==> #[trigger] data@[j * s + i] == dfs@[j].data@[i],
            decreases n - k,
        {
            let df_len = dfs[k].data.len();
            proof {
                dfs@[k as int].index.lemma_eq_spec(&dfs@[0].index);
            }
            let mut i: usize = 0;
            while i < df_len
                invariant
                    forall|j: int| 0 <= j < dfs@.len() ==> (#[trigger] dfs@[j]).wf(),
                    n == dfs@.len(),
                    s == dfs@[0].index.spec_size(),
                    k < n,
                    df_len == s,
                    dfs@[k as int].data@.len() == s,
                    i <= df_len,
                    data@.len() == k * s + i,
                    forall|j: int, p: int|
                        0 <= j < k && 0 <= p < s ==> #[trigger] data@[j * s + p]
                            == dfs@[j].data@[p],
                    forall|p: int| 0 <= p < i ==> #[trigger] data@[k * s + p] == dfs@[k as int].data@[p],
                decreases df_len - i,
            {
                let ghost old_len = data@.len();
                data.push(dfs[k].data[i]);
                i += 1;
                proof {
                    assert forall|j: int, p: int| 0 <= j < k && 0 <= p < s implies #[trigger] data@[
                        j * (s as int) + p] == dfs@[j].data@[p] by {
                        assert(j * (s as int) + p < old_len) by (nonlinear_arith)
                            requires
                                0 <= j < k,
                                0 <= p < s,
                                old_len == (k as int) * (s as int) + i - 1,
                                i >= 1,
                        ;
                    }
                }
            }
            k += 1;
            proof {
                assert((k as int) * (s as int) == (k - 1) * (s as int) + s) by (nonlinear_arith);
                assert forall|j: int, p: int| 0 <= j < k && 0 <= p < s implies #[trigger] data@[j
                    * (s as int) + p] == dfs@[j].data@[p] by {
                    assert(j * (s as int) + p < data@.len()) by (nonlinear_arith)
                        requires
                            0 <= j < k,
                            0 <= p < s,
                            data@.len() == (k as int) * (s as int),
                    ;
                }
            }
        }
        let total = data.len();
        proof {
            assert((n as int) * (s as int) == data@.len());
            assert(inner_size * 1 == s);
            assert((n as int) * (s as int) <= usize::MAX);
        }
        let compound_index = CompoundIndex::new(
            HCons { head: outer_index, tail: HCons { head: inner_index, tail: HNil } },
        );
        Some(DataFrame::new(compound_index, data))
    }
}

impl<T: Copy> DataFrame<SparseNumericIndex, Vec<T>> {
    /// Stack a vector of DataFrames with potentially mismatching sparse
    /// indices into one DataFrame with a compound index: the top-level index
    /// selects the original DataFrame, and the lower-level index is the
    /// union of all their keys. Missing values are filled according to the
    /// interpolation and extrapolation methods ([`sparse_fill`]). Nothing is
    /// returned when there is no DataFrame to stack.
    pub fn stack_sparse(
        dfs: Vec<DataFrame<SparseNumericIndex, Vec<T>>>,
        interpolation: InterpolationMethod,
        extrapolation: ExtrapolationMethod,
        default_value: T,
    ) -> (out: Option<
        DataFrame<
            CompoundIndex<HCons<NumericRangeIndex<usize>, HCons<SparseNumericIndex, HNil>>>,
            Vec<T>,
        >,
    >)
        requires
            forall|k: int| 0 <= k < dfs@.len() ==> (#[trigger] dfs@[k]).wf(),
        ensures
            out is Some <==> dfs@.len() > 0,
            out matches Some(df) ==> {
                let useq = sorted_set_seq(df.index.indices.tail.head.indices);
                &&& df.wf()
                &&& df.index.indices.head.start.spec_int() == 0
                &&& df.index.indices.head.end.spec_int() == dfs@.len()
                &&& df.index.indices.tail.head.wf()
                &&& forall|x: i64|
                    #[trigger] useq.contains(x) <==> exists|k: int|
                        0 <= k < dfs@.len() && sorted_set_seq(
                            (#[trigger] dfs@[k]).index.indices,
                        ).contains(x)
                &&& df.data@.len() == dfs@.len() * useq.len()
                &&& forall|k: int, p: int|
                    0 <= k < dfs@.len() && 0 <= p < useq.len() ==> #[trigger] df.data@[k
                        * useq.len() + p] == sparse_fill(
                        sorted_set_seq(dfs@[k].index.indices),
                        dfs@[k].data@,
                        useq[p],
                        interpolation,
                        extrapolation,
                        default_value,
                    )
            },
    {
        let n = dfs.len();
        if n == 0 {
            return None;
        }
        let mut all_keys: Vec<i64> = Vec::new();
        let mut k: usize = 0;
        while k < n
            invariant
                forall|j: int| 0 <= j < dfs@.len() ==> (#[trigger] dfs@[j]).wf(),
                n == dfs@.len(),
                k <= n,
                forall|x: i64|
                    #[trigger] all_keys@.contains(x) <==> exists|j: int|
                        0 <= j < k && sorted_set_seq((#[trigger] dfs@[j]).index.indices).contains(
                            x,
                        ),
            decreases n - k,
        {
            let klen = sorted_set_len(&dfs[k].index.indices);
            let mut i: usize = 0;
            while i < klen
                invariant
                    forall|j: int| 0 <= j < dfs@.len() ==> (#[trigger] dfs@[j]).wf(),
                    n == dfs@.len(),
                    k < n,
                    klen == sorted_set_seq(dfs@[k as int].index.indices).len(),
                    i <= klen,
                    forall|x: i64|
                        #[trigger] all_keys@.contains(x) <==> ((exists|j: int|
                            0 <= j < k && sorted_set_seq(
                                (#[trigger] dfs@[j]).index.indices,
                            ).contains(x)) || (exists|q: int|
                            #![trigger sorted_set_seq(dfs@[k as int].index.indices)[q]]
                            0 <= q < i && sorted_set_seq(dfs@[k as int].index.indices)[q] == x)),
                decreases klen - i,
            {
                let key = sorted_set_get(&dfs[k].index.indices, i);
                let ghost old_keys = all_keys@;
                all_keys.push(key);
                i += 1;
                proof {
                    assert forall|x: i64| #[trigger] all_keys@.contains(x) implies ((exists|j: int|
                        0 <= j < k && sorted_set_seq((#[trigger] dfs@[j]).index.indices).contains(
                            x,
                        )) || (exists|q: int|
                        0 <= q < i && sorted_set_seq(dfs@[k as int].index.indices)[q] == x)) by {
                        let w = choose|w: int| 0 <= w < all_keys@.len() && all_keys@[w] == x;
                        if w < old_keys.len() {
                            assert(old_keys.contains(x)) by {
                                assert(old_keys[w] == x);
                            }
                        } else {
                            assert(x == key);
                            assert(sorted_set_seq(dfs@[k as int].index.indices)[i - 1] == x);
                        }
                    }
                    assert forall|x: i64|
                        ((exists|j: int|
                            0 <= j < k && sorted_set_seq(
                                (#[trigger] dfs@[j]).index.indices,
                            ).contains(x)) || (exists|q: int|
                            0 <= q < i && sorted_set_seq(dfs@[k as int].index.indices)[q]
                                == x)) implies #[trigger] all_keys@.contains(x) by {
                        if exists|q: int|
                            #![trigger sorted_set_seq(dfs@[k as int].index.indices)[q]]
                            0 <= q < i && sorted_set_seq(dfs@[k as int].index.indices)[q] == x {
                            let q = choose|q: int|
                                #![trigger sorted_set_seq(dfs@[k as int].index.indices)[q]]
                                0 <= q < i && sorted_set_seq(dfs@[k as int].index.indices)[q] == x;
                            if q < i - 1 {
                                assert(old_keys.contains(x));
                                let w = choose|w: int|
                                    0 <= w < old_keys.len() && old_keys[w] == x;
                                assert(all_keys@[w] == x);
                            } else {
                                assert(all_keys@[all_keys@.len() - 1] == x);
                            }
                        } else {
                            assert(old_keys.contains(x));
                            let w = choose|w: int| 0 <= w < old_keys.len() && old_keys[w] == x;
                            assert(all_keys@[w] == x);
                        }
                    }
                }
            }
            k += 1;
            proof {
                assert forall|x: i64| #[trigger] all_keys@.contains(x) implies (exists|j: int|
                    0 <= j < k && sorted_set_seq((#[trigger] dfs@[j]).index.indices).contains(
                        x,
                    )) by {
                    if exists|q: int|
                        #![trigger sorted_set_seq(dfs@[k - 1].index.indices)[q]]
                        0 <= q < klen && sorted_set_seq(dfs@[k - 1].index.indices)[q] == x {
                        let q = choose|q: int|
                            #![trigger sorted_set_seq(dfs@[k - 1].index.indices)[q]]
                            0 <= q < klen && sorted_set_seq(dfs@[k - 1].index.indices)[q] == x;
                        assert(sorted_set_seq(dfs@[k - 1].index.indices).contains(x)) by {
                            assert(sorted_set_seq(dfs@[k - 1].index.indices)[q] == x);
                        }
                    }
                }
                assert forall|x: i64|
                    (exists|j: int|
                        0 <= j < k && sorted_set_seq((#[trigger] dfs@[j]).index.indices).contains(
                            x,
                        )) implies #[trigger] all_keys@.contains(x) by {
                    let j = choose|j: int|
                        0 <= j < k && sorted_set_seq((dfs@[j]).index.indices).contains(x);
                    if j == k - 1 {
                        let q = choose|q: int|
                            #![trigger sorted_set_seq(dfs@[k - 1].index.indices)[q]]
                            0 <= q < klen && sorted_set_seq(dfs@[k - 1].index.indices)[q] == x;
                    }
                }
            }
        }
        let union_set = sorted_set_from_vec(all_keys);
        let union_index = SparseNumericIndex::new(union_set);
        let ulen = sorted_set_len(&union_index.indices);
        let ghost useq = sorted_set_seq(union_index.indices);
        let outer_index = NumericRangeIndex::new(0usize, n);
        let mut data: Vec<T> = Vec::new();
        let mut k: usize = 0;
        while k < n
            invariant
                forall|j: int| 0 <= j < dfs@.len() ==> (#[trigger] dfs@[j]).wf(),
                n == dfs@.len(),
                useq == sorted_set_seq(union_index.indices),
                ulen == useq.len(),
                k <= n,
                data@.len() == k * ulen,
                forall|j: int, p: int|
                    0 <= j < k && 0 <= p < ulen ==> #[trigger] data@[j * (ulen as int) + p]
                        == sparse_fill(
                        sorted_set_seq(dfs@[j].index.indices),
                        dfs@[j].data@,
                        useq[p],
                        interpolation,
                        extrapolation,
                        default_value,
                    ),
            decreases n - k,
        {
            let mut p: usize = 0;
            while p < ulen
                invariant
                    forall|j: int| 0 <= j < dfs@.len() ==> (#[trigger] dfs@[j]).wf(),
                    n == dfs@.len(),
                    useq == sorted_set_seq(union_index.indices),
                    ulen == useq.len(),
                    k < n,
                    p <= ulen,
                    data@.len() == k * ulen + p,
                    forall|j: int, q: int|
                        0 <= j < k && 0 <= q < ulen ==> #[trigger] data@[j * (ulen as int) + q]
                            == sparse_fill(
                            sorted_set_seq(dfs@[j].index.indices),
                            dfs@[j].data@,
                            useq[q],
                            interpolation,
                            extrapolation,
                            default_value,
                        ),
                    forall|q: int|
                        0 <= q < p ==> #[trigger] data@[(k as int) * (ulen as int) + q]
                            == sparse_fill(
                            sorted_set_seq(dfs@[k as int].index.indices),
                            dfs@[k as int].data@,
                            useq[q],
                            interpolation,
                            extrapolation,
                            default_value,
                        ),
                decreases ulen - p,
            {
                let key = sorted_set_get(&union_index.indices, p);
                let ghost dkeys = sorted_set_seq(dfs@[k as int].index.indices);
                let ghost ddata = dfs@[k as int].data@;
                let value: T = match sorted_set_binary_search(&dfs[k].index.indices, key) {
                    Ok(pos) => {
                        proof {
                            lemma_count_lt_split(dkeys, key, pos as int);
                        }
                        dfs[k].data[pos]
                    },
                    Err(insert_pos) => {
                        proof {
                            lemma_count_lt_split(dkeys, key, insert_pos as int);
                            if (insert_pos as int) < dkeys.len() {
                                assert(dkeys[insert_pos as int] != key);
                            }
                        }
                        let dlen = dfs[k].data.len();
                        if insert_pos == 0 || insert_pos == dlen {
                            match extrapolation {
                                ExtrapolationMethod::Nearest => {
                                    if dlen == 0 {
                                        default_value
                                    } else if insert_pos == 0 {
                                        dfs[k].data[0]
                                    } else {
                                        dfs[k].data[dlen - 1]
                                    }
                                },
                                ExtrapolationMethod::Default => default_value,
                            }
                        } else {
                            match interpolation {
                                InterpolationMethod::Nearest => dfs[k].data[insert_pos - 1],
                                InterpolationMethod::Previous => dfs[k].data[insert_pos - 1],
                                InterpolationMethod::Next => dfs[k].data[insert_pos],
                                InterpolationMethod::Default => default_value,
                            }
                        }
                    },
                };
                proof {
                    assert(value == sparse_fill(
                        dkeys,
                        ddata,
                        useq[p as int],
                        interpolation,
                        extrapolation,
                        default_value,
                    ));
                }
                let ghost old_len = data@.len();
                data.push(value);
                p += 1;
                proof {
                    assert forall|j: int, q: int| 0 <= j < k && 0 <= q < ulen implies #[trigger] data@[
                        j * (ulen as int) + q] == sparse_fill(
                        sorted_set_seq(dfs@[j].index.indices),
                        dfs@[j].data@,
                        useq[q],
                        interpolation,
                        extrapolation,
                        default_value,
                    ) by {
                        assert(j * (ulen as int) + q < old_len) by (nonlinear_arith)
                            requires
                                0 <= j < k,
                                0 <= q < ulen,
                                old_len == (k as int) * (ulen as int) + p - 1,
                                p >= 1,
                        ;
                    }
                }
            }
            k += 1;
            proof {
                assert((k as int) * (ulen as int) == (k - 1) * (ulen as int) + ulen)
                    by (nonlinear_arith);
                assert forall|j: int, q: int| 0 <= j < k && 0 <= q < ulen implies #[trigger] data@[j
                    * (ulen as int) + q] == sparse_fill(
                    sorted_set_seq(dfs@[j].index.indices),
                    dfs@[j].data@,
                    useq[q],
                    interpolation,
                    extrapolation,
                    default_value,
                ) by {
                    assert(j * (ulen as int) + q < data@.len()) by (nonlinear_arith)
                        requires
                            0 <= j < k,
                            0 <= q < ulen,
                            data@.len() == (k as int) * (ulen as int),
                    ;
                }
            }
        }
        let total = data.len();
        proof {
            assert((n as int) * (ulen as int) == data@.len());
            assert((ulen as int) * 1 == ulen as int);
        }
        let compound_index = CompoundIndex::new(
            HCons { head: outer_index, tail: HCons { head: union_index, tail: HNil } },
        );
        Some(DataFrame::new(compound_index, data))
    }
}

} // verus!
