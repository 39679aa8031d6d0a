//! The mean of a sequence of values.

use vstd::arithmetic::div_mod::{lemma_div_is_ordered, lemma_div_pos_is_pos};
use vstd::arithmetic::mul::lemma_mul_inequality;
use vstd::prelude::*;

verus! {

/// The sum of a sequence of machine integers, as a mathematical integer.
pub open spec fn sum_seq_i64(s: Seq<i64>) -> int
    decreases s.len(),
{
    if s.len() == 0 {
        0
    } else {
        sum_seq_i64(s.drop_last()) + s.last()
    }
}

/// The sum of a sequence is bounded by its length times the element bounds.
pub proof fn lemma_sum_seq_i64_bound(s: Seq<i64>)
    ensures
        s.len() * (i64::MIN as int) <= sum_seq_i64(s) <= s.len() * (i64::MAX as int),
    decreases s.len(),
{
    if s.len() == 0 {
    } else {
        lemma_sum_seq_i64_bound(s.drop_last());
        let n = s.len() as int;
        assert((n - 1) * (i64::MIN as int) + (i64::MIN as int) == n * (i64::MIN as int))
            by (nonlinear_arith);
        assert((n - 1) * (i64::MAX as int) + (i64::MAX as int) == n * (i64::MAX as int))
            by (nonlinear_arith);
    }
}

/// Integer division of `total` by `n`, truncated toward zero.
pub open spec fn trunc_div(total: int, n: int) -> int {
    if total >= 0 {
        total / n
    } else {
        -((-total) / n)
    }
}

/// A value whose mean over a sequence is defined.
///
/// The mean of a non-empty sequence is its sum divided by its length
/// ([`mean_spec`](Mean::mean_spec)); the mean of an empty sequence does not
/// exist, and [`mean_from_iter`](Mean::mean_from_iter) returns nothing for
/// it.
pub trait Mean: Sized {
    /// The mean of a non-empty sequence of values.
    spec fn mean_spec(s: Seq<Self>) -> Self;

    /// Compute the mean of the given values; nothing if there are none.
    fn mean_from_iter(values: &Vec<Self>) -> (r: Option<Self>)
        ensures
            values@.len() == 0 ==> r is None,
            values@.len() > 0 ==> r == Some(Self::mean_spec(values@)),
    ;
}

impl Mean for i64 {
    open spec fn mean_spec(s: Seq<i64>) -> i64 {
        trunc_div(sum_seq_i64(s), s.len() as int) as i64
    }

    fn mean_from_iter(values: &Vec<i64>) -> (r: Option<i64>) {
        let n = values.len();
        if n == 0 {
            return None;
        }
        let mut acc: i128 = 0;
        let mut i: usize = 0;
        while i < n
            invariant
                n == values@.len(),
                i <= n,
                acc == sum_seq_i64(values@.take(i as int)),
                (i as int) * (i64::MIN as int) <= acc <= (i as int) * (i64::MAX as int),
            decreases n - i,
        {
            proof {
                let t = values@.take(i + 1);
                assert(t.drop_last() == values@.take(i as int));
                assert(t.last() == values@[i as int]);
                let ii = i as int;
                assert(ii * (i64::MIN as int) + (i64::MIN as int) == (ii + 1) * (i64::MIN as int))
                    by (nonlinear_arith);
                assert(ii * (i64::MAX as int) + (i64::MAX as int) == (ii + 1) * (i64::MAX as int))
                    by (nonlinear_arith);
                lemma_mul_inequality(i + 1, n as int, i64::MAX as int);
                lemma_mul_inequality(i + 1, n as int, -(i64::MIN as int));
                assert((n as int) * -(i64::MIN as int) == -((n as int) * (i64::MIN as int)))
                    by (nonlinear_arith);
                assert((i + 1) * -(i64::MIN as int) == -((i + 1) * (i64::MIN as int)))
                    by (nonlinear_arith);
                assert((n as int) * (i64::MAX as int) < i128::MAX) by (nonlinear_arith)
                    requires
                        0 < (n as int) <= usize::MAX,
                        usize::MAX <= u64::MAX,
                ;
                assert(i128::MIN < (n as int) * (i64::MIN as int)) by (nonlinear_arith)
                    requires
                        0 < (n as int) <= usize::MAX,
                        usize::MAX <= u64::MAX,
                ;
            }
            acc = acc + (values[i] as i128);
            i += 1;
        }
        proof {
            assert(values@.take(n as int) == values@);
        }
        let total = acc;
        let nn = n as u128;
        proof {
            let tot = total as int;
            let ni = n as int;
            lemma_sum_seq_i64_bound(values@);
            if tot >= 0 {
                lemma_div_is_ordered(tot, ni * (i64::MAX as int), ni);
                assert((ni * (i64::MAX as int)) / ni == i64::MAX as int) by {
                    vstd::arithmetic::div_mod::lemma_div_multiples_vanish(i64::MAX as int, ni);
                    assert(ni * (i64::MAX as int) == (i64::MAX as int) * ni)
                        by (nonlinear_arith);
                }
                lemma_div_pos_is_pos(tot, ni);
            } else {
                assert(-tot <= ni * -(i64::MIN as int)) by (nonlinear_arith)
                    requires
                        ni * (i64::MIN as int) <= tot,
                ;
                lemma_div_is_ordered(-tot, ni * -(i64::MIN as int), ni);
                assert((ni * -(i64::MIN as int)) / ni == -(i64::MIN as int)) by {
                    vstd::arithmetic::div_mod::lemma_div_multiples_vanish(-(i64::MIN as int), ni);
                    assert(ni * -(i64::MIN as int) == -(i64::MIN as int) * ni)
                        by (nonlinear_arith);
                }
                lemma_div_pos_is_pos(-tot, ni);
            }
        }
        if total >= 0 {
            let q = ((total as u128) / nn) as i64;
            Some(q)
        } else {
            let q: i128 = ((((-total) as u128) / nn) as i128);
            proof {
                assert(-(q as int) >= i64::MIN as int);
            }
            Some((-q) as i64)
        }
    }
}

} // verus!
