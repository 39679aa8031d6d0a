//! A multi-dimensional labeled-array library: indices that map between flat
//! positions and logical values, compound (multi-dimensional) indices with
//! row-major flattening, and dimension-aware reduction over flat backing data.

pub mod data_frame;
pub mod mapped_index;
pub mod tuple_utils;

pub use crate::data_frame::frame_core::DataFrame;
pub use crate::mapped_index::numeric_range::NumericRangeIndex;
pub use crate::mapped_index::sparse_numeric_index::SparseNumericIndex;

use vstd::prelude::*;
use vstd::arithmetic::mul::lemma_mul_is_associative;

verus! {

/// Product of a sequence of sizes; the size of a multi-dimensional index is
/// the product of the sizes of its dimensions.
pub open spec fn seq_product(dims: Seq<nat>) -> nat
    decreases dims.len(),
{
    if dims.len() == 0 {
        1
    } else {
        dims[0] * seq_product(dims.drop_first())
    }
}

/// The product of a concatenation is the product of the products.
pub proof fn lemma_seq_product_app(a: Seq<nat>, b: Seq<nat>)
    ensures
        seq_product(a + b) == seq_product(a) * seq_product(b),
    decreases a.len(),
{
    if a.len() == 0 {
        assert(a + b == b);
        assert(seq_product(a) == 1);
    } else {
        assert((a + b).drop_first() == a.drop_first() + b);
        lemma_seq_product_app(a.drop_first(), b);
        assert((a + b)[0] == a[0]);
        assert(seq_product(a + b) == a[0] * seq_product(a.drop_first() + b));
        assert(seq_product(a) == a[0] * seq_product(a.drop_first()));
        lemma_mul_is_associative(
            a[0] as int,
            seq_product(a.drop_first()) as int,
            seq_product(b) as int,
        );
    }
}

/// Sum of a sequence of sizes; the size of a union of ranges is the sum of
/// the sizes of its parts.
pub open spec fn seq_sum(sizes: Seq<nat>) -> nat
    decreases sizes.len(),
{
    if sizes.len() == 0 {
        0
    } else {
        sizes[0] + seq_sum(sizes.drop_first())
    }
}

/// The sum of a concatenation is the sum of the sums.
pub proof fn lemma_seq_sum_app(a: Seq<nat>, b: Seq<nat>)
    ensures
        seq_sum(a + b) == seq_sum(a) + seq_sum(b),
    decreases a.len(),
{
    if a.len() == 0 {
        assert(a + b == b);
        assert(seq_sum(a) == 0);
    } else {
        assert((a + b).drop_first() == a.drop_first() + b);
        lemma_seq_sum_app(a.drop_first(), b);
        assert((a + b)[0] == a[0]);
        assert(seq_sum(a + b) == a[0] + seq_sum(a.drop_first() + b));
        assert(seq_sum(a) == a[0] + seq_sum(a.drop_first()));
    }
}

/// The product of a one-element sequence is its element.
pub proof fn lemma_seq_product_singleton(x: nat)
    ensures
        seq_product(seq![x]) == x,
{
    assert(seq![x].drop_first() == Seq::<nat>::empty());
    assert(seq_product(Seq::<nat>::empty()) == 1);
    assert(seq![x][0] == x);
    assert(seq_product(seq![x]) == seq![x][0] * seq_product(seq![x].drop_first()));
}

} // verus!
