//! The compound index: an ordered list of sub-indices composed into one
//! multi-dimensional index with row-major flattening (first dimension
//! slowest-varying).

use vstd::arithmetic::div_mod::{
    lemma_div_pos_is_pos, lemma_fundamental_div_mod, lemma_mod_bound,
};
use vstd::arithmetic::mul::lemma_mul_nonnegative;
use vstd::prelude::*;
use crate::mapped_index::VariableRange;
use crate::{lemma_seq_product_app, lemma_seq_product_singleton, seq_product};

verus! {

/// Selects the first dimension of a dimension list.
pub struct Here;

/// Selects a dimension further along the list: `There<Prev>` selects, in the
/// tail of the list, the dimension that `Prev` selects.
pub struct There<Prev> {
    _prev: core::marker::PhantomData<Prev>,
}

/// The first dimension.
pub type Dim0 = Here;

/// The second dimension.
pub type Dim1 = There<Dim0>;

/// The third dimension.
pub type Dim2 = There<Dim1>;

/// The fourth dimension.
pub type Dim3 = There<Dim2>;

/// The fifth dimension.
pub type Dim4 = There<Dim3>;

/// Whether every trailing-size product of a dimension list fits in `usize`,
/// so that flat offsets over any suffix of the list can be computed.
pub open spec fn dims_fit(dims: Seq<nat>) -> bool {
    forall|i: int| 0 <= i <= dims.len() ==> #[trigger] seq_product(dims.skip(i)) <= usize::MAX
}

/// The empty dimension list.
#[derive(Debug, Clone, Copy, PartialEq, Eq, Hash)]
pub struct HNil;

/// A non-empty dimension list: a head dimension followed by the rest.
#[derive(Debug, Clone, Copy, PartialEq, Eq, Hash)]
pub struct HCons<Head, Tail> {
    /// The first (outermost, slowest-varying) dimension.
    pub head: Head,
    /// The remaining dimensions.
    pub tail: Tail,
}

/// An ordered list of index ranges, itself indexable in row-major order.
///
/// The model is the list of dimension sizes [`dims`](IndexHlist::dims); the
/// size of the list is the product of its dimensions
/// ([`lemma_size_product`](IndexHlist::lemma_size_product)), and the value at
/// a flat position is the list of the sub-indices' values, first dimension
/// slowest-varying.
pub trait IndexHlist: Sized {
    /// The tuple of values of the sub-indices.
    type Value;

    /// Well-formedness: each sub-index is well-formed and every trailing-size
    /// product fits in `usize`.
    spec fn wf(&self) -> bool;

    /// The sizes of the dimensions, in order.
    spec fn dims(&self) -> Seq<nat>;

    /// The number of value combinations.
    spec fn spec_size(&self) -> nat;

    /// The value combination at flat position `i`.
    spec fn value_at(&self, i: int) -> Self::Value;

    /// The flat position of a value combination.
    spec fn flat_of(&self, v: Self::Value) -> int;

    /// Whether all sub-indices have pairwise distinct values.
    spec fn uniq(&self) -> bool;

    /// Well-formedness of the sub-indices alone, without the size-fit
    /// conditions.
    spec fn parts_wf(&self) -> bool;

    /// `wf` says exactly: the sub-indices are well-formed and every
    /// trailing-size product of the dimension list fits in `usize`.
    proof fn lemma_wf_iff(&self)
        ensures
            self.wf() <==> (self.parts_wf() && dims_fit(self.dims())),
    ;

    /// The size is the product of the dimension sizes.
    proof fn lemma_size_product(&self)
        ensures
            self.spec_size() == seq_product(self.dims()),
            self.dims().len() >= 0,
    ;

    /// Round trip: flattening the value at position `i` gives back `i`.
    proof fn lemma_flatten_unflatten(&self, i: int)
        requires
            self.wf(),
            self.uniq(),
            0 <= i < self.spec_size(),
        ensures
            self.flat_of(self.value_at(i)) == i,
    ;

    /// Returns the total number of value combinations.
    fn size(&self) -> (n: usize)
        requires
            self.wf(),
        ensures
            n == self.spec_size(),
    ;

    /// Returns the value combination at the given flat position.
    fn unflatten_index_value(&self, index: usize) -> (v: Self::Value)
        requires
            self.wf(),
            index < self.spec_size(),
        ensures
            v == self.value_at(index as int),
    ;

    /// Returns all value combinations, in row-major order.
    fn iter(&self) -> (vs: Vec<Self::Value>)
        requires
            self.wf(),
        ensures
            vs.len() == self.spec_size(),
            forall|i: int| 0 <= i < vs.len() ==> vs[i] == self.value_at(i),
    ;

    /// Returns a copy of the list that models the same list of ranges.
    fn clone_list(&self) -> (r: Self)
        requires
            self.wf(),
        ensures
            r.wf(),
            r.uniq() == self.uniq(),
            r.dims() == self.dims(),
            r.spec_size() == self.spec_size(),
            forall|i: int| 0 <= i < self.spec_size() ==> r.value_at(i) == self.value_at(i),
            forall|v: Self::Value| r.flat_of(v) == self.flat_of(v),
    ;
}

impl IndexHlist for HNil {
    type Value = ();

    open spec fn wf(&self) -> bool {
        true
    }

    open spec fn dims(&self) -> Seq<nat> {
        Seq::empty()
    }

    open spec fn spec_size(&self) -> nat {
        1
    }

    open spec fn value_at(&self, i: int) -> () {
        ()
    }

    open spec fn flat_of(&self, v: ()) -> int {
        0
    }

    open spec fn uniq(&self) -> bool {
        true
    }

    open spec fn parts_wf(&self) -> bool {
        true
    }

    proof fn lemma_wf_iff(&self) {
        assert(seq_product(Seq::<nat>::empty().skip(0)) == 1) by {
            assert(Seq::<nat>::empty().skip(0) == Seq::<nat>::empty());
        }
        assert forall|i: int| 0 <= i <= self.dims().len() implies #[trigger] seq_product(
            self.dims().skip(i),
        ) <= usize::MAX by {
            assert(self.dims().skip(i) == Seq::<nat>::empty());
        }
    }

    proof fn lemma_size_product(&self) {
        assert(seq_product(Seq::<nat>::empty()) == 1);
    }

    proof fn lemma_flatten_unflatten(&self, i: int) {
    }

    fn size(&self) -> (n: usize) {
        1
    }

    fn unflatten_index_value(&self, index: usize) -> (v: ()) {
        ()
    }

    fn iter(&self) -> (vs: Vec<()>) {
        let mut vs: Vec<()> = Vec::new();
        vs.push(());
        vs
    }

    fn clone_list(&self) -> (r: Self) {
        HNil
    }
}

impl<Head: VariableRange, Tail: IndexHlist> IndexHlist for HCons<Head, Tail> {
    type Value = (Head::Value, Tail::Value);

    open spec fn wf(&self) -> bool {
        &&& self.head.wf()
        &&& self.tail.wf()
        &&& self.head.spec_size() * self.tail.spec_size() <= usize::MAX
    }

    open spec fn dims(&self) -> Seq<nat> {
        seq![self.head.spec_size()] + self.tail.dims()
    }

    open spec fn spec_size(&self) -> nat {
        self.head.spec_size() * self.tail.spec_size()
    }

    open spec fn value_at(&self, i: int) -> (Head::Value, Tail::Value) {
        (
            self.head.value_at(i / self.tail.spec_size() as int),
            self.tail.value_at(i % self.tail.spec_size() as int),
        )
    }

    open spec fn flat_of(&self, v: (Head::Value, Tail::Value)) -> int {
        self.head.flat_of(v.0) * self.tail.spec_size() + self.tail.flat_of(v.1)
    }

    open spec fn uniq(&self) -> bool {
        self.head.uniq() && self.tail.uniq()
    }

    open spec fn parts_wf(&self) -> bool {
        self.head.wf() && self.tail.parts_wf()
    }

    proof fn lemma_wf_iff(&self) {
        self.tail.lemma_wf_iff();
        self.lemma_size_product();
        let d = self.dims();
        let td = self.tail.dims();
        assert(d.skip(0) == d);
        assert forall|i: int| 1 <= i <= d.len() implies d.skip(i) == td.skip(i - 1) by {
            assert(d.skip(i) =~= td.skip(i - 1));
        }
        if self.wf() {
            assert(dims_fit(d)) by {
                assert(seq_product(d.skip(0)) <= usize::MAX);
                assert(forall|i: int|
                    1 <= i <= d.len() ==> #[trigger] seq_product(d.skip(i)) <= usize::MAX);
            }
        }
        if self.parts_wf() && dims_fit(d) {
            assert(dims_fit(td)) by {
                assert(forall|i: int|
                    0 <= i <= td.len() ==> #[trigger] seq_product(td.skip(i)) == seq_product(
                        d.skip(i + 1),
                    ));
            }
            assert(seq_product(d.skip(0)) <= usize::MAX);
        }
    }

    proof fn lemma_size_product(&self) {
        self.tail.lemma_size_product();
        let d = self.dims();
        assert(d.skip(1) == self.tail.dims());
        assert(seq_product(d) == d[0] * seq_product(d.skip(1))) by {
            assert(d.drop_first() == d.skip(1));
        }
    }

    proof fn lemma_flatten_unflatten(&self, i: int) {
        let ts = self.tail.spec_size() as int;
        let hs = self.head.spec_size() as int;
        assert(ts > 0 && hs > 0) by {
            if ts <= 0 || hs <= 0 {
                assert(hs * ts == 0) by (nonlinear_arith)
                    requires
                        hs >= 0,
                        ts >= 0,
                        ts <= 0 || hs <= 0,
                ;
            }
        }
        lemma_fundamental_div_mod(i, ts);
        lemma_mod_bound(i, ts);
        let q = i / ts;
        let r = i % ts;
        assert(q < hs) by (nonlinear_arith)
            requires
                i < hs * ts,
                i == ts * q + r,
                0 <= r < ts,
                0 < ts,
        ;
        assert(q >= 0) by {
            lemma_div_pos_is_pos(i, ts);
        }
        self.head.lemma_flatten_unflatten(q);
        self.tail.lemma_flatten_unflatten(r);
        assert(q * ts + r == i) by (nonlinear_arith)
            requires
                i == ts * q + r,
        ;
    }

    fn size(&self) -> (n: usize) {
        proof {
            lemma_mul_nonnegative(self.head.spec_size() as int, self.tail.spec_size() as int);
        }
        self.head.size() * self.tail.size()
    }

    fn unflatten_index_value(&self, index: usize) -> (v: (Head::Value, Tail::Value)) {
        let ts = self.tail.size();
        proof {
            let hs = self.head.spec_size() as int;
            let tsi = self.tail.spec_size() as int;
            assert(tsi > 0 && hs > 0) by (nonlinear_arith)
                requires
                    hs >= 0,
                    tsi >= 0,
                    index < hs * tsi,
            ;
            lemma_fundamental_div_mod(index as int, tsi);
            lemma_mod_bound(index as int, tsi);
            lemma_div_pos_is_pos(index as int, tsi);
            assert((index as int) / tsi < hs) by (nonlinear_arith)
                requires
                    (index as int) < hs * tsi,
                    index as int == tsi * ((index as int) / tsi) + (index as int) % tsi,
                    0 <= (index as int) % tsi < tsi,
                    0 < tsi,
            ;
        }
        let q = index / ts;
        let r = index % ts;
        (self.head.unflatten_index_value(q), self.tail.unflatten_index_value(r))
    }

    fn iter(&self) -> (vs: Vec<(Head::Value, Tail::Value)>) {
        let n = self.size();
        let mut vs: Vec<(Head::Value, Tail::Value)> = Vec::new();
        let mut i: usize = 0;
        while i < n
            invariant
                self.wf(),
                n == self.spec_size(),
                i <= n,
                vs.len() == i,
                forall|j: int| 0 <= j < i ==> vs[j] == self.value_at(j),
            decreases n - i,
        {
            vs.push(self.unflatten_index_value(i));
            i += 1;
        }
        vs
    }

    fn clone_list(&self) -> (r: Self) {
        let r = HCons { head: self.head.clone_range(), tail: self.tail.clone_list() };
        proof {
            assert(r.dims() == self.dims());
            let hs = self.head.spec_size() as int;
            let ts = self.tail.spec_size() as int;
            assert forall|i: int| 0 <= i < self.spec_size() implies r.value_at(i) == self.value_at(
                i,
            ) by {
                assert(ts > 0 && hs > 0) by (nonlinear_arith)
                    requires
                        hs >= 0,
                        ts >= 0,
                        i < hs * ts,
                        i >= 0,
                ;
                lemma_fundamental_div_mod(i, ts);
                lemma_mod_bound(i, ts);
                lemma_div_pos_is_pos(i, ts);
                assert(i / ts < hs) by (nonlinear_arith)
                    requires
                        i < hs * ts,
                        i == ts * (i / ts) + i % ts,
                        0 <= i % ts < ts,
                        0 < ts,
                ;
            }
        }
        r
    }
}

/// An index that combines a list of sub-indices into one compound,
/// multi-dimensional index with row-major flattening.
#[derive(Debug, Clone, PartialEq, Eq, Hash)]
pub struct CompoundIndex<Indices> {
    /// The list of sub-indices.
    pub indices: Indices,
}

impl<Indices> CompoundIndex<Indices> {
    /// Wrap a list of sub-indices as a compound index.
    pub fn new(indices: Indices) -> (r: Self)
        ensures
            r.indices == indices,
    {
        Self { indices }
    }
}

impl<A: VariableRange> CompoundIndex<HCons<A, HNil>> {
    /// Collapse a one-dimensional compound index back to its only sub-index.
    pub fn collapse_single(self) -> (r: A)
        ensures
            r == self.indices.head,
    {
        self.indices.head
    }
}

impl<Indices: IndexHlist> VariableRange for CompoundIndex<Indices> {
    type Value = Indices::Value;

    open spec fn wf(&self) -> bool {
        self.indices.wf()
    }

    open spec fn spec_size(&self) -> nat {
        self.indices.spec_size()
    }

    open spec fn value_at(&self, i: int) -> Indices::Value {
        self.indices.value_at(i)
    }

    open spec fn flat_of(&self, v: Indices::Value) -> int {
        self.indices.flat_of(v)
    }

    open spec fn uniq(&self) -> bool {
        self.indices.uniq()
    }

    proof fn lemma_flatten_unflatten(&self, i: int) {
        self.indices.lemma_flatten_unflatten(i);
    }

    fn size(&self) -> (n: usize) {
        self.indices.size()
    }

    fn unflatten_index_value(&self, index: usize) -> (v: Indices::Value) {
        self.indices.unflatten_index_value(index)
    }

    fn iter(&self) -> (vs: Vec<Indices::Value>) {
        self.indices.iter()
    }

    fn clone_range(&self) -> (r: Self) {
        CompoundIndex { indices: self.indices.clone_list() }
    }
}

/// A marker for index lists with extension methods.
pub trait HListExt: IndexHlist {

}

/// Converts a dimension list into the list of borrowed references to its
/// ranges, for read-only composition without cloning.
pub trait AsRefs<'a>: Sized {
    /// The list of references.
    type Refs;

    /// The list of references, as a value.
    spec fn spec_as_refs(&'a self) -> Self::Refs;

    /// Returns the list of references to this list's ranges.
    fn as_refs(&'a self) -> (r: Self::Refs)
        ensures
            r == self.spec_as_refs(),
    ;
}

impl<'a> AsRefs<'a> for HNil {
    type Refs = HNil;

    open spec fn spec_as_refs(&'a self) -> HNil {
        HNil
    }

    fn as_refs(&'a self) -> (r: HNil) {
        HNil
    }
}

impl<'a, Head: 'a, Tail: AsRefs<'a> + 'a> AsRefs<'a> for HCons<Head, Tail> {
    type Refs = HCons<&'a Head, Tail::Refs>;

    open spec fn spec_as_refs(&'a self) -> HCons<&'a Head, Tail::Refs> {
        HCons { head: &self.head, tail: self.tail.spec_as_refs() }
    }

    fn as_refs(&'a self) -> (r: HCons<&'a Head, Tail::Refs>) {
        HCons { head: &self.head, tail: self.tail.as_refs() }
    }
}

/// A list of borrowed index ranges, used to compute a combined size without
/// taking ownership of the ranges.
pub trait RefIndexHList: Sized + Copy {
    /// Well-formedness: each borrowed range is well-formed and the product
    /// of the sizes fits in `usize`.
    spec fn rwf(self) -> bool;

    /// The product of the borrowed ranges' sizes.
    spec fn ref_size(self) -> nat;

    /// Returns the product of the borrowed ranges' sizes.
    fn size(self) -> (n: usize)
        requires
            self.rwf(),
        ensures
            n == self.ref_size(),
    ;
}

impl RefIndexHList for HNil {
    open spec fn rwf(self) -> bool {
        true
    }

    open spec fn ref_size(self) -> nat {
        1
    }

    fn size(self) -> (n: usize) {
        1
    }
}

impl<'a, Head: VariableRange, Tail: RefIndexHList> RefIndexHList for HCons<&'a Head, Tail> {
    open spec fn rwf(self) -> bool {
        &&& self.head.wf()
        &&& self.tail.rwf()
        &&& self.head.spec_size() * self.tail.ref_size() <= usize::MAX
    }

    open spec fn ref_size(self) -> nat {
        self.head.spec_size() * self.tail.ref_size()
    }

    fn size(self) -> (n: usize) {
        proof {
            lemma_mul_nonnegative(self.head.spec_size() as int, self.tail.ref_size() as int);
        }
        self.head.size() * self.tail.size()
    }
}

/// Splits a dimension list at the position that the selector `At` names into
/// the dimensions strictly before it, the selected dimension, and the
/// dimensions strictly after it.
///
/// A selector that is out of range for the list is a compile-time type error:
/// no impl applies.
pub trait PluckSplitImpl<At>: IndexHlist {
    /// The dimensions strictly before the selected one.
    type Left: IndexHlist;

    /// The selected dimension.
    type Extract: VariableRange;

    /// The dimensions strictly after the selected one.
    type Right: IndexHlist;

    /// The left part, as a value.
    spec fn spec_left(&self) -> Self::Left;

    /// The selected dimension, as a value.
    spec fn spec_extract(&self) -> Self::Extract;

    /// The right part, as a value.
    spec fn spec_right(&self) -> Self::Right;

    /// The split partitions the dimension list: the dimension sizes
    /// concatenate back to the original ones, and the total size is the
    /// product of the three parts' sizes.
    proof fn lemma_pluck(&self)
        requires
            self.wf(),
        ensures
            self.spec_extract().wf(),
            self.spec_left().parts_wf(),
            self.spec_right().wf(),
            self.dims() == self.spec_left().dims() + seq![self.spec_extract().spec_size()]
                + self.spec_right().dims(),
            self.spec_size() == self.spec_left().spec_size() * self.spec_extract().spec_size()
                * self.spec_right().spec_size(),
            self.uniq() ==> self.spec_left().uniq() && self.spec_extract().uniq()
                && self.spec_right().uniq(),
    ;

    /// Splits the list into (left, selected, right).
    fn pluck_split_impl(self) -> (t: (Self::Left, Self::Extract, Self::Right))
        ensures
            t.0 == self.spec_left(),
            t.1 == self.spec_extract(),
            t.2 == self.spec_right(),
    ;

    /// Returns the size of the selected dimension.
    fn extract_size(&self) -> (n: usize)
        requires
            self.wf(),
        ensures
            n == self.spec_extract().spec_size(),
    ;

    /// Two lists with the same dimension sizes split into parts with the
    /// same dimension sizes.
    proof fn lemma_pluck_congruent(&self, other: &Self)
        requires
            self.dims() == other.dims(),
        ensures
            self.spec_extract().spec_size() == other.spec_extract().spec_size(),
            self.spec_left().dims() == other.spec_left().dims(),
            self.spec_right().dims() == other.spec_right().dims(),
    ;

    /// Two non-empty lists with the same dimension sizes and the same values
    /// position by position extract the same values at the selected
    /// dimension.
    proof fn lemma_pluck_value_congruent(&self, other: &Self)
        requires
            self.dims() == other.dims(),
            self.spec_size() > 0,
            forall|i: int| 0 <= i < self.spec_size() ==> self.value_at(i) == other.value_at(i),
        ensures
            forall|m: int|
                0 <= m < self.spec_extract().spec_size() ==> self.spec_extract().value_at(m)
                    == other.spec_extract().value_at(m),
    ;
}

impl<Head: VariableRange, Tail: IndexHlist> PluckSplitImpl<Here> for HCons<Head, Tail> {
    type Left = HNil;

    type Extract = Head;

    type Right = Tail;

    open spec fn spec_left(&self) -> HNil {
        HNil
    }

    open spec fn spec_extract(&self) -> Head {
        self.head
    }

    open spec fn spec_right(&self) -> Tail {
        self.tail
    }

    proof fn lemma_pluck(&self) {
        let hn: HNil = HNil;
        assert(self.dims() =~= hn.dims() + seq![self.head.spec_size()] + self.tail.dims());
        assert(self.spec_size() == 1 * self.head.spec_size() * self.tail.spec_size());
    }

    fn pluck_split_impl(self) -> (t: (HNil, Head, Tail)) {
        (HNil, self.head, self.tail)
    }

    fn extract_size(&self) -> (n: usize) {
        self.head.size()
    }

    proof fn lemma_pluck_congruent(&self, other: &Self) {
        assert(self.dims()[0] == self.head.spec_size());
        assert(other.dims()[0] == other.head.spec_size());
        assert(self.dims()[0] == other.dims()[0]);
        assert(self.dims().drop_first() == other.dims().drop_first());
        assert(self.tail.dims() =~= self.dims().drop_first());
        assert(other.tail.dims() =~= other.dims().drop_first());
    }

    proof fn lemma_pluck_value_congruent(&self, other: &Self) {
        self.tail.lemma_size_product();
        other.tail.lemma_size_product();
        assert(self.tail.dims() =~= self.dims().drop_first());
        assert(other.tail.dims() =~= other.dims().drop_first());
        let hs = self.head.spec_size() as int;
        let ts = self.tail.spec_size() as int;
        assert(ts >= 1 && hs >= 1) by (nonlinear_arith)
            requires
                hs * ts > 0,
                hs >= 0,
                ts >= 0,
        ;
        assert forall|m: int| 0 <= m < hs implies self.head.value_at(m) == other.head.value_at(
            m,
        ) by {
            let p = m * ts;
            assert(0 <= p && p < hs * ts) by (nonlinear_arith)
                requires
                    p == m * ts,
                    0 <= m < hs,
                    ts >= 1,
            ;
            vstd::arithmetic::div_mod::lemma_div_multiples_vanish(m, ts);
            assert(p / ts == m) by {
                assert(ts * m == m * ts) by (nonlinear_arith);
            }
            assert(self.value_at(p).0 == self.head.value_at(m));
            assert(other.value_at(p).0 == other.head.value_at(m));
        }
    }
}

impl<Head: VariableRange, Tail: PluckSplitImpl<Prev>, Prev> PluckSplitImpl<
    There<Prev>,
> for HCons<Head, Tail> {
    type Left = HCons<Head, Tail::Left>;

    type Extract = Tail::Extract;

    type Right = Tail::Right;

    open spec fn spec_left(&self) -> HCons<Head, Tail::Left> {
        HCons { head: self.head, tail: self.tail.spec_left() }
    }

    open spec fn spec_extract(&self) -> Tail::Extract {
        self.tail.spec_extract()
    }

    open spec fn spec_right(&self) -> Tail::Right {
        self.tail.spec_right()
    }

    proof fn lemma_pluck(&self) {
        <Tail as PluckSplitImpl<Prev>>::lemma_pluck(&self.tail);
        let left = <Self as PluckSplitImpl<There<Prev>>>::spec_left(self);
        let ex = <Self as PluckSplitImpl<There<Prev>>>::spec_extract(self);
        let right = <Self as PluckSplitImpl<There<Prev>>>::spec_right(self);
        let hs = self.head.spec_size() as int;
        let tl = <Tail as PluckSplitImpl<Prev>>::spec_left(&self.tail).spec_size() as int;
        let te = <Tail as PluckSplitImpl<Prev>>::spec_extract(&self.tail).spec_size() as int;
        let tr = <Tail as PluckSplitImpl<Prev>>::spec_right(&self.tail).spec_size() as int;
        assert(self.dims() =~= left.dims() + seq![ex.spec_size()] + right.dims());
        assert(hs * (tl * te * tr) == (hs * tl) * te * tr) by (nonlinear_arith);
    }

    fn pluck_split_impl(self) -> (t: (HCons<Head, Tail::Left>, Tail::Extract, Tail::Right)) {
        let (l, e, r) = self.tail.pluck_split_impl();
        (HCons { head: self.head, tail: l }, e, r)
    }

    fn extract_size(&self) -> (n: usize) {
        <Tail as PluckSplitImpl<Prev>>::extract_size(&self.tail)
    }

    proof fn lemma_pluck_congruent(&self, other: &Self) {
        assert(self.dims()[0] == self.head.spec_size());
        assert(other.dims()[0] == other.head.spec_size());
        assert(self.dims()[0] == other.dims()[0]);
        assert(self.dims().drop_first() == other.dims().drop_first());
        assert(self.tail.dims() =~= self.dims().drop_first());
        assert(other.tail.dims() =~= other.dims().drop_first());
        <Tail as PluckSplitImpl<Prev>>::lemma_pluck_congruent(&self.tail, &other.tail);
        let sl = <Self as PluckSplitImpl<There<Prev>>>::spec_left(self);
        let ol = <Self as PluckSplitImpl<There<Prev>>>::spec_left(other);
        assert(sl.dims() == seq![self.head.spec_size()] + <Tail as PluckSplitImpl<Prev>>::spec_left(
            &self.tail,
        ).dims());
        assert(ol.dims() == seq![other.head.spec_size()] + <Tail as PluckSplitImpl<
            Prev,
        >>::spec_left(&other.tail).dims());
        assert(sl.dims() =~= ol.dims());
    }

    proof fn lemma_pluck_value_congruent(&self, other: &Self) {
        self.lemma_size_product();
        self.tail.lemma_size_product();
        other.tail.lemma_size_product();
        assert(self.tail.dims() =~= self.dims().drop_first());
        assert(other.tail.dims() =~= other.dims().drop_first());
        let hs = self.head.spec_size() as int;
        let ts = self.tail.spec_size() as int;
        assert(other.tail.spec_size() == ts) by {
            lemma_seq_product_app(seq![self.head.spec_size()], self.tail.dims());
            lemma_seq_product_app(seq![other.head.spec_size()], other.tail.dims());
        }
        assert(ts >= 1 && hs >= 1) by (nonlinear_arith)
            requires
                hs * ts > 0,
                hs >= 0,
                ts >= 0,
        ;
        assert forall|j: int| 0 <= j < ts implies self.tail.value_at(j) == other.tail.value_at(
            j,
        ) by {
            assert(j < hs * ts) by (nonlinear_arith)
                requires
                    0 <= j < ts,
                    hs >= 1,
            ;
            vstd::arithmetic::div_mod::lemma_small_mod(j as nat, ts as nat);
            vstd::arithmetic::div_mod::lemma_basic_div(j, ts);
            assert(self.value_at(j).1 == self.tail.value_at(j));
            assert(other.value_at(j).1 == other.tail.value_at(j));
        }
        <Tail as PluckSplitImpl<Prev>>::lemma_pluck_value_congruent(&self.tail, &other.tail);
    }
}

/// Splitting sugar: `pluck_split` with the position given at the call.
pub trait PluckSplit: Sized {
    /// Splits the list at the position that `At` selects, as
    /// [`PluckSplitImpl::pluck_split_impl`] does.
    fn pluck_split<At>(self) -> (t: (
        <Self as PluckSplitImpl<At>>::Left,
        <Self as PluckSplitImpl<At>>::Extract,
        <Self as PluckSplitImpl<At>>::Right,
    )) where Self: PluckSplitImpl<At>
        ensures
            t.0 == self.spec_left(),
            t.1 == self.spec_extract(),
            t.2 == self.spec_right(),
    ;
}

impl<T> PluckSplit for T {
    fn pluck_split<At>(self) -> (t: (
        <Self as PluckSplitImpl<At>>::Left,
        <Self as PluckSplitImpl<At>>::Extract,
        <Self as PluckSplitImpl<At>>::Right,
    )) where Self: PluckSplitImpl<At> {
        self.pluck_split_impl()
    }
}

/// Concatenates two dimension lists into one, preserving order.
pub trait HListConcat<Other: IndexHlist>: IndexHlist {
    /// The concatenated list type.
    type Concat: IndexHlist;

    /// The concatenated list, as a value.
    spec fn spec_concat(self, other: Other) -> Self::Concat;

    /// The dimension sizes of the concatenation are the two lists' dimension
    /// sizes in order; its size is the product of the two sizes; and it is
    /// well-formed whenever both parts are and the combined trailing-size
    /// products fit in `usize`.
    proof fn lemma_concat(self, other: Other)
        ensures
            self.spec_concat(other).dims() == self.dims() + other.dims(),
            self.spec_concat(other).spec_size() == self.spec_size() * other.spec_size(),
            self.spec_concat(other).uniq() == (self.uniq() && other.uniq()),
            self.parts_wf() && other.parts_wf() && dims_fit(self.dims() + other.dims())
                ==> self.spec_concat(other).wf(),
    ;

    /// Concatenates the two lists.
    fn concat(self, other: Other) -> (r: Self::Concat)
        ensures
            r == self.spec_concat(other),
    ;
}

impl<Other: IndexHlist> HListConcat<Other> for HNil {
    type Concat = Other;

    open spec fn spec_concat(self, other: Other) -> Other {
        other
    }

    proof fn lemma_concat(self, other: Other) {
        assert(self.dims() + other.dims() == other.dims());
        other.lemma_wf_iff();
        let r = self.spec_concat(other);
        assert(r == other);
        assert(r.dims() == self.dims() + other.dims());
        assert(r.spec_size() == 1 * other.spec_size());
        assert(r.spec_size() == self.spec_size() * other.spec_size());
        assert(r.uniq() == (self.uniq() && other.uniq()));
    }

    fn concat(self, other: Other) -> (r: Other) {
        other
    }
}

impl<Head: VariableRange, Tail: HListConcat<Other>, Other: IndexHlist> HListConcat<
    Other,
> for HCons<Head, Tail> {
    type Concat = HCons<Head, Tail::Concat>;

    open spec fn spec_concat(self, other: Other) -> HCons<Head, Tail::Concat> {
        HCons { head: self.head, tail: self.tail.spec_concat(other) }
    }

    #[verifier::spinoff_prover]
    #[verifier::rlimit(50)]
    proof fn lemma_concat(self, other: Other) {
        self.tail.lemma_concat(other);
        let r = self.spec_concat(other);
        let hs = self.head.spec_size();
        let ts = self.tail.spec_size();
        let os = other.spec_size();
        assert(r.dims() =~= self.dims() + other.dims());
        assert(r.spec_size() == hs * self.tail.spec_concat(other).spec_size());
        assert(self.tail.spec_concat(other).spec_size() == ts * os);
        assert(hs * (ts * os) == (hs * ts) * os) by (nonlinear_arith);
        assert(self.spec_concat(other).spec_size() == self.spec_size() * other.spec_size());
        if self.parts_wf() && other.parts_wf() && dims_fit(self.dims() + other.dims()) {
            assert(dims_fit(self.tail.dims() + other.dims())) by {
                let c = self.dims() + other.dims();
                let tc = self.tail.dims() + other.dims();
                assert forall|i: int| 0 <= i <= tc.len() implies #[trigger] seq_product(
                    tc.skip(i),
                ) <= usize::MAX by {
                    assert(tc.skip(i) == c.skip(i + 1));
                    assert(seq_product(c.skip(i + 1)) <= usize::MAX);
                }
            }
            assert((self.dims() + other.dims()).skip(0) == self.dims() + other.dims());
            assert(seq_product(self.dims() + other.dims()) <= usize::MAX);
            assert(r.spec_size() == seq_product(self.dims() + other.dims())) by {
                r.lemma_size_product();
            }
        }
    }

    fn concat(self, other: Other) -> (r: HCons<Head, Tail::Concat>) {
        HCons { head: self.head, tail: self.tail.concat(other) }
    }
}

/// The type of the concatenation of two dimension lists.
pub type HLConcat<A, B> = <A as HListConcat<B>>::Concat;

/// After removing a dimension of size at least one from a well-formed list,
/// the trailing-size products of the remaining dimensions still fit in
/// `usize`.
pub proof fn lemma_remainder_fits<At, L: PluckSplitImpl<At>>(l: &L)
    requires
        l.wf(),
        l.spec_extract().spec_size() >= 1,
    ensures
        dims_fit(l.spec_left().dims() + l.spec_right().dims()),
{
    l.lemma_pluck();
    l.lemma_wf_iff();
    let ld = l.spec_left().dims();
    let rd = l.spec_right().dims();
    let m = l.spec_extract().spec_size();
    let full = l.dims();
    assert forall|i: int| 0 <= i <= (ld + rd).len() implies #[trigger] seq_product(
        (ld + rd).skip(i),
    ) <= usize::MAX by {
        if i <= ld.len() {
            assert((ld + rd).skip(i) =~= ld.skip(i) + rd);
            assert(full.skip(i) =~= ld.skip(i) + seq![m] + rd);
            assert(ld.skip(i) + seq![m] + rd =~= ld.skip(i) + (seq![m] + rd));
            lemma_seq_product_app(ld.skip(i), seq![m] + rd);
            lemma_seq_product_app(seq![m], rd);
            lemma_seq_product_app(ld.skip(i), rd);
            lemma_seq_product_singleton(m);
            let a = seq_product(ld.skip(i)) as int;
            let c = seq_product(rd) as int;
            assert(a * c <= a * (m * c)) by (nonlinear_arith)
                requires
                    a >= 0,
                    c >= 0,
                    m >= 1,
            ;
            assert(seq_product(full.skip(i)) <= usize::MAX);
        } else {
            assert((ld + rd).skip(i) =~= rd.skip(i - ld.len()));
            assert(full.skip(i + 1) =~= rd.skip(i - ld.len()));
            assert(seq_product(full.skip(i + 1)) <= usize::MAX);
        }
    }
}

/// Size multiplicativity: the size of a compound index is the product of the
/// sizes of its dimensions.
pub proof fn lemma_size_multiplicative<Indices: IndexHlist>(index: CompoundIndex<Indices>)
    ensures
        index.spec_size() == seq_product(index.indices.dims()),
{
    index.indices.lemma_size_product();
}

} // verus!
