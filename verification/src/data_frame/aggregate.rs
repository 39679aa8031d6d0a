//! Aggregation and per-slice iteration for DataFrame over one dimension of a
//! compound index.

use vstd::arithmetic::mul::{lemma_mul_inequality, lemma_mul_is_commutative};
use vstd::prelude::*;
use crate::data_frame::frame_core::{DataFrame, FrameData};
use crate::data_frame::util::mean::Mean;
use crate::data_frame::strided_index_view::StridedIndexView;
use crate::data_frame::util::tri_product_index_view::{lemma_tri_flat_bound, tri_flat, TriProductIndexView};
use crate::mapped_index::VariableRange;
use crate::mapped_index::compound_index::{
    dims_fit, lemma_remainder_fits, CompoundIndex, HLConcat, HListConcat, IndexHlist,
    PluckSplitImpl,
};
use crate::{lemma_seq_product_app, lemma_seq_product_singleton, seq_product};

verus! {

/// The strided view that an aggregation over one dimension hands to its
/// reduction function for the outer position `l_i` and inner position `r_i`:
/// it starts at flat position `l_i * (m_size * r_size) + r_i`, strides by
/// `r_size`, and has `m_size` elements.
pub open spec fn agg_view<'a, T>(
    data: &'a Vec<T>,
    m_size: int,
    r_size: int,
    l_i: int,
    r_i: int,
) -> StridedIndexView<'a, Vec<T>> {
    StridedIndexView {
        base: (l_i * (m_size * r_size) + r_i) as usize,
        stride: r_size as usize,
        n_strides: m_size as usize,
        view_into: data,
    }
}

/// After a well-formed dimension list is split, the product of the middle
/// and right sizes fits in `usize`.
proof fn lemma_mid_right_fits<At, Indices: PluckSplitImpl<At>>(indices: &Indices)
    requires
        indices.wf(),
    ensures
        indices.spec_extract().spec_size() * indices.spec_right().spec_size() <= usize::MAX,
{
    indices.lemma_pluck();
    indices.lemma_wf_iff();
    let ld = indices.spec_left().dims();
    let m = indices.spec_extract().spec_size();
    let rd = indices.spec_right().dims();
    let full = indices.dims();
    assert(full.skip(ld.len() as int) =~= seq![m] + rd);
    lemma_seq_product_app(seq![m], rd);
    lemma_seq_product_singleton(m);
    indices.spec_right().lemma_size_product();
    assert(seq_product(full.skip(ld.len() as int)) <= usize::MAX);
}

impl<Indices, T> DataFrame<CompoundIndex<Indices>, Vec<T>> where Indices: IndexHlist {
    /// Aggregate over the dimension selected by `At`: for every combination
    /// of the remaining dimensions (inner positions varying fastest), the
    /// reduction function `f` is applied to the strided view of the selected
    /// dimension's elements, and the results form the data of a new
    /// DataFrame indexed by the remaining dimensions.
    pub fn aggregate_over_dim<At, F, R>(self, f: F) -> (out: DataFrame<
        CompoundIndex<HLConcat<<Indices as PluckSplitImpl<At>>::Left, <Indices as PluckSplitImpl<
            At,
        >>::Right>>,
        Vec<R>,
    >) where
        Indices: PluckSplitImpl<At>,
        <Indices as PluckSplitImpl<At>>::Left: HListConcat<<Indices as PluckSplitImpl<At>>::Right>,
        F: for<'any> Fn(StridedIndexView<'any, Vec<T>>) -> R,

        requires
            self.wf(),
            self.index.indices.spec_left().wf(),
            dims_fit(self.index.indices.spec_left().dims() + self.index.indices.spec_right().dims()),
            forall|l_i: int, r_i: int|
                0 <= l_i < self.index.indices.spec_left().spec_size() && 0 <= r_i
                    < self.index.indices.spec_right().spec_size() && (#[trigger] agg_view(
                    &self.data,
                    self.index.indices.spec_extract().spec_size() as int,
                    self.index.indices.spec_right().spec_size() as int,
                    l_i,
                    r_i,
                )).wf() ==> call_requires(
                    f,
                    (agg_view(
                        &self.data,
                        self.index.indices.spec_extract().spec_size() as int,
                        self.index.indices.spec_right().spec_size() as int,
                        l_i,
                        r_i,
                    ),),
                ),
        ensures
            out.wf(),
            out.index.indices == self.index.indices.spec_left().spec_concat(
                self.index.indices.spec_right(),
            ),
            out.data@.len() == self.index.indices.spec_left().spec_size()
                * self.index.indices.spec_right().spec_size(),
            forall|l_i: int, r_i: int|
                0 <= l_i < self.index.indices.spec_left().spec_size() && 0 <= r_i
                    < self.index.indices.spec_right().spec_size() ==> call_ensures(
                    f,
                    (agg_view(
                        &self.data,
                        self.index.indices.spec_extract().spec_size() as int,
                        self.index.indices.spec_right().spec_size() as int,
                        l_i,
                        r_i,
                    ),),
                    #[trigger] out.data@[l_i * self.index.indices.spec_right().spec_size() + r_i],
                ),
    {
        proof {
            self.index.indices.lemma_pluck();
            lemma_mid_right_fits::<At, Indices>(&self.index.indices);
        }
        let ghost gindices = self.index.indices;
        let ghost sl = gindices.spec_left().spec_size();
        let ghost sm = gindices.spec_extract().spec_size();
        let ghost sr = gindices.spec_right().spec_size();
        let DataFrame { index, data } = self;
        let CompoundIndex { indices } = index;
        let (l, m, r) = indices.pluck_split_impl();
        let l_size = l.size();
        let m_size = m.size();
        let r_size = r.size();
        let mr = m_size * r_size;
        let data_len = data.len();
        proof {
            assert((sl * sm) * sr == sl * (sm * sr)) by (nonlinear_arith);
        }
        let mut agg: Vec<R> = Vec::new();
        let mut l_i: usize = 0;
        while l_i < l_size
            invariant
                gindices.wf(),
                l.wf(),
                r.wf(),
                l == gindices.spec_left(),
                r == gindices.spec_right(),
                sl == l.spec_size(),
                sm == m.spec_size(),
                sr == r.spec_size(),
                l_size == sl,
                m_size == sm,
                r_size == sr,
                mr == sm * sr,
                data == self.data,
                data_len == data@.len(),
                data@.len() == sl * (sm * sr),
                forall|li: int, ri: int|
                    0 <= li < sl && 0 <= ri < sr && (#[trigger] agg_view(
                        &data,
                        sm as int,
                        sr as int,
                        li,
                        ri,
                    )).wf() ==> call_requires(f, (agg_view(&data, sm as int, sr as int, li, ri),)),
                l_i <= l_size,
                agg@.len() == l_i * sr,
                forall|li: int, ri: int|
                    0 <= li < l_i && 0 <= ri < sr ==> call_ensures(
                        f,
                        (agg_view(&data, sm as int, sr as int, li, ri),),
                        #[trigger] agg@[li * (sr as int) + ri],
                    ),
            decreases l_size - l_i,
        {
            let mut r_i: usize = 0;
            proof {
                lemma_mul_inequality(l_i + 1, sl as int, sr as int);
                lemma_mul_is_commutative(l_i + 1, sr as int);
                lemma_mul_is_commutative(sl as int, sr as int);
            }
            while r_i < r_size
                invariant
                    gindices.wf(),
                    l_i < l_size,
                    sl == l_size,
                    sm == m_size,
                    sr == r_size,
                    mr == sm * sr,
                    data == self.data,
                    data_len == data@.len(),
                    data@.len() == sl * (sm * sr),
                    forall|li: int, ri: int|
                        0 <= li < sl && 0 <= ri < sr && (#[trigger] agg_view(
                            &data,
                            sm as int,
                            sr as int,
                            li,
                            ri,
                        )).wf() ==> call_requires(
                            f,
                            (agg_view(&data, sm as int, sr as int, li, ri),),
                        ),
                    r_i <= r_size,
                    agg@.len() == l_i * sr + r_i,
                    forall|li: int, ri: int|
                        (0 <= li < l_i && 0 <= ri < sr) || (li == l_i && 0 <= ri < r_i)
                            ==> call_ensures(
                            f,
                            (agg_view(&data, sm as int, sr as int, li, ri),),
                            #[trigger] agg@[li * (sr as int) + ri],
                        ),
                decreases r_size - r_i,
            {
                proof {
                    let li = l_i as int;
                    let ri = r_i as int;
                    let smi = sm as int;
                    let sri = sr as int;
                    if smi == 0 {
                        assert(smi * sri == 0 && li * (smi * sri) + ri == ri) by (nonlinear_arith)
                            requires
                                smi == 0,
                        ;
                    } else {
                        assert(li * (smi * sri) + ri + sri * (smi - 1) < sl * (smi * sri) && li
                            * (smi * sri) + ri + sri * (smi - 1) >= 0 && li * (smi * sri) + ri < sl
                            * (smi * sri)) by (nonlinear_arith)
                            requires
                                0 <= li < sl,
                                0 <= ri < sri,
                                smi >= 1,
                                sri >= 1,
                        ;
                    }
                }
                let base = l_i * mr + r_i;
                let view = StridedIndexView::new(base, r_size, m_size, &data);
                proof {
                    assert(view == agg_view(&data, sm as int, sr as int, l_i as int, r_i as int));
                }
                let out_val = f(view);
                let ghost old_agg = agg@;
                agg.push(out_val);
                r_i += 1;
                proof {
                    assert(agg@.len() == (l_i as int) * (sr as int) + r_i);
                    assert forall|li: int, ri: int|
                        (0 <= li < l_i && 0 <= ri < sr) || (li == l_i && 0 <= ri < r_i)
                            implies call_ensures(
                        f,
                        (agg_view(&data, sm as int, sr as int, li, ri),),
                        #[trigger] agg@[li * (sr as int) + ri],
                    ) by {
                        let idx = li * (sr as int) + ri;
                        if li == l_i && ri == r_i - 1 {
                            assert(idx == old_agg.len());
                            assert(agg@[idx] == out_val);
                        } else {
                            assert(0 <= idx < old_agg.len()) by (nonlinear_arith)
                                requires
                                    idx == li * (sr as int) + ri,
                                    (0 <= li < l_i && 0 <= ri < sr) || (li == l_i && 0 <= ri < r_i
                                        - 1),
                                    old_agg.len() == (l_i as int) * (sr as int) + r_i - 1,
                                    1 <= r_i <= sr,
                            ;
                            assert(agg@[idx] == old_agg[idx]);
                        }
                    }
                }
            }
            l_i += 1;
            proof {
                assert((l_i as int) * (sr as int) == (l_i - 1) * (sr as int) + sr)
                    by (nonlinear_arith);
            }
        }
        proof {
            l.lemma_wf_iff();
            r.lemma_wf_iff();
            l.lemma_concat(r);
            gindices.lemma_wf_iff();
            let cat = l.spec_concat(r);
            cat.lemma_size_product();
            lemma_seq_product_app(l.dims(), r.dims());
            l.lemma_size_product();
            r.lemma_size_product();
            assert(cat.wf());
            assert(l_size * r_size == agg@.len());
        }
        let new_indices = l.concat(r);
        DataFrame::new(CompoundIndex::new(new_indices), agg)
    }

    /// Compute the mean over the dimension selected by `At`; nothing if that
    /// dimension is empty, so that a malformed reduction request fails
    /// deterministically instead of being averaged over nothing.
    pub fn mean_over_dim<At>(self) -> (out: Option<
        DataFrame<
            CompoundIndex<HLConcat<<Indices as PluckSplitImpl<At>>::Left, <Indices as PluckSplitImpl<
                At,
            >>::Right>>,
            Vec<T>,
        >,
    >) where
        Indices: PluckSplitImpl<At>,
        <Indices as PluckSplitImpl<At>>::Left: HListConcat<<Indices as PluckSplitImpl<At>>::Right>,
        T: Mean + Copy,

        requires
            self.wf(),
            self.index.indices.spec_left().wf(),
        ensures
            out is Some <==> self.index.indices.spec_extract().spec_size() > 0,
            out matches Some(df) ==> {
                &&& df.wf()
                &&& df.index.indices == self.index.indices.spec_left().spec_concat(
                    self.index.indices.spec_right(),
                )
                &&& df.data@.len() == self.index.indices.spec_left().spec_size()
                    * self.index.indices.spec_right().spec_size()
                &&& forall|l_i: int, r_i: int|
                    0 <= l_i < self.index.indices.spec_left().spec_size() && 0 <= r_i
                        < self.index.indices.spec_right().spec_size() ==> #[trigger] df.data@[l_i
                        * self.index.indices.spec_right().spec_size() + r_i] == T::mean_spec(
                        agg_view(
                            &self.data,
                            self.index.indices.spec_extract().spec_size() as int,
                            self.index.indices.spec_right().spec_size() as int,
                            l_i,
                            r_i,
                        ).contents(),
                    )
            },
    {
        let m_size = self.index.indices.extract_size();
        if m_size == 0 {
            None
        } else {
            proof {
                lemma_remainder_fits::<At, Indices>(&self.index.indices);
            }
            let out = self.aggregate_over_dim::<At, _, T>(mean_view::<T>);
            Some(out)
        }
    }
}

/// Yields, for each position along one extracted dimension, that position's
/// value in the extracted sub-index together with a zero-copy DataFrame over
/// the remaining dimensions.
pub struct IterOverDim<'a, Data, Plucked, Remainder> {
    /// The next position along the extracted dimension.
    pub at_index: usize,
    /// The product of the dimensions before the extracted one.
    pub l_size: usize,
    /// The product of the dimensions after the extracted one.
    pub r_size: usize,
    /// The backing data of the DataFrame being iterated.
    pub data: &'a Data,
    /// The extracted sub-index.
    pub plucked_index: Plucked,
    /// The index over the remaining dimensions.
    pub remainder_index: Remainder,
}

impl<'a, Data, Plucked, Remainder> IterOverDim<'a, Data, Plucked, Remainder> where
    Data: FrameData,
    Plucked: VariableRange,
    Remainder: IndexHlist,
 {
    /// The iterator invariant: the shape matches the backing data.
    pub open spec fn wf(&self) -> bool {
        &&& self.data.inv()
        &&& self.plucked_index.wf()
        &&& self.remainder_index.wf()
        &&& self.remainder_index.spec_size() == self.l_size * self.r_size
        &&& self.plucked_index.spec_size() * self.r_size <= usize::MAX
        &&& self.data.fd_seq().len() == self.l_size * (self.plucked_index.spec_size()
            * self.r_size)
    }

    /// Yields the next `(extracted value, slice)` pair: the slice is a
    /// DataFrame over the remaining dimensions whose data is the tri-product
    /// view pinning the extracted dimension to the yielded position.
    pub fn next(&mut self) -> (r: Option<
        (Plucked::Value, DataFrame<CompoundIndex<Remainder>, TriProductIndexView<'a, Data>>),
    >)
        requires
            old(self).wf(),
        ensures
            final(self).wf(),
            final(self).l_size == old(self).l_size,
            final(self).r_size == old(self).r_size,
            final(self).data == old(self).data,
            final(self).plucked_index == old(self).plucked_index,
            final(self).remainder_index == old(self).remainder_index,
            old(self).at_index >= old(self).plucked_index.spec_size() ==> r is None && *final(self)
                == *old(self),
            old(self).at_index < old(self).plucked_index.spec_size() ==> {
                &&& final(self).at_index == old(self).at_index + 1
                &&& r matches Some(p) && p.0 == old(self).plucked_index.value_at(
                    old(self).at_index as int,
                ) && p.1.wf() && p.1.data == (TriProductIndexView {
                    l_size: old(self).l_size,
                    m_size: old(self).plucked_index.spec_size() as usize,
                    r_size: old(self).r_size,
                    m_i: old(self).at_index,
                    data: old(self).data,
                }) && p.1.index.indices.dims() == old(self).remainder_index.dims()
            },
    {
        let m_size = self.plucked_index.size();
        if self.at_index >= m_size {
            None
        } else {
            let m_i = self.at_index;
            self.at_index = m_i + 1;
            proof {
                let li = self.l_size as int;
                let mi = m_size as int;
                let ri = self.r_size as int;
                assert(li * ri <= li * (mi * ri) && li * ri >= 0) by (nonlinear_arith)
                    requires
                        li >= 0,
                        ri >= 0,
                        mi >= 1,
                ;
                self.remainder_index.lemma_wf_iff();
                self.remainder_index.lemma_size_product();
                assert(self.remainder_index.dims().skip(0) == self.remainder_index.dims());
                assert(seq_product(self.remainder_index.dims().skip(0)) <= usize::MAX);
                assert forall|k: int| 0 <= k < li * ri implies 0 <= #[trigger] tri_flat(
                    mi,
                    ri,
                    m_i as int,
                    k,
                ) < self.data.fd_seq().len() by {
                    lemma_tri_flat_bound(li, mi, ri, m_i as int, k);
                    assert(li * mi * ri == li * (mi * ri)) by (nonlinear_arith);
                }
            }
            let view = TriProductIndexView::new(self.l_size, m_size, self.r_size, m_i, self.data);
            let value = self.plucked_index.unflatten_index_value(m_i);
            let index = CompoundIndex::new(self.remainder_index.clone_list());
            Some((value, DataFrame::new(index, view)))
        }
    }
}

impl<Indices, T> DataFrame<CompoundIndex<Indices>, Vec<T>> where Indices: IndexHlist {
    /// Iterate over the dimension selected by `At`: each step yields one
    /// value of that dimension together with a zero-copy DataFrame over the
    /// remaining dimensions, whose data is the tri-product view of the
    /// backing data at that value.
    pub fn iter_over_dim<'a, At>(&'a self) -> (it: IterOverDim<
        'a,
        Vec<T>,
        <Indices as PluckSplitImpl<At>>::Extract,
        HLConcat<<Indices as PluckSplitImpl<At>>::Left, <Indices as PluckSplitImpl<At>>::Right>,
    >) where
        Indices: PluckSplitImpl<At>,
        <Indices as PluckSplitImpl<At>>::Left: HListConcat<<Indices as PluckSplitImpl<At>>::Right>,

        requires
            self.wf(),
            self.index.indices.spec_left().wf(),
            dims_fit(self.index.indices.spec_left().dims() + self.index.indices.spec_right().dims()),
        ensures
            it.wf(),
            it.at_index == 0,
            it.data == &self.data,
            it.l_size == self.index.indices.spec_left().spec_size(),
            it.r_size == self.index.indices.spec_right().spec_size(),
            it.plucked_index.spec_size() == self.index.indices.spec_extract().spec_size(),
            self.index.indices.spec_size() > 0 ==> forall|m: int|
                0 <= m < self.index.indices.spec_extract().spec_size()
                    ==> #[trigger] it.plucked_index.value_at(m)
                    == self.index.indices.spec_extract().value_at(m),
            it.remainder_index.dims() == self.index.indices.spec_left().dims()
                + self.index.indices.spec_right().dims(),
    {
        proof {
            self.index.indices.lemma_pluck();
            lemma_mid_right_fits::<At, Indices>(&self.index.indices);
        }
        let cl = self.index.indices.clone_list();
        proof {
            cl.lemma_pluck();
            cl.lemma_pluck_congruent(&self.index.indices);
            if self.index.indices.spec_size() > 0 {
                cl.lemma_pluck_value_congruent(&self.index.indices);
            }
            cl.spec_left().lemma_size_product();
            self.index.indices.spec_left().lemma_size_product();
            cl.spec_right().lemma_size_product();
            self.index.indices.spec_right().lemma_size_product();
            cl.spec_left().lemma_wf_iff();
            self.index.indices.spec_left().lemma_wf_iff();
            cl.spec_right().lemma_wf_iff();
        }
        let (l, m, r) = cl.pluck_split_impl();
        let l_size = l.size();
        let r_size = r.size();
        let remainder = l.concat(r);
        proof {
            l.lemma_concat(r);
            remainder.lemma_size_product();
            lemma_seq_product_app(l.dims(), r.dims());
            let gi = self.index.indices;
            assert((l_size as int) * (r_size as int) == remainder.spec_size());
            assert(gi.spec_size() == gi.spec_left().spec_size() * gi.spec_extract().spec_size()
                * gi.spec_right().spec_size());
            assert((l_size as int) * ((m.spec_size() * (r_size as nat)) as int) == gi.spec_size())
                by (nonlinear_arith)
                requires
                    l_size == gi.spec_left().spec_size(),
                    r_size == gi.spec_right().spec_size(),
                    m.spec_size() == gi.spec_extract().spec_size(),
                    gi.spec_size() == gi.spec_left().spec_size() * gi.spec_extract().spec_size()
                        * gi.spec_right().spec_size(),
            ;
        }
        IterOverDim {
            at_index: 0,
            l_size,
            r_size,
            data: &self.data,
            plucked_index: m,
            remainder_index: remainder,
        }
    }
}

/// Whether `out` is a value that the reduction `f` can return for a slice
/// whose elements are `contents`.
pub open spec fn reduced_from<T, R, F: Fn(Vec<T>) -> R>(f: F, contents: Seq<T>, out: R) -> bool {
    exists|v: Vec<T>| v@ == contents && call_ensures(f, (v,), out)
}

impl<Indices, T: Copy> DataFrame<CompoundIndex<Indices>, Vec<T>> where Indices: IndexHlist {
    /// Aggregate over the dimension selected by `At` without consuming the
    /// DataFrame: for every combination of the remaining dimensions (inner
    /// positions varying fastest), the selected dimension's elements are
    /// collected and handed to the reduction function `f`, and the results
    /// form the data of a new DataFrame indexed by the remaining dimensions.
    pub fn aggregate_over_dim_nd<At, F, R>(&self, f: F) -> (out: DataFrame<
        CompoundIndex<HLConcat<<Indices as PluckSplitImpl<At>>::Left, <Indices as PluckSplitImpl<
            At,
        >>::Right>>,
        Vec<R>,
    >) where
        Indices: PluckSplitImpl<At>,
        <Indices as PluckSplitImpl<At>>::Left: HListConcat<<Indices as PluckSplitImpl<At>>::Right>,
        F: Fn(Vec<T>) -> R,

        requires
            self.wf(),
            self.index.indices.spec_left().wf(),
            dims_fit(self.index.indices.spec_left().dims() + self.index.indices.spec_right().dims()),
            forall|v: Vec<T>, l_i: int, r_i: int|
                #![trigger call_requires(f, (v,)), agg_view(&self.data, self.index.indices.spec_extract().spec_size() as int, self.index.indices.spec_right().spec_size() as int, l_i, r_i)]
                0 <= l_i < self.index.indices.spec_left().spec_size() && 0 <= r_i
                    < self.index.indices.spec_right().spec_size() && v@ == agg_view(
                    &self.data,
                    self.index.indices.spec_extract().spec_size() as int,
                    self.index.indices.spec_right().spec_size() as int,
                    l_i,
                    r_i,
                ).contents() ==> call_requires(f, (v,)),
        ensures
            out.wf(),
            out.index.indices.dims() == self.index.indices.spec_left().dims()
                + self.index.indices.spec_right().dims(),
            out.data@.len() == self.index.indices.spec_left().spec_size()
                * self.index.indices.spec_right().spec_size(),
            forall|l_i: int, r_i: int|
                0 <= l_i < self.index.indices.spec_left().spec_size() && 0 <= r_i
                    < self.index.indices.spec_right().spec_size() ==> reduced_from(
                    f,
                    agg_view(
                        &self.data,
                        self.index.indices.spec_extract().spec_size() as int,
                        self.index.indices.spec_right().spec_size() as int,
                        l_i,
                        r_i,
                    ).contents(),
                    #[trigger] out.data@[l_i * self.index.indices.spec_right().spec_size() + r_i],
                ),
    {
        proof {
            self.index.indices.lemma_pluck();
            lemma_mid_right_fits::<At, Indices>(&self.index.indices);
        }
        let ghost gindices = self.index.indices;
        let ghost sl = gindices.spec_left().spec_size();
        let ghost sm = gindices.spec_extract().spec_size();
        let ghost sr = gindices.spec_right().spec_size();
        let cl = self.index.indices.clone_list();
        proof {
            cl.lemma_pluck();
            cl.lemma_pluck_congruent(&self.index.indices);
            cl.spec_left().lemma_size_product();
            gindices.spec_left().lemma_size_product();
            cl.spec_right().lemma_size_product();
            gindices.spec_right().lemma_size_product();
            cl.spec_left().lemma_wf_iff();
            gindices.spec_left().lemma_wf_iff();
            cl.spec_right().lemma_wf_iff();
        }
        let (l, m, r) = cl.pluck_split_impl();
        let l_size = l.size();
        let m_size = m.size();
        let r_size = r.size();
        let mr = m_size * r_size;
        let data_len = self.data.len();
        proof {
            assert((sl * sm) * sr == sl * (sm * sr)) by (nonlinear_arith);
        }
        let mut agg: Vec<R> = Vec::new();
        let mut l_i: usize = 0;
        while l_i < l_size
            invariant
                self.wf(),
                gindices == self.index.indices,
                gindices.wf(),
                l_size == sl,
                m_size == sm,
                r_size == sr,
                mr == sm * sr,
                data_len == self.data@.len(),
                self.data@.len() == sl * (sm * sr),
                forall|v: Vec<T>, li: int, ri: int|
                    #![trigger call_requires(f, (v,)), agg_view(&self.data, sm as int, sr as int, li, ri)]
                    0 <= li < sl && 0 <= ri < sr && v@ == agg_view(
                        &self.data,
                        sm as int,
                        sr as int,
                        li,
                        ri,
                    ).contents() ==> call_requires(f, (v,)),
                l_i <= l_size,
                agg@.len() == l_i * sr,
                forall|li: int, ri: int|
                    0 <= li < l_i && 0 <= ri < sr ==> reduced_from(
                        f,
                        agg_view(&self.data, sm as int, sr as int, li, ri).contents(),
                        #[trigger] agg@[li * (sr as int) + ri],
                    ),
            decreases l_size - l_i,
        {
            let mut r_i: usize = 0;
            proof {
                lemma_mul_inequality(l_i + 1, sl as int, sr as int);
                lemma_mul_is_commutative(l_i + 1, sr as int);
                lemma_mul_is_commutative(sl as int, sr as int);
            }
            while r_i < r_size
                invariant
                    self.wf(),
                    gindices == self.index.indices,
                    gindices.wf(),
                    l_i < l_size,
                    sl == l_size,
                    sm == m_size,
                    sr == r_size,
                    mr == sm * sr,
                    data_len == self.data@.len(),
                    self.data@.len() == sl * (sm * sr),
                    forall|v: Vec<T>, li: int, ri: int|
                        #![trigger call_requires(f, (v,)), agg_view(&self.data, sm as int, sr as int, li, ri)]
                        0 <= li < sl && 0 <= ri < sr && v@ == agg_view(
                            &self.data,
                            sm as int,
                            sr as int,
                            li,
                            ri,
                        ).contents() ==> call_requires(f, (v,)),
                    r_i <= r_size,
                    agg@.len() == l_i * sr + r_i,
                    forall|li: int, ri: int|
                        (0 <= li < l_i && 0 <= ri < sr) || (li == l_i && 0 <= ri < r_i)
                            ==> reduced_from(
                            f,
                            agg_view(&self.data, sm as int, sr as int, li, ri).contents(),
                            #[trigger] agg@[li * (sr as int) + ri],
                        ),
                decreases r_size - r_i,
            {
                proof {
                    let li = l_i as int;
                    let ri = r_i as int;
                    let smi = sm as int;
                    let sri = sr as int;
                    if smi == 0 {
                        assert(smi * sri == 0 && li * (smi * sri) + ri == ri) by (nonlinear_arith)
                            requires
                                smi == 0,
                        ;
                    } else {
                        assert(li * (smi * sri) + ri + sri * (smi - 1) < sl * (smi * sri) && li
                            * (smi * sri) + ri + sri * (smi - 1) >= 0 && li * (smi * sri) + ri < sl
                            * (smi * sri)) by (nonlinear_arith)
                            requires
                                0 <= li < sl,
                                0 <= ri < sri,
                                smi >= 1,
                                sri >= 1,
                        ;
                    }
                }
                let base = l_i * mr + r_i;
                let view = StridedIndexView::new(base, r_size, m_size, &self.data);
                proof {
                    assert(view == agg_view(
                        &self.data,
                        sm as int,
                        sr as int,
                        l_i as int,
                        r_i as int,
                    ));
                }
                let group = view.to_vec();
                let ghost ggroup = group;
                let out_val = f(group);
                let ghost old_agg = agg@;
                agg.push(out_val);
                r_i += 1;
                proof {
                    assert(agg@.len() == (l_i as int) * (sr as int) + r_i);
                    assert forall|li: int, ri: int|
                        (0 <= li < l_i && 0 <= ri < sr) || (li == l_i && 0 <= ri < r_i)
                            implies reduced_from(
                        f,
                        agg_view(&self.data, sm as int, sr as int, li, ri).contents(),
                        #[trigger] agg@[li * (sr as int) + ri],
                    ) by {
                        let idx = li * (sr as int) + ri;
                        if li == l_i && ri == r_i - 1 {
                            assert(idx == old_agg.len());
                            assert(agg@[idx] == out_val);
                            assert(ggroup@ == agg_view(
                                &self.data,
                                sm as int,
                                sr as int,
                                li,
                                ri,
                            ).contents() && call_ensures(f, (ggroup,), agg@[idx]));
                        } else {
                            assert(0 <= idx < old_agg.len()) by (nonlinear_arith)
                                requires
                                    idx == li * (sr as int) + ri,
                                    (0 <= li < l_i && 0 <= ri < sr) || (li == l_i && 0 <= ri < r_i
                                        - 1),
                                    old_agg.len() == (l_i as int) * (sr as int) + r_i - 1,
                                    1 <= r_i <= sr,
                            ;
                            assert(agg@[idx] == old_agg[idx]);
                            assert(reduced_from(
                                f,
                                agg_view(&self.data, sm as int, sr as int, li, ri).contents(),
                                old_agg[idx],
                            ));
                        }
                    }
                }
            }
            l_i += 1;
            proof {
                assert((l_i as int) * (sr as int) == (l_i - 1) * (sr as int) + sr)
                    by (nonlinear_arith);
            }
        }
        let new_indices = l.concat(r);
        proof {
            l.lemma_wf_iff();
            r.lemma_wf_iff();
            l.lemma_concat(r);
            let cat = l.spec_concat(r);
            cat.lemma_size_product();
            lemma_seq_product_app(l.dims(), r.dims());
            assert(cat.wf());
            assert(l_size * r_size == agg@.len());
        }
        DataFrame::new(CompoundIndex::new(new_indices), agg)
    }
}

/// The reduction that [`DataFrame::mean_over_dim`] applies to each slice:
/// the mean of the slice's elements.
fn mean_view<T: Mean + Copy>(view: StridedIndexView<'_, Vec<T>>) -> (r: T)
    requires
        view.wf(),
        view.n_strides > 0,
    ensures
        r == T::mean_spec(view.contents()),
{
    let v = view.to_vec();
    match T::mean_from_iter(&v) {
        Some(x) => x,
        None => vstd::pervasive::unreached(),
    }
}

/// Dimension removal: splitting a well-formed dimension list at the position
/// that `At` selects and joining the two remaining parts leaves exactly the
/// other dimensions, in their original order, one dimension fewer than
/// before.
pub proof fn lemma_dimension_removal<At, Indices>(indices: Indices) where
    Indices: PluckSplitImpl<At>,
    <Indices as PluckSplitImpl<At>>::Left: HListConcat<<Indices as PluckSplitImpl<At>>::Right>,

    requires
        indices.wf(),
    ensures
        indices.spec_left().spec_concat(indices.spec_right()).dims()
            == indices.spec_left().dims() + indices.spec_right().dims(),
        indices.spec_left().spec_concat(indices.spec_right()).dims().len() + 1
            == indices.dims().len(),
        indices.dims() == indices.spec_left().dims() + seq![indices.spec_extract().spec_size()]
            + indices.spec_right().dims(),
{
    indices.lemma_pluck();
    indices.spec_left().lemma_concat(indices.spec_right());
}

} // verus!
