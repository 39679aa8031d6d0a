//! StridedIndexView: a zero-copy view for strided access into indexable data.

use vstd::arithmetic::mul::{lemma_mul_inequality, lemma_mul_is_commutative};
use vstd::prelude::*;
use crate::data_frame::frame_core::FrameData;

verus! {

/// A zero-copy view yielding references to elements of a backing collection
/// in a strided pattern from a base position.
///
/// It denotes the positions `base, base + stride, ...,
/// base + stride * (n_strides - 1)`; the invariant
/// ([`wf`](StridedIndexView::wf)), established at construction, is that the
/// last of them is within bounds.
#[derive(Debug, Clone, Copy)]
pub struct StridedIndexView<'a, D> {
    /// The next position the view will yield.
    pub base: usize,
    /// The distance between two yielded positions.
    pub stride: usize,
    /// How many positions remain.
    pub n_strides: usize,
    /// The backing collection.
    pub view_into: &'a D,
}

impl<'a, D: FrameData> StridedIndexView<'a, D> {
    /// The view invariant: all denoted positions are within the backing
    /// collection.
    pub open spec fn wf(&self) -> bool {
        &&& self.view_into.inv()
        &&& self.n_strides > 0 ==> self.base + self.stride * (self.n_strides - 1)
            < self.view_into.fd_seq().len()
    }

    /// The elements the view denotes, in order.
    pub open spec fn contents(&self) -> Seq<D::Elem> {
        Seq::new(
            self.n_strides as nat,
            |j: int| self.view_into.fd_seq()[self.base + j * self.stride],
        )
    }

    /// Creates a new StridedIndexView over `view_into` with the given base
    /// position, stride, and count. The caller must show that the last
    /// denoted position is within bounds.
    pub fn new(base: usize, stride: usize, n_strides: usize, view_into: &'a D) -> (r: Self)
        requires
            view_into.inv(),
            n_strides > 0 ==> base + stride * (n_strides - 1) < view_into.fd_seq().len(),
        ensures
            r.base == base,
            r.stride == stride,
            r.n_strides == n_strides,
            r.view_into == view_into,
            r.wf(),
    {
        Self { base, stride, n_strides, view_into }
    }

    /// Creates a new view if every denoted position is within bounds, and
    /// returns nothing if the last denoted position would escape the backing
    /// collection.
    pub fn try_new(base: usize, stride: usize, n_strides: usize, view_into: &'a D) -> (r: Option<
        Self,
    >)
        requires
            view_into.inv(),
        ensures
            r is Some <==> (n_strides == 0 || base + stride * (n_strides - 1)
                < view_into.fd_seq().len()),
            r matches Some(v) ==> v == (StridedIndexView { base, stride, n_strides, view_into }),
    {
        if n_strides == 0 {
            Some(Self { base, stride, n_strides, view_into })
        } else {
            proof {
                let st = stride as int;
                let m = (n_strides - 1) as int;
                assert(st * m <= (u64::MAX as int) * (u64::MAX as int)) by (nonlinear_arith)
                    requires
                        0 <= st <= u64::MAX as int,
                        0 <= m <= u64::MAX as int,
                ;
            }
            let last: u128 = (base as u128) + (stride as u128) * ((n_strides - 1) as u128);
            if last < view_into.len() as u128 {
                Some(Self { base, stride, n_strides, view_into })
            } else {
                None
            }
        }
    }

    /// Returns the number of elements the view yields.
    pub fn len(&self) -> (n: usize)
        ensures
            n == self.n_strides,
    {
        self.n_strides
    }

    /// Returns a reference to the `k`-th element of the view.
    pub fn at(&self, k: usize) -> (r: &'a D::Elem)
        requires
            self.wf(),
            k < self.n_strides,
        ensures
            *r == self.contents()[k as int],
    {
        let n = self.view_into.len();
        proof {
            lemma_mul_inequality(k as int, self.n_strides - 1, self.stride as int);
            lemma_mul_is_commutative(k as int, self.stride as int);
            lemma_mul_is_commutative(self.n_strides - 1, self.stride as int);
        }
        self.view_into.at(self.base + k * self.stride)
    }

    /// Yields the next element of the view, advancing it; yields nothing
    /// once the view is exhausted.
    pub fn next(&mut self) -> (r: Option<&'a D::Elem>)
        requires
            old(self).wf(),
        ensures
            final(self).wf(),
            old(self).n_strides == 0 ==> r is None && *final(self) == *old(self),
            old(self).n_strides > 0 ==> {
                &&& (r matches Some(e) && *e == old(self).contents()[0])
                &&& final(self).contents() == old(self).contents().skip(1)
            },
    {
        if self.n_strides == 0 {
            None
        } else {
            let len = self.view_into.len();
            let item = self.view_into.at(self.base);
            self.n_strides = self.n_strides - 1;
            if self.n_strides > 0 {
                proof {
                    let st = self.stride as int;
                    let m = self.n_strides as int;
                    lemma_mul_inequality(1, m, st);
                    lemma_mul_is_commutative(m, st);
                    assert(st * m == st + st * (m - 1)) by (nonlinear_arith);
                }
                self.base = self.base + self.stride;
            }
            proof {
                let oldc = old(self).contents();
                let newc = self.contents();
                let st = old(self).stride as int;
                assert forall|j: int| 0 <= j < newc.len() implies newc[j] == oldc.skip(1)[j] by {
                    if old(self).n_strides > 1 {
                        assert((self.base + j * self.stride) as int == old(self).base + (j + 1)
                            * st) by {
                            assert((j + 1) * st == j * st + st) by (nonlinear_arith);
                        }
                    }
                }
                assert(newc =~= oldc.skip(1));
            }
            Some(item)
        }
    }

    /// Copies the elements the view denotes into a vector, in order.
    pub fn to_vec(&self) -> (r: Vec<D::Elem>) where D::Elem: Copy
        requires
            self.wf(),
        ensures
            r@ == self.contents(),
    {
        let mut r: Vec<D::Elem> = Vec::new();
        let mut k: usize = 0;
        while k < self.n_strides
            invariant
                self.wf(),
                k <= self.n_strides,
                r@.len() == k,
                forall|j: int| 0 <= j < k ==> r@[j] == self.contents()[j],
            decreases self.n_strides - k,
        {
            r.push(*self.at(k));
            k += 1;
        }
        assert(r@ =~= self.contents());
        r
    }
}

} // verus!
