//! TriProductIndexView: a zero-copy view over a three-dimensional logical
//! layout selecting a fixed middle position.

use vstd::arithmetic::div_mod::{lemma_div_pos_is_pos, lemma_fundamental_div_mod, lemma_mod_bound};
use vstd::prelude::*;
use crate::data_frame::frame_core::FrameData;

verus! {

/// The flat position that position `k` of a tri-product view with the given
/// shape denotes: `k` is split as `(l_i, r_i)` with `r_i` varying fastest,
/// and the middle coordinate is pinned to `m_i`.
pub open spec fn tri_flat(m_size: int, r_size: int, m_i: int, k: int) -> int {
    (k / r_size) * (m_size * r_size) + m_i * r_size + (k % r_size)
}

/// Every position of an `l_size` by `r_size` tri-product view denotes a flat
/// position within the full `l_size * m_size * r_size` cuboid.
pub proof fn lemma_tri_flat_bound(l_size: int, m_size: int, r_size: int, m_i: int, k: int)
    requires
        0 <= k < l_size * r_size,
        0 <= m_i < m_size,
        0 <= l_size,
        0 <= r_size,
    ensures
        0 <= tri_flat(m_size, r_size, m_i, k) < l_size * m_size * r_size,
{
    assert(r_size > 0 && l_size > 0) by (nonlinear_arith)
        requires
            0 <= k < l_size * r_size,
            0 <= l_size,
            0 <= r_size,
    ;
    lemma_fundamental_div_mod(k, r_size);
    lemma_mod_bound(k, r_size);
    lemma_div_pos_is_pos(k, r_size);
    let l_i = k / r_size;
    let r_i = k % r_size;
    assert(l_i < l_size) by (nonlinear_arith)
        requires
            k < l_size * r_size,
            k == r_size * l_i + r_i,
            0 <= r_i < r_size,
            0 < r_size,
    ;
    assert(0 <= l_i * (m_size * r_size) + m_i * r_size + r_i < l_size * m_size * r_size)
        by (nonlinear_arith)
        requires
            0 <= l_i < l_size,
            0 <= m_i < m_size,
            0 <= r_i < r_size,
    ;
}

/// A zero-copy view that reads data in the order of all `(l_i, r_i)`
/// combinations, `r_i` varying fastest, at the flat positions
/// `l_i * (m_size * r_size) + m_i * r_size + r_i`, for a fixed `m_i`.
#[derive(Debug, Clone, Copy)]
pub struct TriProductIndexView<'a, D> {
    /// The number of outer combinations.
    pub l_size: usize,
    /// The size of the pinned middle dimension.
    pub m_size: usize,
    /// The number of inner combinations.
    pub r_size: usize,
    /// The pinned middle position.
    pub m_i: usize,
    /// The backing collection.
    pub data: &'a D,
}

impl<'a, D: FrameData> TriProductIndexView<'a, D> {
    /// The view invariant: the middle position is in range, the sizes fit,
    /// and every denoted position is within the backing collection.
    pub open spec fn wf(&self) -> bool {
        &&& self.data.inv()
        &&& self.m_i < self.m_size
        &&& self.l_size * self.r_size <= usize::MAX
        &&& self.m_size * self.r_size <= usize::MAX
        &&& forall|k: int|
            0 <= k < self.l_size * self.r_size ==> 0 <= #[trigger] tri_flat(
                self.m_size as int,
                self.r_size as int,
                self.m_i as int,
                k,
            ) < self.data.fd_seq().len()
    }

    /// The elements the view denotes, in `(l_i, r_i)` order.
    pub open spec fn contents(&self) -> Seq<D::Elem> {
        Seq::new(
            (self.l_size * self.r_size) as nat,
            |k: int|
                self.data.fd_seq()[tri_flat(
                    self.m_size as int,
                    self.r_size as int,
                    self.m_i as int,
                    k,
                )],
        )
    }

    /// Construct a new view. The caller must show that the middle position is
    /// in range and that every denoted position is within bounds.
    pub fn new(l_size: usize, m_size: usize, r_size: usize, m_i: usize, data: &'a D) -> (r: Self)
        requires
            data.inv(),
            m_i < m_size,
            l_size * r_size <= usize::MAX,
            m_size * r_size <= usize::MAX,
            forall|k: int|
                0 <= k < l_size * r_size ==> 0 <= #[trigger] tri_flat(
                    m_size as int,
                    r_size as int,
                    m_i as int,
                    k,
                ) < data.fd_seq().len(),
        ensures
            r == (TriProductIndexView { l_size, m_size, r_size, m_i, data }),
            r.wf(),
    {
        Self { l_size, m_size, r_size, m_i, data }
    }

    /// Construct a new view if the sizes fit and the last denoted position is
    /// within the backing collection; return nothing otherwise.
    pub fn try_new(l_size: usize, m_size: usize, r_size: usize, m_i: usize, data: &'a D) -> (r:
        Option<Self>)
        requires
            data.inv(),
            m_i < m_size,
        ensures
            r is Some <==> (l_size * r_size <= usize::MAX && m_size * r_size <= usize::MAX && (
            l_size * r_size == 0 || tri_flat(
                m_size as int,
                r_size as int,
                m_i as int,
                l_size * r_size - 1,
            ) < data.fd_seq().len())),
            r matches Some(v) ==> v == (TriProductIndexView { l_size, m_size, r_size, m_i, data })
                && v.wf(),
    {
        let len_opt = l_size.checked_mul(r_size);
        let mr_opt = m_size.checked_mul(r_size);
        match (len_opt, mr_opt) {
            (Some(len), Some(mr)) => {
                if len == 0 {
                    let v = Self { l_size, m_size, r_size, m_i, data };
                    Some(v)
                } else {
                    let dlen = data.len();
                    proof {
                        assert(r_size > 0) by (nonlinear_arith)
                            requires
                                (len as int) == l_size * r_size,
                                len > 0,
                                l_size >= 0,
                                r_size >= 0,
                        ;
                    }
                    let l_i = (len - 1) / r_size;
                    let r_i = (len - 1) % r_size;
                    proof {
                        lemma_fundamental_div_mod(len - 1, r_size as int);
                        lemma_mod_bound(len - 1, r_size as int);
                        lemma_div_pos_is_pos(len - 1, r_size as int);
                        assert(l_i < l_size) by (nonlinear_arith)
                            requires
                                len - 1 < l_size * r_size,
                                len - 1 == r_size * (l_i as int) + r_i,
                                0 <= (r_i as int) < r_size,
                                0 < (r_size as int),
                        ;
                        assert((l_i as int) * (mr as int) + (m_i as int) * (r_size as int) + r_i
                            < l_size * (m_size * r_size)) by (nonlinear_arith)
                            requires
                                0 <= (l_i as int) < l_size,
                                0 <= (m_i as int) < m_size,
                                0 <= (r_i as int) < r_size,
                                mr == m_size * r_size,
                        ;
                        assert(l_size * (m_size * r_size) <= usize::MAX * usize::MAX)
                            by (nonlinear_arith)
                            requires
                                0 <= (l_size as int) <= usize::MAX,
                                0 <= m_size * r_size <= usize::MAX,
                        ;
                        assert((l_i as int) * (mr as int) <= usize::MAX * usize::MAX)
                            by (nonlinear_arith)
                            requires
                                0 <= (l_i as int) <= usize::MAX,
                                0 <= (mr as int) <= usize::MAX,
                        ;
                        assert((m_i as int) * (r_size as int) <= (mr as int)) by (nonlinear_arith)
                            requires
                                0 <= (m_i as int) < (m_size as int),
                                0 <= (r_size as int),
                                (mr as int) == (m_size as int) * (r_size as int),
                        ;
                        assert(usize::MAX * usize::MAX + 2 * (usize::MAX as int) <= u128::MAX)
                            by (nonlinear_arith)
                            requires
                                0 < (usize::MAX as int) <= u64::MAX,
                        ;
                    }
                    let flat: u128 = (l_i as u128) * (mr as u128) + (m_i as u128) * (r_size as u128)
                        + (r_i as u128);
                    if flat < dlen as u128 {
                        proof {
                            assert forall|k: int| 0 <= k < l_size * r_size implies 0 <= #[trigger]
                            tri_flat(m_size as int, r_size as int, m_i as int, k)
                                < data.fd_seq().len() by {
                                lemma_tri_flat_bound(
                                    l_size as int,
                                    m_size as int,
                                    r_size as int,
                                    m_i as int,
                                    k,
                                );
                                lemma_tri_flat_mono(
                                    m_size as int,
                                    r_size as int,
                                    m_i as int,
                                    k,
                                    len - 1,
                                );
                            }
                        }
                        let v = Self { l_size, m_size, r_size, m_i, data };
                        Some(v)
                    } else {
                        None
                    }
                }
            },
            _ => None,
        }
    }

    /// Returns the number of elements the view yields.
    pub fn len(&self) -> (n: usize)
        requires
            self.wf(),
        ensures
            n == self.l_size * self.r_size,
    {
        self.l_size * self.r_size
    }

    /// Returns a reference to the `k`-th element of the view, in `(l_i, r_i)`
    /// order with `r_i` varying fastest.
    pub fn at(&self, k: usize) -> (r: &'a D::Elem)
        requires
            self.wf(),
            k < self.l_size * self.r_size,
        ensures
            *r == self.contents()[k as int],
    {
        let dlen = self.data.len();
        proof {
            assert(self.r_size > 0) by (nonlinear_arith)
                requires
                    (k as int) < self.l_size * self.r_size,
                    k >= 0,
            ;
            lemma_fundamental_div_mod(k as int, self.r_size as int);
            lemma_mod_bound(k as int, self.r_size as int);
            lemma_div_pos_is_pos(k as int, self.r_size as int);
            let l_i = (k as int) / (self.r_size as int);
            let r_i = (k as int) % (self.r_size as int);
            assert(0 <= l_i * ((self.m_size * self.r_size) as int) && 0 <= (self.m_i as int) * (
            self.r_size as int)) by (nonlinear_arith)
                requires
                    l_i >= 0,
                    (self.m_size as int) * (self.r_size as int) >= 0,
                    self.m_i >= 0,
                    self.r_size >= 0,
                    (self.m_size * self.r_size) as int == (self.m_size as int) * (
                    self.r_size as int),
            ;
            assert(0 <= tri_flat(self.m_size as int, self.r_size as int, self.m_i as int, k as int)
                < self.data.fd_seq().len());
        }
        let l_i = k / self.r_size;
        let r_i = k % self.r_size;
        let mr = self.m_size * self.r_size;
        self.data.at(l_i * mr + self.m_i * self.r_size + r_i)
    }
}

/// The positions a tri-product view denotes grow with `k`.
proof fn lemma_tri_flat_mono(m_size: int, r_size: int, m_i: int, k: int, k2: int)
    requires
        0 <= k <= k2,
        0 < r_size,
        1 <= m_size,
        0 <= m_i,
    ensures
        tri_flat(m_size, r_size, m_i, k) <= tri_flat(m_size, r_size, m_i, k2),
{
    lemma_fundamental_div_mod(k, r_size);
    lemma_mod_bound(k, r_size);
    lemma_fundamental_div_mod(k2, r_size);
    lemma_mod_bound(k2, r_size);
    vstd::arithmetic::div_mod::lemma_div_is_ordered(k, k2, r_size);
    let q = k / r_size;
    let q2 = k2 / r_size;
    let r = k % r_size;
    let r2 = k2 % r_size;
    if q == q2 {
        assert(r <= r2);
    } else {
        assert(q < q2);
        assert(m_size * r_size >= r_size) by (nonlinear_arith)
            requires
                m_size >= 1,
                r_size > 0,
        ;
        assert(q * (m_size * r_size) + r < q2 * (m_size * r_size) + r2) by (nonlinear_arith)
            requires
                q < q2,
                0 <= r < r_size,
                0 <= r2,
                m_size * r_size >= r_size,
                r_size > 0,
        ;
    }
}

impl<'a, D: FrameData> FrameData for TriProductIndexView<'a, D> {
    type Elem = D::Elem;

    open spec fn inv(&self) -> bool {
        self.wf()
    }

    open spec fn fd_seq(&self) -> Seq<D::Elem> {
        self.contents()
    }

    fn len(&self) -> (n: usize) {
        self.len()
    }

    fn at(&self, i: usize) -> (r: &D::Elem) {
        self.at(i)
    }
}

} // verus!
