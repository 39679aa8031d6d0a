//! Core DataFrame struct and basic methods.

use vstd::prelude::*;
use crate::mapped_index::{MappedIndex, VariableRange};
use crate::mapped_index::compound_index::{CompoundIndex, HCons, HNil, IndexHlist};

verus! {

/// A flat, read-only backing collection addressable by position.
///
/// The model of a collection is the sequence of its elements,
/// [`fd_seq`](FrameData::fd_seq), guarded by an invariant
/// ([`inv`](FrameData::inv)) that bounds-checked views establish at
/// construction.
pub trait FrameData: Sized {
    /// The element type.
    type Elem;

    /// The invariant under which the collection can be read.
    spec fn inv(&self) -> bool;

    /// The elements, in position order.
    spec fn fd_seq(&self) -> Seq<Self::Elem>;

    /// Returns the number of elements.
    fn len(&self) -> (n: usize)
        requires
            self.inv(),
        ensures
            n == self.fd_seq().len(),
    ;

    /// Returns a reference to the element at position `i`.
    fn at(&self, i: usize) -> (r: &Self::Elem)
        requires
            self.inv(),
            i < self.fd_seq().len(),
        ensures
            *r == self.fd_seq()[i as int],
    ;
}

impl<T> FrameData for Vec<T> {
    type Elem = T;

    open spec fn inv(&self) -> bool {
        true
    }

    open spec fn fd_seq(&self) -> Seq<T> {
        self@
    }

    fn len(&self) -> (n: usize) {
        self.len()
    }

    fn at(&self, i: usize) -> (r: &T) {
        &self[i]
    }
}

/// A generic DataFrame type associating an index with a data collection.
///
/// Invariant ([`wf`](DataFrame::wf)): the index size equals the data length.
#[derive(Debug, Clone, PartialEq, Eq, Hash)]
pub struct DataFrame<I, D> where I: VariableRange, D: FrameData {
    /// The index structure (categorical, numeric, compound, etc.).
    pub index: I,
    /// The data collection, addressable by flat position.
    pub data: D,
}

impl<I, D> DataFrame<I, D> where I: VariableRange, D: FrameData {
    /// The DataFrame invariant: a well-formed index whose size equals the
    /// data length, over a readable collection.
    pub open spec fn wf(&self) -> bool {
        &&& self.index.wf()
        &&& self.data.inv()
        &&& self.index.spec_size() == self.data.fd_seq().len()
    }

    /// Construct a DataFrame from an index and a data collection whose length
    /// equals the index size.
    pub fn new(index: I, data: D) -> (r: Self)
        requires
            index.wf(),
            data.inv(),
            index.spec_size() == data.fd_seq().len(),
        ensures
            r.index == index,
            r.data == data,
            r.wf(),
    {
        Self { index, data }
    }

    /// Returns a reference to the index.
    pub fn index(&self) -> (r: &I)
        ensures
            r == &self.index,
    {
        &self.index
    }

    /// Returns a reference to the data.
    pub fn data(&self) -> (r: &D)
        ensures
            r == &self.data,
    {
        &self.data
    }

    /// Returns a mutable reference to the data.
    pub fn data_mut(&mut self) -> (r: &mut D)
        ensures
            old(self).index == final(self).index,
    {
        &mut self.data
    }

    /// Returns a reference to the data at the given flat position.
    pub fn data_at(&self, index: usize) -> (r: &D::Elem)
        requires
            self.wf(),
            index < self.data.fd_seq().len(),
        ensures
            *r == self.data.fd_seq()[index as int],
    {
        self.data.at(index)
    }

    /// Returns a reference to the data at the given flat position.
    pub fn get_flat(&self, flat_index: usize) -> (r: &D::Elem)
        requires
            self.wf(),
            flat_index < self.data.fd_seq().len(),
        ensures
            *r == self.data.fd_seq()[flat_index as int],
    {
        self.data.at(flat_index)
    }

    /// Returns a reference to the data for a given index value.
    pub fn get(&self, value: I::Value) -> (r: &D::Elem) where I: MappedIndex
        requires
            self.wf(),
            0 <= self.index.flat_of(value) < self.index.spec_size(),
            self.index.value_at(self.index.flat_of(value)) == value,
        ensures
            *r == self.data.fd_seq()[self.index.flat_of(value)],
    {
        self.data.at(self.index.flatten_index_value(value))
    }

    /// Returns the number of rows in the DataFrame.
    pub fn n_rows(&self) -> (n: usize)
        requires
            self.wf(),
        ensures
            n == self.data.fd_seq().len(),
    {
        self.data.len()
    }

    /// Iterate over `(index value, data value)` pairs, in flat-position order.
    pub fn iter(&self) -> (pairs: Vec<(I::Value, D::Elem)>) where D::Elem: Copy
        requires
            self.wf(),
        ensures
            pairs.len() == self.index.spec_size(),
            forall|i: int|
                0 <= i < pairs.len() ==> pairs[i] == (
                    self.index.value_at(i),
                    self.data.fd_seq()[i],
                ),
    {
        let values = self.index.iter();
        let mut pairs: Vec<(I::Value, D::Elem)> = Vec::new();
        let n = self.data.len();
        let mut i: usize = 0;
        while i < n
            invariant
                self.wf(),
                n == self.data.fd_seq().len(),
                values.len() == n,
                forall|j: int| 0 <= j < n ==> values[j] == self.index.value_at(j),
                i <= n,
                pairs.len() == i,
                forall|j: int|
                    0 <= j < i ==> pairs[j] == (self.index.value_at(j), self.data.fd_seq()[j]),
            decreases n - i,
        {
            let v = self.index.unflatten_index_value(i);
            pairs.push((v, *self.data.at(i)));
            i += 1;
        }
        pairs
    }
}

impl<I, T> DataFrame<I, Vec<T>> where I: VariableRange {
    /// Map each element of the DataFrame's data to a new value, keeping the
    /// same index.
    pub fn map<U, F: Fn(&T) -> U>(&self, f: F) -> (r: DataFrame<I, Vec<U>>)
        requires
            self.wf(),
            forall|i: int| 0 <= i < self.data@.len() ==> call_requires(f, (&self.data@[i],)),
        ensures
            r.wf(),
            r.index.spec_size() == self.index.spec_size(),
            forall|i: int| 0 <= i < self.index.spec_size() ==> r.index.value_at(i)
                == self.index.value_at(i),
            r.data@.len() == self.data@.len(),
            forall|i: int|
                0 <= i < self.data@.len() ==> call_ensures(
                    f,
                    (&self.data@[i],),
                    #[trigger] r.data@[i],
                ),
    {
        let mut data: Vec<U> = Vec::new();
        let n = self.data.len();
        let mut i: usize = 0;
        while i < n
            invariant
                self.wf(),
                n == self.data@.len(),
                forall|j: int| 0 <= j < n ==> call_requires(f, (&self.data@[j],)),
                i <= n,
                data.len() == i,
                forall|j: int|
                    0 <= j < i ==> call_ensures(f, (&self.data@[j],), #[trigger] data@[j]),
            decreases n - i,
        {
            data.push(f(&self.data[i]));
            i += 1;
        }
        DataFrame::new(self.index.clone_range(), data)
    }

    /// Build a DataFrame by mapping each index value to a data value.
    pub fn build_from_index<F: Fn(I::Value) -> T>(index: I, f: F) -> (r: DataFrame<I, Vec<T>>)
        requires
            index.wf(),
            forall|i: int| 0 <= i < index.spec_size() ==> call_requires(f, (index.value_at(i),)),
        ensures
            r.wf(),
            r.index == index,
            r.data@.len() == index.spec_size(),
            forall|i: int|
                0 <= i < index.spec_size() ==> call_ensures(
                    f,
                    (index.value_at(i),),
                    #[trigger] r.data@[i],
                ),
    {
        let n = index.size();
        let mut data: Vec<T> = Vec::new();
        let mut i: usize = 0;
        while i < n
            invariant
                index.wf(),
                n == index.spec_size(),
                forall|j: int| 0 <= j < n ==> call_requires(f, (index.value_at(j),)),
                i <= n,
                data.len() == i,
                forall|j: int|
                    0 <= j < i ==> call_ensures(f, (index.value_at(j),), #[trigger] data@[j]),
            decreases n - i,
        {
            let v = index.unflatten_index_value(i);
            data.push(f(v));
            i += 1;
        }
        DataFrame::new(index, data)
    }
}

impl<I, D> DataFrame<CompoundIndex<HCons<I, HNil>>, D> where I: VariableRange, D: FrameData {
    /// Collapse a DataFrame over a one-dimensional compound index to a
    /// DataFrame over the bare sub-index.
    pub fn collapse_single_index(self) -> (r: DataFrame<I, D>)
        requires
            self.wf(),
        ensures
            r.wf(),
            r.index == self.index.indices.head,
            r.data == self.data,
    {
        proof {
            assert(self.index.indices.head.spec_size() * 1 == self.index.indices.head.spec_size());
        }
        DataFrame::new(self.index.indices.head, self.data)
    }
}

} // verus!
