//! Projecting one dimension out of a compound index: the selected sub-index
//! is removed, and the remaining sub-indices keep their order.

use vstd::prelude::*;
use crate::mapped_index::compound_index::{
    CompoundIndex, HLConcat, HListConcat, IndexHlist, PluckSplitImpl,
};

verus! {

/// Removes the element that the type-level position `At` selects, returning
/// it together with what remains.
pub trait ProjectOut<At>: Sized {
    /// The removed element's type.
    type Removed;

    /// What remains after the removal.
    type Remaining;

    /// The removed element and the remainder, as values.
    spec fn spec_project_out(self) -> (Self::Removed, Self::Remaining);

    /// Splits into the removed element and the remainder.
    fn project_out(self) -> (r: (Self::Removed, Self::Remaining))
        ensures
            r == self.spec_project_out(),
    ;
}

impl<At, L> ProjectOut<At> for L where
    L: PluckSplitImpl<At>,
    <L as PluckSplitImpl<At>>::Left: HListConcat<<L as PluckSplitImpl<At>>::Right>,
 {
    type Removed = <L as PluckSplitImpl<At>>::Extract;

    type Remaining = HLConcat<<L as PluckSplitImpl<At>>::Left, <L as PluckSplitImpl<At>>::Right>;

    open spec fn spec_project_out(self) -> (Self::Removed, Self::Remaining) {
        (self.spec_extract(), self.spec_left().spec_concat(self.spec_right()))
    }

    fn project_out(self) -> (r: (Self::Removed, Self::Remaining)) {
        let (l, e, rest) = self.pluck_split_impl();
        (e, l.concat(rest))
    }
}

impl<Indices: IndexHlist> CompoundIndex<Indices> {
    /// Remove the sub-index that `At` selects, returning it together with
    /// the compound index over the remaining sub-indices.
    pub fn project_index<At>(self) -> (r: (
        <Indices as ProjectOut<At>>::Removed,
        CompoundIndex<<Indices as ProjectOut<At>>::Remaining>,
    )) where Indices: ProjectOut<At>
        ensures
            r.0 == self.indices.spec_project_out().0,
            r.1.indices == self.indices.spec_project_out().1,
    {
        let (removed, remaining) = self.indices.project_out();
        (removed, CompoundIndex::new(remaining))
    }
}

} // verus!
