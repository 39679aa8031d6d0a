//! Trait for converting a tuple into the tuple of references to its
//! elements.

use vstd::prelude::*;

verus! {

/// Trait for converting a tuple to a tuple of references.
pub trait TupleAsRefs<'a>: Sized {
    /// The tuple of references.
    type AsTupleOfRefs;

    /// The tuple of references, as a value.
    spec fn spec_as_refs(&'a self) -> Self::AsTupleOfRefs;

    /// Returns the tuple of references to this tuple's elements.
    fn as_tuple_of_refs(&'a self) -> (r: Self::AsTupleOfRefs)
        ensures
            r == self.spec_as_refs(),
    ;
}

impl<'a, A: 'a> TupleAsRefs<'a> for (A,) {
    type AsTupleOfRefs = (&'a A,);

    open spec fn spec_as_refs(&'a self) -> (&'a A,) {
        (&self.0,)
    }

    fn as_tuple_of_refs(&'a self) -> (r: (&'a A,)) {
        (&self.0,)
    }
}

impl<'a, A: 'a, B: 'a> TupleAsRefs<'a> for (A, B) {
    type AsTupleOfRefs = (&'a A, &'a B);

    open spec fn spec_as_refs(&'a self) -> (&'a A, &'a B) {
        (&self.0, &self.1)
    }

    fn as_tuple_of_refs(&'a self) -> (r: (&'a A, &'a B)) {
        (&self.0, &self.1)
    }
}

impl<'a, A: 'a, B: 'a, C: 'a> TupleAsRefs<'a> for (A, B, C) {
    type AsTupleOfRefs = (&'a A, &'a B, &'a C);

    open spec fn spec_as_refs(&'a self) -> (&'a A, &'a B, &'a C) {
        (&self.0, &self.1, &self.2)
    }

    fn as_tuple_of_refs(&'a self) -> (r: (&'a A, &'a B, &'a C)) {
        (&self.0, &self.1, &self.2)
    }
}

impl<'a, A: 'a, B: 'a, C: 'a, D: 'a> TupleAsRefs<'a> for (A, B, C, D) {
    type AsTupleOfRefs = (&'a A, &'a B, &'a C, &'a D);

    open spec fn spec_as_refs(&'a self) -> (&'a A, &'a B, &'a C, &'a D) {
        (&self.0, &self.1, &self.2, &self.3)
    }

    fn as_tuple_of_refs(&'a self) -> (r: (&'a A, &'a B, &'a C, &'a D)) {
        (&self.0, &self.1, &self.2, &self.3)
    }
}

} // verus!
