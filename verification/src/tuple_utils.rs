//! Tuple utilities for type-level and value-level manipulation of tuples:
//! splitting at either end, prepending and appending, conversion to tuples
//! of references, extraction by a type-level position, and concatenation.

pub mod aliases;
pub mod as_refs;
pub mod concat;
pub mod extract;
pub mod first_last;
pub mod prepend_append;
pub mod tuple_core;
