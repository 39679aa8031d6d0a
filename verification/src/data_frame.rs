//! The DataFrame: one index paired with a flat backing data collection, with
//! dimension-aware access, reduction and stacking built on top.

pub mod aggregate;
pub mod frame_core;
pub mod projection;
pub mod stack;
pub mod strided_index_view;
pub mod util;
