//! Helpers for views and reductions.

pub mod mean;
pub mod tri_product_index_view;
