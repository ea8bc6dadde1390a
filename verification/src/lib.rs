//! A fixed-capacity map whose lookups are linear searches over its entries.
pub mod entries;
pub mod linear_map;
pub mod iter;
pub mod laws;
