//! Filters: what stands behind a `|` in an output.

pub mod standard;
