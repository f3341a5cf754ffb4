//! A lazy flattening sequence adapter.
//!
//! The crate composes a pull-based producer of outer items with a transform
//! that maps each outer item to a nested sequence, and exposes the result as
//! a single pull-based producer over all nested items in order. Nothing is
//! materialized ahead of demand: each outer item is transformed only when its
//! items are first needed.

pub mod producer;
pub mod transform;
pub mod flatten;
