//! Counters for primitive integer types.

pub mod exact;
pub mod fast;
