//! The capability hierarchy: atomic capabilities, their named conjunctions,
//! and the ring-like pairing of an additive with a multiplicative operation.

pub mod basics;
pub mod group_like;
pub mod ring_like;
