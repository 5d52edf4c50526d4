//! The operation tags of the number types, and sums of several terms.

pub mod multi;
pub mod series;
pub mod sum;
