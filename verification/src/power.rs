//! Fast exponentiation.

pub mod signed;
pub mod unsigned;
