//! The value types that come with the library: the integers, and matrices
//! over any value type that is itself provided for.

pub mod finite_matrix;
pub mod helpers;
pub mod integer_matrix;
pub mod integers;
pub mod matrix;
