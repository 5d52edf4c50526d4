//! Algebraic structures as composable capabilities, a generic matrix value
//! type built on them, and fast exponentiation with a logarithmic Fibonacci
//! computation as its showcase.
//!
//! Every value type that takes part in the algebra denotes a mathematical
//! value, its model, and every contract of the algebra speaks of models.
//! Machine integers denote mathematical integers, so the laws hold without
//! exception, while an operation asks that its result can be represented.

pub mod structures;
pub mod implementations;
pub mod matrix;
pub mod power;
pub mod fibonacci;
