//! Brute-force synthesis of small Boolean circuits built from 2-input NAND
//! gates: generate a random feed-forward gate network of fixed size, evaluate
//! it on every input combination, and keep the first network that reproduces a
//! given target truth table.

pub mod bits;
pub mod circuit;
pub mod gate;
pub mod targets;

pub use bits::as_bool_vec;
pub use circuit::Stack;
pub use gate::Nand;
pub use targets::{mux_test_function, xor_test_function};
