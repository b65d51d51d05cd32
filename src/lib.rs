//! A coverage-agnostic fuzzing input generator: pseudo-random number
//! generators, a test-case buffer with typed consumers, a context-free grammar
//! generator and a library of byte-level mutation operators.

pub mod engine;
pub mod error;
pub mod generators;
pub mod grammar;
pub mod harness;
pub mod magic;
pub mod mutators;
pub mod ni;
pub mod prng;
pub mod seed;
pub mod shishua;
pub mod stats;
pub mod test_case;
pub mod utils;
