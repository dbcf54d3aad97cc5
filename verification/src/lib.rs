//! Correctness-proving arithmetization of the variable-length Keccak-256
//! sponge, together with the benchmark-harness data it feeds.
//!
//! The heart of the crate is the pair of components in [`sponge`], [`trace`]
//! and [`air`]: a trace generator that turns a byte message into a dense
//! matrix of field elements plus the digest limbs, and a constraint evaluator
//! that accepts exactly the traces an honest generator produces.
pub mod air;
pub mod circuit;
pub mod harness;
pub mod zkvm;
pub mod inputs;
pub mod spartan;
pub mod sponge;
pub mod trace;
