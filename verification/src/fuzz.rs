//! The fuzzing side: random inputs, the scheduling of flows and invariants in
//! a fuzzed sequence, the in-memory log of the sequences and the commander
//! that creates and runs fuzz tests.
pub mod builder;
pub mod commander;
pub mod random;
pub mod writer;
