//! Verified core of a testing toolkit for Solana programs: code generation for
//! program clients, command planning, fuzz-test scheduling and helpers.
pub mod text;
pub mod client;
pub mod fuzz;
pub mod cli;
