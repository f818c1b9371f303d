//! The client side: the `program_client` generator and the commander that
//! plans builds and test runs, the local validator and the RPC client.
pub mod client;
pub mod commander;
pub mod idl;
pub mod program_client_generator;
pub mod tester;
pub mod validator;
