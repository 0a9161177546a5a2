//! Lowering of command signatures to Rust source that rebuilds them.
//!
//! A signature is written as text in a small notation, captured as a string
//! literal, decoded, parsed by nushell's parser, and lowered here into a source
//! fragment that constructs the same `nu_protocol::Signature` at compile time.
pub mod alias;
pub mod driver;
pub mod error;
pub mod laws;
pub mod literal;
pub mod model;
pub mod shape;
pub mod signature;
pub mod text;
pub mod value;
