//! A compiler for Lexicon schema documents: loads a JSON document into typed
//! definitions and emits Rust declarations for them.
pub mod atp;
pub mod casing;
pub mod codegen;
pub mod document;
pub mod json;
pub mod loader;
pub mod model;
