//! Embedding of signed capability claims in WebAssembly modules, and their
//! extraction and verification against the module's content.

pub mod dates;
pub mod errors;
pub mod hash;
pub mod jwt;
pub mod keys;
pub mod wasm;
