//! The kinds of failure that embedding and extraction report.

use vstd::prelude::*;

verus! {

/// What went wrong in an embedding or an extraction.
#[derive(Debug, Clone, Copy, PartialEq, Eq, Structural)]
pub enum ErrorKind {
    /// The bytes are not a well-formed WebAssembly module.
    Parse,
    /// A parsed module could not be written back to bytes.
    Serialization,
    /// The payload of the claims section is not valid UTF-8.
    Encoding,
    /// The token is malformed or its signature does not verify.
    TokenDecode,
    /// The hash that the claims declare is not the module's canonical hash.
    InvalidModuleHash,
    /// The token encoder could not sign the claims.
    Signing,
}

impl ErrorKind {
    /// A short description of the failure.
    pub fn description(&self) -> (r: &'static str) {
        match self {
            ErrorKind::Parse => "the module could not be parsed",
            ErrorKind::Serialization => "the module could not be serialized",
            ErrorKind::Encoding => "the claims section is not valid UTF-8",
            ErrorKind::TokenDecode => "the token could not be decoded",
            ErrorKind::InvalidModuleHash => "the module hash does not match the claims",
            ErrorKind::Signing => "the claims could not be signed",
        }
    }
}

} // verus!
