//! The ways in which summing a document on disk can fail.

use vstd::prelude::*;
use vstd::std_specs::convert::FromSpecImpl;

verus! {

/// `std::io::Error`, carried through without a look inside.
#[verifier::external_type_specification]
#[verifier::external_body]
pub struct ExIoError(std::io::Error);

/// `simd_json::Error`, carried through without a look inside.
#[verifier::external_type_specification]
#[verifier::external_body]
pub struct ExParseError(simd_json::Error);

/// Why no sum could be given for a file.
#[derive(Debug)]
pub enum JSONSumError {
    /// The file could not be read.
    IO(std::io::Error),
    /// The bytes read are not a JSON document.
    Parse(simd_json::Error),
}

impl From<std::io::Error> for JSONSumError {
    fn from(error: std::io::Error) -> (wrapped: Self) {
        Self::IO(error)
    }
}

impl FromSpecImpl<std::io::Error> for JSONSumError {
    open spec fn obeys_from_spec() -> bool {
        true
    }

    open spec fn from_spec(error: std::io::Error) -> Self {
        JSONSumError::IO(error)
    }
}

impl From<simd_json::Error> for JSONSumError {
    fn from(error: simd_json::Error) -> (wrapped: Self) {
        Self::Parse(error)
    }
}

impl FromSpecImpl<simd_json::Error> for JSONSumError {
    open spec fn obeys_from_spec() -> bool {
        true
    }

    open spec fn from_spec(error: simd_json::Error) -> Self {
        JSONSumError::Parse(error)
    }
}

} // verus!
