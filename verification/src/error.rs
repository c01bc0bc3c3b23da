//! The failures that a session can report.

use vstd::prelude::*;

verus! {

/// Why an operation of a session failed.
#[derive(Debug, Clone, Copy, PartialEq, Eq, Structural)]
pub enum Error {
    /// The secure random source could not deliver.
    RngInitFailed,
    /// A received buffer is not the canonical encoding of a scalar.
    WiredScalarMalformed,
    /// A received buffer is not the canonical encoding of a group element.
    WiredRistrettoPointMalformed,
}

impl Error {
    /// The text that describes the failure, as a sequence of characters.
    pub open spec fn message_spec(self) -> Seq<char> {
        match self {
            Error::RngInitFailed => "failed to initialize the RNG"@,
            Error::WiredScalarMalformed => "failed to convert wired scalar to scalar"@,
            Error::WiredRistrettoPointMalformed =>
                "failed to convert wired ristretto point to ristretto point"@,
        }
    }

    /// A human-readable description of the failure.
    pub fn message(&self) -> (text: String)
        ensures
            text@ == self.message_spec(),
    {
        match self {
            Error::RngInitFailed => "failed to initialize the RNG".to_owned(),
            Error::WiredScalarMalformed => "failed to convert wired scalar to scalar".to_owned(),
            Error::WiredRistrettoPointMalformed =>
                "failed to convert wired ristretto point to ristretto point".to_owned(),
        }
    }
}

} // verus!
