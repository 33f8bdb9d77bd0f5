//! The error type of the library.

use vstd::prelude::*;

verus! {

#[verifier::external_type_specification]
#[verifier::external_body]
pub struct ExIoError(std::io::Error);

/// Errors of the whole library.
#[derive(Debug)]
pub enum Error {
    /// An argument or a setting is invalid.
    InvalidArgument(String),
    /// An input/output error.
    Io(std::io::Error),
    /// A feature that is not supported or not implemented.
    Unsupported(String),
    /// Unscrambling failed (EDC mismatch and the like).
    Unscramble(String),
    /// No seed was found for the given sector.
    SeedNotFound(u32),
    /// Any other error.
    Other(String),
}

/// The result type of the library.
pub type Result<T> = std::result::Result<T, Error>;

impl From<std::io::Error> for Error {
    /// An input/output error.
    fn from(e: std::io::Error) -> (r: Error) {
        Error::Io(e)
    }
}

impl vstd::std_specs::convert::FromSpecImpl<std::io::Error> for Error {
    open spec fn obeys_from_spec() -> bool {
        true
    }

    open spec fn from_spec(e: std::io::Error) -> Error {
        Error::Io(e)
    }
}

} // verus!
