//! The error taxonomy shared by the whole construction pipeline.

use vstd::prelude::*;

verus! {

/// Everything a fallible operation of this crate can report.
#[derive(Debug)]
pub enum Error {
    /// Acquiring a session failed; fatal to that session attempt.
    InitializationError,
    /// A structural rule was violated before the geometry was built
    /// (for example a ring with too few coordinates). Carries a
    /// human-readable description of the rule.
    InvalidGeometry(String),
    /// The engine side reported a failure, with the most recent captured
    /// diagnostic text (or a fixed placeholder when none was captured).
    GenericError(String),
    /// A construction step yielded nothing where a geometry was expected.
    NullPointer,
}

impl Error {
    /// The message carried by the error, if it carries one.
    pub fn message(&self) -> (r: Option<&String>)
        ensures
            match self {
                Error::InvalidGeometry(m) => r == Some(m),
                Error::GenericError(m) => r == Some(m),
                _ => r is None,
            },
    {
        match self {
            Error::InvalidGeometry(m) => Some(m),
            Error::GenericError(m) => Some(m),
            _ => None,
        }
    }
}

/// Result type used by every fallible operation of the crate.
pub type GResult<T> = Result<T, Error>;

} // verus!
