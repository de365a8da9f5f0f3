//! The error type of the converter.
use vstd::prelude::*;

verus! {

/// Why a conversion or the set-up of the converter failed.
#[derive(Debug)]
pub enum Error {
    /// Loading the dictionary failed; the message says why.
    Init(String),
    /// Analysing or converting the text failed; the message says why.
    Processing(String),
}

/// The result type of the converter.
pub type Result<T> = core::result::Result<T, Error>;

impl Error {
    /// The message carried by the error.
    pub fn message(&self) -> (m: &str)
        ensures
            m@ == match self {
                Error::Init(s) => s@,
                Error::Processing(s) => s@,
            },
    {
        match self {
            Error::Init(s) => s.as_str(),
            Error::Processing(s) => s.as_str(),
        }
    }
}

} // verus!
