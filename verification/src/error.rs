//! Why a derivation can fail.
use vstd::prelude::*;

verus! {

/// The two ways a derivation fails.
#[derive(Clone, Copy, Debug, PartialEq, Eq, Structural)]
pub enum DeriveError {
    /// The requested length or the worker count is zero.
    InvalidParameter,
    /// A worker did not hand back the chunks of its range.
    WorkerFailure,
}

impl DeriveError {
    /// A sentence for the person who made the request.
    pub fn message(&self) -> (text: String)
        ensures
            *self == DeriveError::InvalidParameter ==> text@
                == "the password length and the thread count must be at least 1"@,
            *self == DeriveError::WorkerFailure ==> text@
                == "a worker thread ended without its chunks"@,
    {
        match self {
            DeriveError::InvalidParameter => String::from_str(
                "the password length and the thread count must be at least 1",
            ),
            DeriveError::WorkerFailure => String::from_str(
                "a worker thread ended without its chunks",
            ),
        }
    }
}

} // verus!
