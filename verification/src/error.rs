//! The closed set of ways a store operation can fail.

use vstd::prelude::*;

verus! {

/// Why a store operation failed.
#[derive(Debug)]
pub enum Error {
    /// The underlying file could not be read or written; carries the
    /// reporting layer's message.
    IoFailure(String),
    /// The file held text that is not a JSON array of task records.
    MalformedContent,
    /// An operation addressed a position outside the collection.
    InvalidIndex,
}

impl Error {
    /// A short user-facing description of the failure.
    pub fn message(&self) -> (r: String)
        ensures
            self matches Error::IoFailure(m) ==> r@ == m@,
            self matches Error::MalformedContent ==> r@ == "Malformed task file"@,
            self matches Error::InvalidIndex ==> r@ == "Invalid Task ID"@,
    {
        match self {
            Error::IoFailure(m) => m.clone(),
            Error::MalformedContent => "Malformed task file".to_owned(),
            Error::InvalidIndex => "Invalid Task ID".to_owned(),
        }
    }
}

} // verus!
