//! The ways in which an operation on plain values can fail. A failure of the
//! store is the caller's to report: nothing here touches a store.

use vstd::prelude::*;

verus! {

/// Why an operation was not carried out.
#[derive(Debug, PartialEq, Eq)]
pub enum ApiError {
    /// The milestone or the member is not known in the group.
    NotFound(String),
    /// The request is malformed.
    ValidationFailure(String),
}

impl ApiError {
    /// Whether this says that something was not found, in the given words.
    pub open spec fn is_not_found(self, message: Seq<char>) -> bool {
        match self {
            ApiError::NotFound(m) => m@ == message,
            _ => false,
        }
    }

    /// Whether this says that a request is malformed, in the given words.
    pub open spec fn is_validation_failure(self, message: Seq<char>) -> bool {
        match self {
            ApiError::ValidationFailure(m) => m@ == message,
            _ => false,
        }
    }
}

} // verus!
