//! Errors that the resource store reports.
use vstd::prelude::*;

verus! {

/// The status code with which the store answers a create of an object that
/// already exists.
pub const ERROR_CONFLICT: u16 = 409;

/// The status code with which the store answers a request for an object that
/// does not exist.
pub const ERROR_NOT_FOUND: u16 = 404;

/// A failed request to the resource store.
pub enum StoreError {
    /// The store answered with an error status.
    Api { code: u16, message: String },
    /// The request did not get an answer from the store.
    Transport { message: String },
}

impl StoreError {
    /// The status code of an answer from the store, if there was one.
    pub open spec fn status(&self) -> Option<u16> {
        match self {
            StoreError::Api { code, .. } => Some(*code),
            StoreError::Transport { .. } => None,
        }
    }

    /// Whether the store answered with status `code`.
    pub fn has_status(&self, code: u16) -> (r: bool)
        ensures
            r == (self.status() == Some(code)),
    {
        match self {
            StoreError::Api { code: c, .. } => *c == code,
            StoreError::Transport { .. } => false,
        }
    }
}

} // verus!
