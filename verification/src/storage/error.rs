//! Errors of the storage layer.

use vstd::prelude::*;

verus! {

/// An error from the storage layer.
#[derive(Debug, PartialEq, Eq)]
pub enum StorageError {
    /// The key-value store failed or holds bytes that are no row.
    KeyValue(String),
}

impl StorageError {
    /// The message of the error.
    pub fn message(&self) -> (m: String)
        ensures
            self matches StorageError::KeyValue(s) && m@ == s@,
    {
        match self {
            StorageError::KeyValue(s) => s.clone(),
        }
    }
}

} // verus!
