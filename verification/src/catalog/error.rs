//! Errors of the catalog.

use vstd::prelude::*;
use crate::storage::StorageError;

verus! {

/// Why a catalog operation was refused.
#[derive(Debug, PartialEq, Eq)]
pub enum CatalogError {
    DatabaseNotFound(String),
    DatabaseAlreadyExists(String),
    DatabaseNotEmpty(String),
    /// Database and table.
    TableNotFound(String, String),
    /// Database and table.
    TableAlreadyExists(String, String),
    StorageError(StorageError),
}

} // verus!
