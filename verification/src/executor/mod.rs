//! Executors: the evaluation of expressions and of point-in-time plans.

use vstd::prelude::*;
use crate::storage::StorageError;

pub mod expression;
pub mod point_in_time;

pub use expression::{EvalScalar, EvalScalarRow};

verus! {

/// Why a statement stopped while it ran.
#[derive(Debug, PartialEq, Eq)]
pub enum ExecutionError {
    /// The store failed.
    StorageError(StorageError),
    /// The kill flag of the session was set.
    Killed,
}

impl vstd::std_specs::convert::FromSpecImpl<StorageError> for ExecutionError {
    open spec fn obeys_from_spec() -> bool {
        true
    }

    open spec fn from_spec(err: StorageError) -> Self {
        ExecutionError::StorageError(err)
    }
}

impl From<StorageError> for ExecutionError {
    fn from(err: StorageError) -> (e: Self) {
        ExecutionError::StorageError(err)
    }
}

impl ExecutionError {
    /// The text of the error.
    pub fn message(&self) -> (m: String)
        ensures
            self matches ExecutionError::StorageError(e) ==> e matches StorageError::KeyValue(s)
                && m@ == s@,
            self is Killed ==> m@ == "the statement was killed"@,
    {
        match self {
            ExecutionError::StorageError(e) => e.message(),
            ExecutionError::Killed => "the statement was killed".to_owned(),
        }
    }
}

} // verus!
