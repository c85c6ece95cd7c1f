//! Errors of a statement.

use vstd::prelude::*;
use crate::catalog::CatalogError;
use crate::executor::ExecutionError;
use crate::parser::ParserError;
use crate::planner::PlannerError;

verus! {

/// Why a statement failed.
#[derive(Debug, PartialEq, Eq)]
pub enum QueryError {
    ParserError(ParserError),
    PlannerError(PlannerError),
    CatalogError(CatalogError),
    ExecutionError(ExecutionError),
    /// No connection has the id that the statement came with.
    UnknownConnection(u32),
}

} // verus!
