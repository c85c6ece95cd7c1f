//! Errors of the planner.

use vstd::prelude::*;
use crate::catalog::CatalogError;

verus! {

/// Why a query cannot be planned. Each kind carries a text that names the
/// offending part of the query.
#[derive(Debug, PartialEq, Eq)]
pub enum PlannerError {
    /// No function of that name takes arguments of those types.
    FunctionNotFound(String),
    /// A column name that more than one column of the source has.
    AmbiguousColumn(String),
    /// A column name that no column of the source has.
    ColumnNotFound(String),
    /// An expression of a type that its place does not take.
    TypeMismatch(String),
    /// Literal rows that differ in length or whose columns have no common type.
    InvalidValues(String),
    /// An aggregate where none can stand.
    AggregateMisuse(String),
    Catalog(CatalogError),
}

} // verus!
