//! The point-in-time plan: the operators that are run against the store as
//! it stands at one logical time.

use vstd::prelude::*;
use crate::ast::expr::{Expression, SortExpression};
use crate::ast::rel::logical::{JoinType, SerdeOptions};
use crate::data::{Datum, LogicalTimestamp};
use crate::storage::Table;

verus! {

#[derive(Debug, PartialEq, Eq)]
pub enum PointInTimeOperator {
    Single,  // No from clause, ie select 1 + 1
    Project(Project),
    Values(Values),
    Filter(Filter),
    Limit(Limit),
    Sort(Sort),
    UnionAll(UnionAll),
    TableScan(TableScan),
    TableInsert(TableInsert),
    NegateFreq(Box<PointInTimeOperator>),
    SortedGroup(Group),
    HashGroup(Group),
    FileScan(FileScan),
    HashJoin(Join),
}

impl Default for PointInTimeOperator {
    fn default() -> (o: Self)
        ensures
            o == PointInTimeOperator::Single,
    {
        PointInTimeOperator::Single
    }
}

/// An operator that just feeds up a fixed set of values.
#[derive(Debug, PartialEq, Eq)]
pub struct Values {
    pub data: Vec<Vec<Datum<'static>>>,
    pub column_count: usize,
}

#[derive(Debug, PartialEq, Eq)]
pub struct Project {
    pub expressions: Vec<Expression>,
    pub source: Box<PointInTimeOperator>,
}

#[derive(Debug, PartialEq, Eq)]
pub struct Filter {
    pub predicate: Expression,
    pub source: Box<PointInTimeOperator>,
}

#[derive(Debug, PartialEq, Eq)]
pub struct Limit {
    pub offset: i64,
    pub limit: i64,
    pub source: Box<PointInTimeOperator>,
}

#[derive(Debug, PartialEq, Eq)]
pub struct Sort {
    pub sort_expressions: Vec<SortExpression>,
    pub source: Box<PointInTimeOperator>,
}

#[derive(Debug, PartialEq, Eq)]
pub struct UnionAll {
    pub sources: Vec<PointInTimeOperator>,
}

#[derive(Debug, PartialEq, Eq)]
pub struct TableScan {
    pub table: Table,
    pub timestamp: LogicalTimestamp,
}

#[derive(Debug, PartialEq, Eq)]
pub struct TableInsert {
    pub table: Table,
    pub source: Box<PointInTimeOperator>,
}

/// A grouping: the first `key_len` columns of the source are the key, and
/// the expressions are evaluated over each group.
#[derive(Debug, PartialEq, Eq)]
pub struct Group {
    pub source: Box<PointInTimeOperator>,
    pub expressions: Vec<Expression>,
    pub key_len: usize,
}

/// A scan of the files of a directory. The files are read outside the
/// library: a plan can be run once its file scans were given their rows.
#[derive(Debug, PartialEq, Eq)]
pub struct FileScan {
    pub directory: String,
    pub serde_options: SerdeOptions,
}

/// A join on the keys of its two sides, which are the last `key_len`
/// columns of each, with a condition on what else has to hold of a pair
/// of rows.
#[derive(Debug, PartialEq, Eq)]
pub struct Join {
    pub left: Box<PointInTimeOperator>,
    pub right: Box<PointInTimeOperator>,
    pub key_len: usize,
    pub non_equi_condition: Expression,
    pub join_type: JoinType,
}

} // verus!
