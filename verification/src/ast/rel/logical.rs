//! The logical plan: relational operators as the parser writes them and as
//! the planner rewrites them.

use vstd::prelude::*;
use crate::ast::expr::{Expression, NamedExpression, SortExpression};
use crate::data::DataType;
use crate::storage::Table;

verus! {

#[derive(Debug, PartialEq, Eq)]
pub enum LogicalOperator {
    /// No from clause, ie select 1 + 1: one empty row.
    Single,
    Project(Project),
    GroupBy(GroupBy),
    Filter(Filter),
    Limit(Limit),
    Sort(Sort),
    Values(Values),
    UnionAll(UnionAll),
    TableReference(TableReference),
    ResolvedTable(ResolvedTable),
    TableAlias(TableAlias),
    TableInsert(TableInsert),
    NegateFreq(Box<LogicalOperator>),
    FileScan(FileScan),
    Join(Join),
}

#[derive(Debug, PartialEq, Eq)]
pub struct Project {
    pub distinct: bool,
    pub expressions: Vec<NamedExpression>,
    pub source: Box<LogicalOperator>,
}

#[derive(Debug, PartialEq, Eq)]
pub struct GroupBy {
    pub expressions: Vec<NamedExpression>,
    pub key_expressions: Vec<Expression>,
    pub source: Box<LogicalOperator>,
}

#[derive(Debug, PartialEq, Eq)]
pub struct Filter {
    pub predicate: Expression,
    pub source: Box<LogicalOperator>,
}

#[derive(Debug, PartialEq, Eq)]
pub struct Limit {
    pub offset: i64,
    pub limit: i64,
    pub source: Box<LogicalOperator>,
}

#[derive(Debug, PartialEq, Eq)]
pub struct Sort {
    pub sort_expressions: Vec<SortExpression>,
    pub source: Box<LogicalOperator>,
}

/// Literal rows. The fields are the types and names of the columns.
#[derive(Debug, PartialEq, Eq)]
pub struct Values {
    pub data: Vec<Vec<Expression>>,
    pub fields: Vec<(DataType, String)>,
}

#[derive(Debug, PartialEq, Eq)]
pub struct UnionAll {
    pub sources: Vec<LogicalOperator>,
}

/// A table by its name, not looked up yet.
#[derive(Debug, PartialEq, Eq)]
pub struct TableReference {
    pub database: Option<String>,
    pub table: String,
}

/// A table that the catalog has found.
#[derive(Debug, PartialEq, Eq)]
pub struct ResolvedTable {
    pub columns: Vec<(String, DataType)>,
    pub table: Table,
}

#[derive(Debug, PartialEq, Eq)]
pub struct TableAlias {
    pub alias: String,
    pub source: Box<LogicalOperator>,
}

#[derive(Debug, PartialEq, Eq)]
pub struct TableInsert {
    pub table: Box<LogicalOperator>,
    pub source: Box<LogicalOperator>,
}

#[derive(Debug, PartialEq, Eq, Structural, Clone, Copy)]
pub enum JoinType {
    Inner,
    LeftOuter,
}

/// How the files of a directory are read: each line as a JSON document,
/// or each line as values with commas between them.
#[derive(Debug, PartialEq, Eq, Structural, Clone, Copy)]
pub enum SerdeOptions {
    Json,
    Csv,
}

/// A scan of the files of a directory: one column `data` of JSON type.
#[derive(Debug, PartialEq, Eq)]
pub struct FileScan {
    pub directory: String,
    pub serde_options: SerdeOptions,
}

#[derive(Debug, PartialEq, Eq)]
pub struct Join {
    pub left: Box<LogicalOperator>,
    pub right: Box<LogicalOperator>,
    pub on: Expression,
    pub join_type: JoinType,
}

impl Default for LogicalOperator {
    fn default() -> (o: Self)
        ensures
            o == LogicalOperator::Single,
    {
        LogicalOperator::Single
    }
}

} // verus!
