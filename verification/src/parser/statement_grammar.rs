//! The grammar of statements: what a text is read as, as the model of a
//! statement.

use vstd::prelude::*;
use vstd::string::StringSliceAdditionalSpecFns;
use crate::ast::model::{text_model, ExpressionModel};
use crate::data::DataType;
use crate::parser::atoms::{keyword_at, MAX_DEPTH};
use crate::parser::expression_grammar::{keyword_end, spec_comma_sep, spec_datatype, token_end};
use crate::parser::grammar::{after_space, spec_identifier, spec_qualified_reference};
use crate::parser::select_grammar::spec_select_at;
use crate::parser::statement::Statement;
use crate::planner::plan_model::{named_types, plan_model, PlanModel};

verus! {

/// What a statement stands for.
pub enum StatementModel {
    Query(PlanModel),
    CreateDatabase(Seq<char>),
    DropDatabase(Seq<char>),
    /// The database, where it is named, the table and its columns.
    CreateTable(Option<Seq<char>>, Seq<char>, Seq<(Seq<char>, DataType)>),
    UseDatabase(Seq<char>),
}

/// The model of a statement.
pub open spec fn statement_model(statement: Statement) -> StatementModel {
    match statement {
        Statement::Query(plan) => StatementModel::Query(plan_model(plan)),
        Statement::CreateDatabase(name) => StatementModel::CreateDatabase(name@),
        Statement::DropDatabase(name) => StatementModel::DropDatabase(name@),
        Statement::CreateTable(database, table, columns) => StatementModel::CreateTable(
            text_model(database),
            table@,
            named_types(columns@),
        ),
        Statement::UseDatabase(name) => StatementModel::UseDatabase(name@),
    }
}

/// A column of a new table at a place, after white space: its name and
/// its type; whether a comma follows it; and the place after the comma,
/// or after the white space that follows the column.
pub open spec fn spec_column_step(input: Seq<u8>, pos: int) -> Option<
    ((Seq<char>, DataType), bool, int),
> {
    match spec_identifier(input, after_space(input, pos)) {
        None => None,
        Some((name, after_name)) => match spec_datatype(input, after_space(input, after_name)) {
            None => None,
            Some((kind, after_kind)) => {
                let next = after_space(input, after_kind);
                match token_end(input, next, ",".spec_bytes()) {
                    Some(comma) => Some(((name, kind), true, comma)),
                    None => Some(((name, kind), false, next)),
                }
            },
        },
    }
}

/// The columns of a new table from a place on, after those that were
/// read, up to the closing parenthesis.
pub open spec fn spec_columns_tail(
    input: Seq<u8>,
    pos: int,
    list: Seq<(Seq<char>, DataType)>,
) -> Option<(Seq<(Seq<char>, DataType)>, int)>
    decreases input.len() - pos,
{
    match spec_column_step(input, pos) {
        None => None,
        Some((column, more, end)) => if more && pos < end <= input.len() {
            spec_columns_tail(input, end, list.push(column))
        } else {
            match token_end(input, end, ")".spec_bytes()) {
                Some(close) => Some((list.push(column), close)),
                None => None,
            }
        },
    }
}

/// The columns of a new table: `(name type, name type, ...)`.
pub open spec fn spec_columns(input: Seq<u8>, pos: int) -> Option<
    (Seq<(Seq<char>, DataType)>, int),
> {
    match token_end(input, pos, "(".spec_bytes()) {
        None => None,
        Some(open) => spec_columns_tail(input, open, Seq::empty()),
    }
}

/// A row of an insert at a place, after white space: its expressions in
/// parentheses; whether a comma follows it; and the place after the
/// comma, or after the row.
pub open spec fn spec_row_step(input: Seq<u8>, pos: int) -> Option<
    (Seq<ExpressionModel>, bool, int),
> {
    match token_end(input, after_space(input, pos), "(".spec_bytes()) {
        None => None,
        Some(open) => match spec_comma_sep(input, after_space(input, open), MAX_DEPTH as nat) {
            None => None,
            Some((row, after_row)) => match token_end(
                input,
                after_space(input, after_row),
                ")".spec_bytes(),
            ) {
                None => None,
                Some(close) => match token_end(input, after_space(input, close), ",".spec_bytes()) {
                    Some(comma) => Some((row, true, comma)),
                    None => Some((row, false, close)),
                },
            },
        },
    }
}

/// The rows of an insert from a place on, after those that were read.
pub open spec fn spec_rows_tail(
    input: Seq<u8>,
    pos: int,
    list: Seq<Seq<ExpressionModel>>,
) -> Option<(Seq<Seq<ExpressionModel>>, int)>
    decreases input.len() - pos,
{
    match spec_row_step(input, pos) {
        None => None,
        Some((row, more, end)) => if more && pos < end <= input.len() {
            spec_rows_tail(input, end, list.push(row))
        } else {
            Some((list.push(row), end))
        },
    }
}

/// What follows `CREATE`: a database, or a table with its columns.
pub open spec fn spec_create(input: Seq<u8>, pos: int) -> Option<(StatementModel, int)> {
    let start = after_space(input, pos);
    match keyword_end(input, start, "database".spec_bytes()) {
        Some(after) => match spec_identifier(input, after_space(input, after)) {
            Some((name, end)) => Some((StatementModel::CreateDatabase(name), end)),
            None => None,
        },
        None => match keyword_end(input, start, "table".spec_bytes()) {
            None => None,
            Some(after) => match spec_qualified_reference(input, after_space(input, after)) {
                None => None,
                Some((database, table, after_table)) => match spec_columns(
                    input,
                    after_space(input, after_table),
                ) {
                    Some((columns, end)) => Some(
                        (StatementModel::CreateTable(database, table, columns), end),
                    ),
                    None => None,
                },
            },
        },
    }
}

/// What follows `DROP`: a database.
pub open spec fn spec_drop(input: Seq<u8>, pos: int) -> Option<(StatementModel, int)> {
    match keyword_end(input, after_space(input, pos), "database".spec_bytes()) {
        None => None,
        Some(after) => match spec_identifier(input, after_space(input, after)) {
            Some((name, end)) => Some((StatementModel::DropDatabase(name), end)),
            None => None,
        },
    }
}

/// What follows `USE`: a database.
pub open spec fn spec_use(input: Seq<u8>, pos: int) -> Option<(StatementModel, int)> {
    match spec_identifier(input, after_space(input, pos)) {
        Some((name, end)) => Some((StatementModel::UseDatabase(name), end)),
        None => None,
    }
}

/// The rows of an insert: literal rows after `VALUES`, or a query.
pub open spec fn spec_insert_source(input: Seq<u8>, pos: int) -> Option<(PlanModel, int)> {
    match keyword_end(input, pos, "values".spec_bytes()) {
        Some(after) => match spec_rows_tail(input, after, Seq::empty()) {
            Some((rows, end)) => Some((PlanModel::Values(rows, Seq::empty()), end)),
            None => None,
        },
        None => spec_select_at(input, pos, MAX_DEPTH as nat),
    }
}

/// What follows `INSERT`: `INTO`, a table, and the rows.
pub open spec fn spec_insert(input: Seq<u8>, pos: int) -> Option<(StatementModel, int)> {
    match keyword_end(input, after_space(input, pos), "into".spec_bytes()) {
        None => None,
        Some(after) => match spec_qualified_reference(input, after_space(input, after)) {
            None => None,
            Some((database, table, after_table)) => match spec_insert_source(
                input,
                after_space(input, after_table),
            ) {
                None => None,
                Some((source, end)) => Some(
                    (
                        StatementModel::Query(
                            PlanModel::TableInsert(
                                Box::new(PlanModel::TableReference(database, table)),
                                Box::new(source),
                            ),
                        ),
                        end,
                    ),
                ),
            },
        },
    }
}

/// A statement at a place, after white space: a query, or what its first
/// keyword says.
pub open spec fn spec_statement(input: Seq<u8>, pos: int) -> Option<(StatementModel, int)> {
    let start = after_space(input, pos);
    if keyword_at(input, start, "select".spec_bytes()) {
        match spec_select_at(input, start, MAX_DEPTH as nat) {
            Some((query, end)) => Some((StatementModel::Query(query), end)),
            None => None,
        }
    } else if keyword_at(input, start, "create".spec_bytes()) {
        spec_create(input, start + "create".spec_bytes().len())
    } else if keyword_at(input, start, "drop".spec_bytes()) {
        spec_drop(input, start + "drop".spec_bytes().len())
    } else if keyword_at(input, start, "use".spec_bytes()) {
        spec_use(input, start + "use".spec_bytes().len())
    } else if keyword_at(input, start, "insert".spec_bytes()) {
        spec_insert(input, start + "insert".spec_bytes().len())
    } else {
        None
    }
}

/// The place after white space, one semicolon where one stands there,
/// and more white space.
pub open spec fn after_end(input: Seq<u8>, pos: int) -> int {
    let start = after_space(input, pos);
    match token_end(input, start, ";".spec_bytes()) {
        Some(after) => after_space(input, after),
        None => start,
    }
}

/// The statement that a text is: nothing but white space and one
/// semicolon may follow it.
pub open spec fn spec_parse(input: Seq<u8>) -> Option<StatementModel> {
    match spec_statement(input, 0) {
        None => None,
        Some((statement, end)) => if after_end(input, end) >= input.len() {
            Some(statement)
        } else {
            None
        },
    }
}

} // verus!
