//! Statements.

use vstd::prelude::*;
use vstd::string::StringSliceAdditionalSpecFns;
use crate::ast::expr::Expression;
use crate::ast::rel::logical::{LogicalOperator, TableInsert, TableReference, Values};
use crate::data::DataType;
use crate::ast::model::{models_of, ExpressionModel};
use crate::parser::atoms::{
    identifier,
    moved_on,
    qualified_reference,
    Cursor,
    MAX_DEPTH,
};
use crate::parser::error::ParserError;
use crate::parser::expression::{comma_sep_expressions, datatype};
use crate::parser::grammar::spec_identifier;
use crate::parser::select::{parsed_plan, select_at};
use crate::parser::statement_grammar::{
    spec_column_step,
    spec_columns,
    spec_columns_tail,
    spec_create,
    spec_drop,
    spec_insert,
    spec_insert_source,
    spec_parse,
    spec_row_step,
    spec_rows_tail,
    after_end,
    spec_statement,
    spec_use,
    statement_model,
    StatementModel,
};
use crate::planner::plan_model::{named_types, plan_model, rows_model, typed_names};

verus! {

/// A statement.
#[derive(Debug, PartialEq, Eq)]
pub enum Statement {
    /// A query or an insert: a plan to be run.
    Query(LogicalOperator),
    CreateDatabase(String),
    DropDatabase(String),
    /// The database, where it is named, the table and its columns.
    CreateTable(Option<String>, String, Vec<(String, DataType)>),
    UseDatabase(String),
}

/// What reading a name gave, with the place that reading came to.
pub open spec fn parsed_name(r: Result<String, ParserError>, pos: usize) -> Option<(Seq<char>, int)> {
    match r {
        Ok(name) => Some((name@, pos as int)),
        Err(_) => None,
    }
}

/// What reading a statement gave, with the place that reading came to.
pub open spec fn parsed_statement(r: Result<Statement, ParserError>, pos: usize) -> Option<
    (StatementModel, int),
> {
    match r {
        Ok(statement) => Some((statement_model(statement), pos as int)),
        Err(_) => None,
    }
}

fn name(cursor: &mut Cursor, what: &str) -> (r: Result<String, ParserError>)
    requires
        old(cursor).pos <= old(cursor).input@.len(),
    ensures
        moved_on(*old(cursor), *final(cursor)),
        parsed_name(r, final(cursor).pos) == spec_identifier(
            old(cursor).input@,
            old(cursor).pos as int,
        ),
{
    match identifier(cursor) {
        Some(name) => Ok(name),
        None => Err(cursor.error(what)),
    }
}

/// Reads a column of a new table, and the comma after it where one
/// follows.
fn column_step(cursor: &mut Cursor) -> (r: Result<((String, DataType), bool), ParserError>)
    requires
        old(cursor).pos <= old(cursor).input@.len(),
    ensures
        moved_on(*old(cursor), *final(cursor)),
        match r {
            Ok((column, more)) => spec_column_step(old(cursor).input@, old(cursor).pos as int)
                == Some(((column.0@, column.1), more, final(cursor).pos as int)),
            Err(_) => spec_column_step(old(cursor).input@, old(cursor).pos as int) is None,
        },
{
    cursor.skip_space();
    let column = match identifier(cursor) {
        Some(column) => column,
        None => {
            return Err(cursor.error("a column"));
        },
    };
    cursor.skip_space();
    let kind = match datatype(cursor) {
        Ok(kind) => kind,
        Err(error) => {
            return Err(error);
        },
    };
    cursor.skip_space();
    let more = cursor.eat_token(",");
    Ok(((column, kind), more))
}

/// Reads the columns of a new table: `(name type, name type, ...)`.
fn column_definitions(cursor: &mut Cursor) -> (r: Result<Vec<(String, DataType)>, ParserError>)
    requires
        old(cursor).pos <= old(cursor).input@.len(),
    ensures
        moved_on(*old(cursor), *final(cursor)),
        match r {
            Ok(columns) => spec_columns(old(cursor).input@, old(cursor).pos as int) == Some(
                (named_types(columns@), final(cursor).pos as int),
            ),
            Err(_) => spec_columns(old(cursor).input@, old(cursor).pos as int) is None,
        },
        r matches Ok(columns) ==> columns@.len() >= 1,
{
    let ghost input = cursor.input@;
    let ghost start = cursor.pos as int;
    if !cursor.eat_token("(") {
        return Err(cursor.error("("));
    }
    let mut columns: Vec<(String, DataType)> = Vec::new();
    let mut last: Option<(String, DataType)> = None;
    let mut go = true;
    assert(named_types(columns@) =~= Seq::<(Seq<char>, DataType)>::empty());
    while go
        invariant
            moved_on(*old(cursor), *cursor),
            input == old(cursor).input@,
            start == old(cursor).pos,
            go ==> last is None,
            !go ==> last is Some,
            spec_columns(input, start) == match last {
                None => spec_columns_tail(input, cursor.pos as int, named_types(columns@)),
                Some(column) => match crate::parser::expression_grammar::token_end(
                    input,
                    cursor.pos as int,
                    ")".spec_bytes(),
                ) {
                    Some(close) => Some((named_types(columns@).push((column.0@, column.1)), close)),
                    None => None,
                },
            },
        decreases
                cursor.input@.len() - cursor.pos + if go {
                    1int
                } else {
                    0int
                },
    {
        let before = cursor.pos;
        let (column, more) = match column_step(cursor) {
            Ok(read) => read,
            Err(error) => {
                return Err(error);
            },
        };
        if more && cursor.pos > before {
            assert(named_types(columns@.push(column)) =~= named_types(columns@).push(
                (column.0@, column.1),
            ));
            columns.push(column);
        } else {
            last = Some(column);
            go = false;
        }
    }
    if !cursor.eat_token(")") {
        return Err(cursor.error(")"));
    }
    match last {
        Some(column) => {
            assert(named_types(columns@.push(column)) =~= named_types(columns@).push(
                (column.0@, column.1),
            ));
            columns.push(column);
        },
        None => {},
    }
    Ok(columns)
}

/// Reads a row of an insert, and the comma after it where one follows.
fn row_step(cursor: &mut Cursor) -> (r: Result<(Vec<Expression>, bool), ParserError>)
    requires
        old(cursor).pos <= old(cursor).input@.len(),
    ensures
        moved_on(*old(cursor), *final(cursor)),
        match r {
            Ok((row, more)) => spec_row_step(old(cursor).input@, old(cursor).pos as int) == Some(
                (models_of(row@), more, final(cursor).pos as int),
            ),
            Err(_) => spec_row_step(old(cursor).input@, old(cursor).pos as int) is None,
        },
{
    cursor.skip_space();
    if !cursor.eat_token("(") {
        return Err(cursor.error("("));
    }
    cursor.skip_space();
    let row = match comma_sep_expressions(cursor, MAX_DEPTH) {
        Ok(row) => row,
        Err(error) => {
            return Err(error);
        },
    };
    cursor.skip_space();
    if !cursor.eat_token(")") {
        return Err(cursor.error(")"));
    }
    let after = cursor.pos;
    cursor.skip_space();
    if cursor.eat_token(",") {
        Ok((row, true))
    } else {
        cursor.pos = after;
        Ok((row, false))
    }
}

/// Reads the rows of an insert: `(expr, ...), (expr, ...), ...`.
fn value_rows(cursor: &mut Cursor) -> (r: Result<Vec<Vec<Expression>>, ParserError>)
    requires
        old(cursor).pos <= old(cursor).input@.len(),
    ensures
        moved_on(*old(cursor), *final(cursor)),
        match r {
            Ok(rows) => spec_rows_tail(
                old(cursor).input@,
                old(cursor).pos as int,
                Seq::empty(),
            ) == Some((rows_model(rows@), final(cursor).pos as int)),
            Err(_) => spec_rows_tail(old(cursor).input@, old(cursor).pos as int, Seq::empty())
                is None,
        },
{
    let ghost input = cursor.input@;
    let ghost start = cursor.pos as int;
    let mut rows: Vec<Vec<Expression>> = Vec::new();
    let mut go = true;
    assert(rows_model(rows@) =~= Seq::<Seq<ExpressionModel>>::empty());
    while go
        invariant
            moved_on(*old(cursor), *cursor),
            input == old(cursor).input@,
            start == old(cursor).pos,
            spec_rows_tail(input, start, Seq::empty()) == if go {
                spec_rows_tail(input, cursor.pos as int, rows_model(rows@))
            } else {
                Some((rows_model(rows@), cursor.pos as int))
            },
        decreases
                cursor.input@.len() - cursor.pos + if go {
                    1int
                } else {
                    0int
                },
    {
        let before = cursor.pos;
        let (row, more) = match row_step(cursor) {
            Ok(read) => read,
            Err(error) => {
                return Err(error);
            },
        };
        assert(rows_model(rows@.push(row)) =~= rows_model(rows@).push(models_of(row@)));
        rows.push(row);
        if !more || cursor.pos <= before {
            go = false;
        }
    }
    Ok(rows)
}

/// Reads what follows `CREATE`.
fn create_statement(cursor: &mut Cursor) -> (r: Result<Statement, ParserError>)
    requires
        old(cursor).pos <= old(cursor).input@.len(),
    ensures
        moved_on(*old(cursor), *final(cursor)),
        parsed_statement(r, final(cursor).pos) == spec_create(
            old(cursor).input@,
            old(cursor).pos as int,
        ),
{
    cursor.skip_space();
    if cursor.eat_keyword("database") {
        cursor.skip_space();
        return match name(cursor, "a database") {
            Ok(database) => Ok(Statement::CreateDatabase(database)),
            Err(error) => Err(error),
        };
    }
    if cursor.eat_keyword("table") {
        cursor.skip_space();
        let (database, table) = match qualified_reference(cursor) {
            Some(reference) => reference,
            None => {
                return Err(cursor.error("a table"));
            },
        };
        cursor.skip_space();
        return match column_definitions(cursor) {
            Ok(columns) => Ok(Statement::CreateTable(database, table, columns)),
            Err(error) => Err(error),
        };
    }
    Err(cursor.error("DATABASE or TABLE"))
}

/// Reads what follows `DROP`.
fn drop_statement(cursor: &mut Cursor) -> (r: Result<Statement, ParserError>)
    requires
        old(cursor).pos <= old(cursor).input@.len(),
    ensures
        moved_on(*old(cursor), *final(cursor)),
        parsed_statement(r, final(cursor).pos) == spec_drop(
            old(cursor).input@,
            old(cursor).pos as int,
        ),
{
    cursor.skip_space();
    if !cursor.eat_keyword("database") {
        return Err(cursor.error("DATABASE"));
    }
    cursor.skip_space();
    match name(cursor, "a database") {
        Ok(database) => Ok(Statement::DropDatabase(database)),
        Err(error) => Err(error),
    }
}

/// Reads what follows `USE`.
fn use_statement(cursor: &mut Cursor) -> (r: Result<Statement, ParserError>)
    requires
        old(cursor).pos <= old(cursor).input@.len(),
    ensures
        moved_on(*old(cursor), *final(cursor)),
        parsed_statement(r, final(cursor).pos) == spec_use(
            old(cursor).input@,
            old(cursor).pos as int,
        ),
{
    cursor.skip_space();
    match name(cursor, "a database") {
        Ok(database) => Ok(Statement::UseDatabase(database)),
        Err(error) => Err(error),
    }
}

/// Reads the rows of an insert: literal rows or a query.
fn insert_source(cursor: &mut Cursor) -> (r: Result<LogicalOperator, ParserError>)
    requires
        old(cursor).pos <= old(cursor).input@.len(),
    ensures
        moved_on(*old(cursor), *final(cursor)),
        parsed_plan(r, final(cursor).pos) == spec_insert_source(
            old(cursor).input@,
            old(cursor).pos as int,
        ),
{
    if cursor.eat_keyword("values") {
        match value_rows(cursor) {
            Ok(data) => {
                let fields: Vec<(DataType, String)> = Vec::new();
                assert(typed_names(fields@) =~= Seq::<(DataType, Seq<char>)>::empty());
                Ok(LogicalOperator::Values(Values { data, fields }))
            },
            Err(error) => Err(error),
        }
    } else {
        select_at(cursor, MAX_DEPTH)
    }
}

/// Reads what follows `INSERT`.
fn insert_statement(cursor: &mut Cursor) -> (r: Result<Statement, ParserError>)
    requires
        old(cursor).pos <= old(cursor).input@.len(),
    ensures
        moved_on(*old(cursor), *final(cursor)),
        parsed_statement(r, final(cursor).pos) == spec_insert(
            old(cursor).input@,
            old(cursor).pos as int,
        ),
{
    proof {
        reveal_with_fuel(plan_model, 2);
    }
    cursor.skip_space();
    if !cursor.eat_keyword("into") {
        return Err(cursor.error("INTO"));
    }
    cursor.skip_space();
    let (database, table) = match qualified_reference(cursor) {
        Some(reference) => reference,
        None => {
            return Err(cursor.error("a table"));
        },
    };
    cursor.skip_space();
    let source = match insert_source(cursor) {
        Ok(source) => source,
        Err(error) => {
            return Err(error);
        },
    };
    Ok(
        Statement::Query(
            LogicalOperator::TableInsert(
                TableInsert {
                    table: Box::new(
                        LogicalOperator::TableReference(TableReference { database, table }),
                    ),
                    source: Box::new(source),
                },
            ),
        ),
    )
}

/// Reads a statement at the place of the cursor.
pub fn statement(cursor: &mut Cursor) -> (r: Result<Statement, ParserError>)
    requires
        old(cursor).pos <= old(cursor).input@.len(),
    ensures
        moved_on(*old(cursor), *final(cursor)),
        parsed_statement(r, final(cursor).pos) == spec_statement(
            old(cursor).input@,
            old(cursor).pos as int,
        ),
{
    cursor.skip_space();
    if cursor.peek_keyword("select") {
        return match select_at(cursor, MAX_DEPTH) {
            Ok(query) => Ok(Statement::Query(query)),
            Err(error) => Err(error),
        };
    }
    if cursor.eat_keyword("create") {
        return create_statement(cursor);
    }
    if cursor.eat_keyword("drop") {
        return drop_statement(cursor);
    }
    if cursor.eat_keyword("use") {
        return use_statement(cursor);
    }
    if cursor.eat_keyword("insert") {
        return insert_statement(cursor);
    }
    Err(cursor.error("a statement"))
}

/// Parses a statement. Nothing but white space and one semicolon may
/// follow it. What comes back is the statement that the text is; a text
/// that is no statement gives an error at a place within it. Where a
/// statement stands at the start and something follows it, the error is
/// at the place of what follows and expects the end of the statement.
pub fn parse(sql: &str) -> (r: Result<Statement, ParserError>)
    ensures
        match r {
            Ok(statement) => spec_parse(sql.spec_bytes()) == Some(statement_model(statement)),
            Err(_) => spec_parse(sql.spec_bytes()) is None,
        },
        r matches Err(ParserError::Syntax { position, expected: _ }) ==> position
            <= sql.spec_bytes().len(),
        spec_statement(sql.spec_bytes(), 0) matches Some((_, end)) ==> (r matches Err(
            ParserError::Syntax { position, expected },
        ) ==> position == after_end(sql.spec_bytes(), end) && expected@
            == "the end of the statement"@),
{
    let mut cursor = Cursor::new(sql.as_bytes());
    let parsed = match statement(&mut cursor) {
        Ok(parsed) => parsed,
        Err(error) => {
            return Err(cursor.error_like(error));
        },
    };
    cursor.skip_space();
    if cursor.eat_token(";") {
        cursor.skip_space();
    }
    if cursor.at_end() {
        Ok(parsed)
    } else {
        Err(cursor.error("the end of the statement"))
    }
}

} // verus!
