//! Queries.

use vstd::prelude::*;
use vstd::string::StringSliceAdditionalSpecFns;
use crate::ast::expr::{Expression, NamedExpression, SortExpression};
use crate::ast::model::{
    named_model,
    named_models,
    sort_model,
    sort_models,
    NamedModel,
    SortModel,
};
use crate::ast::rel::logical::{
    Filter,
    GroupBy,
    Limit,
    LogicalOperator,
    Project,
    Sort,
    TableAlias,
    TableReference,
    UnionAll,
};
use crate::parser::atoms::{
    as_clause,
    integer,
    moved_on,
    qualified_reference,
    Cursor,
    MAX_DEPTH,
};
use crate::parser::error::ParserError;
use crate::parser::expression::{
    comma_sep_expressions,
    expression,
    named_expression,
    parsed,
    parsed_list,
    sort_expression,
};
use crate::parser::select_grammar::{
    spec_aliased,
    spec_from_clause,
    spec_from_item,
    spec_group_by_clause,
    spec_lift_order,
    spec_limit_clause,
    spec_named_list,
    spec_named_tail,
    spec_order_clause,
    spec_select_at,
    spec_select_expr,
    spec_sort_list,
    spec_sort_tail,
    spec_table,
    spec_union_step,
    spec_union_tail,
    spec_where_clause,
    spec_with_from,
    spec_with_group,
    spec_with_limit,
    spec_with_order,
    spec_with_where,
};
use crate::planner::plan_model::{
    lemma_plan_models_drop_last,
    lemma_plan_models_of,
    lemma_plan_models_push,
    plan_model,
    plan_models_of,
    PlanModel,
};

verus! {

/// What reading a query gave, with the place that reading came to.
pub open spec fn parsed_plan(r: Result<LogicalOperator, ParserError>, pos: usize) -> Option<
    (PlanModel, int),
> {
    match r {
        Ok(plan) => Some((plan_model(plan), pos as int)),
        Err(_) => None,
    }
}

/// Parses a select statement, a select statement consists of potentially multiple
/// select expressions unioned together. Returns the place in the text
/// that the statement ends at and the plan that it stands for.
pub fn select(input: &str) -> (r: Result<(usize, LogicalOperator), ParserError>)
    ensures
        match r {
            Ok((rest, plan)) => spec_select_at(input.spec_bytes(), 0, MAX_DEPTH as nat) == Some(
                (plan_model(plan), rest as int),
            ) && rest <= input.spec_bytes().len(),
            Err(_) => spec_select_at(input.spec_bytes(), 0, MAX_DEPTH as nat) is None,
        },
{
    let mut cursor = Cursor::new(input.as_bytes());
    match select_at(&mut cursor, MAX_DEPTH) {
        Ok(query) => Ok((cursor.pos, query)),
        Err(error) => Err(error),
    }
}

/// Takes the sort and the limit off the top of a query where it has
/// them, to put them on top of a union that the query is the last part of.
fn lift_order(sources: Vec<LogicalOperator>) -> (r: LogicalOperator)
    ensures
        plan_model(r) == spec_lift_order(plan_models_of(sources@)),
{
    let ghost all = sources@;
    let mut sources = sources;
    proof {
        reveal_with_fuel(plan_model, 4);
        lemma_plan_models_of(all);
    }
    let last = match sources.pop() {
        Some(last) => last,
        None => {
            return LogicalOperator::UnionAll(UnionAll { sources });
        },
    };
    let ghost rest = sources@;
    proof {
        assert(rest =~= all.drop_last());
        lemma_plan_models_drop_last(all);
    }
    match last {
        LogicalOperator::Limit(limit) => {
            match *limit.source {
                LogicalOperator::Sort(sort) => {
                    proof {
                        lemma_plan_models_push(rest, *sort.source);
                    }
                    sources.push(*sort.source);
                    LogicalOperator::Limit(
                        Limit {
                            offset: limit.offset,
                            limit: limit.limit,
                            source: Box::new(
                                LogicalOperator::Sort(
                                    Sort {
                                        sort_expressions: sort.sort_expressions,
                                        source: Box::new(
                                            LogicalOperator::UnionAll(UnionAll { sources }),
                                        ),
                                    },
                                ),
                            ),
                        },
                    )
                },
                other => {
                    proof {
                        lemma_plan_models_push(rest, other);
                    }
                    sources.push(other);
                    LogicalOperator::Limit(
                        Limit {
                            offset: limit.offset,
                            limit: limit.limit,
                            source: Box::new(LogicalOperator::UnionAll(UnionAll { sources })),
                        },
                    )
                },
            }
        },
        LogicalOperator::Sort(sort) => {
            proof {
                lemma_plan_models_push(rest, *sort.source);
            }
            sources.push(*sort.source);
            LogicalOperator::Sort(
                Sort {
                    sort_expressions: sort.sort_expressions,
                    source: Box::new(LogicalOperator::UnionAll(UnionAll { sources })),
                },
            )
        },
        other => {
            proof {
                lemma_plan_models_push(rest, other);
            }
            sources.push(other);
            LogicalOperator::UnionAll(UnionAll { sources })
        },
    }
}

/// What reading one more select expression gave, with the place that
/// reading came to.
pub open spec fn parsed_step(r: Result<Option<LogicalOperator>, ParserError>, pos: usize) -> Option<
    (Option<PlanModel>, int),
> {
    match r {
        Ok(Some(plan)) => Some((Some(plan_model(plan)), pos as int)),
        Ok(None) => Some((None, pos as int)),
        Err(_) => None,
    }
}

/// Reads one more select expression after `UNION ALL`, if there is one.
fn union_step(cursor: &mut Cursor, depth: u32) -> (r: Result<Option<LogicalOperator>, ParserError>)
    requires
        old(cursor).pos <= old(cursor).input@.len(),
    ensures
        moved_on(*old(cursor), *final(cursor)),
        parsed_step(r, final(cursor).pos) == spec_union_step(
            old(cursor).input@,
            old(cursor).pos as int,
            depth as nat,
        ),
    decreases depth, 5int,
{
    let before = cursor.pos;
    cursor.skip_space();
    if cursor.eat_keyword("union") {
        cursor.skip_space();
        if !cursor.eat_keyword("all") {
            return Err(cursor.error("ALL"));
        }
        cursor.skip_space();
        match select_expr(cursor, depth) {
            Ok(query) => Ok(Some(query)),
            Err(error) => Err(error),
        }
    } else {
        cursor.pos = before;
        Ok(None)
    }
}

/// Parses select expressions with `UNION ALL` between them. A sort or a
/// limit after the last of several holds for them all.
pub fn select_at(cursor: &mut Cursor, depth: u32) -> (r: Result<LogicalOperator, ParserError>)
    requires
        old(cursor).pos <= old(cursor).input@.len(),
    ensures
        moved_on(*old(cursor), *final(cursor)),
        parsed_plan(r, final(cursor).pos) == spec_select_at(
            old(cursor).input@,
            old(cursor).pos as int,
            depth as nat,
        ),
    decreases depth, 6int,
{
    let ghost input = cursor.input@;
    let ghost start = cursor.pos as int;
    let first = match select_expr(cursor, depth) {
        Ok(query) => query,
        Err(error) => {
            return Err(error);
        },
    };
    let ghost after_first = cursor.pos as int;
    let ghost first_plan = plan_model(first);
    let mut rest: Vec<LogicalOperator> = Vec::new();
    proof {
        lemma_plan_models_push(rest@, first);
        lemma_plan_models_of(rest@);
        assert(plan_models_of(rest@.push(first)) =~= seq![first_plan]);
    }
    rest.push(first);
    let mut go = true;
    while go
        invariant
            moved_on(*old(cursor), *cursor),
            input == old(cursor).input@,
            start == old(cursor).pos,
            rest@.len() >= 1,
            spec_select_expr(input, start, depth as nat) == Some((first_plan, after_first)),
            spec_union_tail(input, after_first, seq![first_plan], depth as nat) == if go {
                spec_union_tail(input, cursor.pos as int, plan_models_of(rest@), depth as nat)
            } else {
                Some((plan_models_of(rest@), cursor.pos as int))
            },
        decreases
                cursor.input@.len() - cursor.pos + if go {
                    1int
                } else {
                    0int
                },
    {
        let before = cursor.pos;
        match union_step(cursor, depth) {
            Ok(Some(query)) => {
                proof {
                    lemma_plan_models_push(rest@, query);
                }
                rest.push(query);
                if cursor.pos <= before {
                    go = false;
                }
            },
            Ok(None) => {
                go = false;
            },
            Err(error) => {
                return Err(error);
            },
        }
    }
    proof {
        lemma_plan_models_of(rest@);
    }
    if rest.len() == 1 {
        match rest.pop() {
            Some(only) => Ok(only),
            None => Ok(LogicalOperator::Single),
        }
    } else {
        Ok(lift_order(rest))
    }
}

/// Parses a singular select expression
fn select_expr(cursor: &mut Cursor, depth: u32) -> (r: Result<LogicalOperator, ParserError>)
    requires
        old(cursor).pos <= old(cursor).input@.len(),
    ensures
        moved_on(*old(cursor), *final(cursor)),
        parsed_plan(r, final(cursor).pos) == spec_select_expr(
            old(cursor).input@,
            old(cursor).pos as int,
            depth as nat,
        ),
    decreases depth, 4int,
{
    if !cursor.eat_keyword("select") {
        return Err(cursor.error("SELECT"));
    }
    cursor.skip_space();
    let expressions = match comma_sep_named_expressions(cursor, depth) {
        Ok(expressions) => expressions,
        Err(error) => {
            return Err(error);
        },
    };
    with_from(cursor, expressions, depth)
}

/// Reads the source of a query, where one is written, and what follows
/// it.
fn with_from(cursor: &mut Cursor, expressions: Vec<NamedExpression>, depth: u32) -> (r: Result<
    LogicalOperator,
    ParserError,
>)
    requires
        old(cursor).pos <= old(cursor).input@.len(),
    ensures
        moved_on(*old(cursor), *final(cursor)),
        parsed_plan(r, final(cursor).pos) == spec_with_from(
            old(cursor).input@,
            old(cursor).pos as int,
            named_models(expressions@),
            depth as nat,
        ),
    decreases depth, 3int,
{
    let at = cursor.pos;
    cursor.skip_space();
    if cursor.peek_keyword("from") {
        match from_clause(cursor, depth) {
            Ok(source) => with_where(cursor, expressions, source, depth),
            Err(error) => Err(error),
        }
    } else {
        cursor.pos = at;
        with_where(cursor, expressions, LogicalOperator::Single, depth)
    }
}

/// Reads the filter of a query, where one is written, and what follows
/// it.
fn with_where(
    cursor: &mut Cursor,
    expressions: Vec<NamedExpression>,
    source: LogicalOperator,
    depth: u32,
) -> (r: Result<LogicalOperator, ParserError>)
    requires
        old(cursor).pos <= old(cursor).input@.len(),
    ensures
        moved_on(*old(cursor), *final(cursor)),
        parsed_plan(r, final(cursor).pos) == spec_with_where(
            old(cursor).input@,
            old(cursor).pos as int,
            named_models(expressions@),
            plan_model(source),
            depth as nat,
        ),
{
    let at = cursor.pos;
    cursor.skip_space();
    if cursor.peek_keyword("where") {
        match where_clause(cursor, depth) {
            Ok(predicate) => with_group(
                cursor,
                expressions,
                LogicalOperator::Filter(Filter { predicate, source: Box::new(source) }),
                depth,
            ),
            Err(error) => Err(error),
        }
    } else {
        cursor.pos = at;
        with_group(cursor, expressions, source, depth)
    }
}

/// Reads the grouping of a query, where one is written, and what
/// follows it.
fn with_group(
    cursor: &mut Cursor,
    expressions: Vec<NamedExpression>,
    source: LogicalOperator,
    depth: u32,
) -> (r: Result<LogicalOperator, ParserError>)
    requires
        old(cursor).pos <= old(cursor).input@.len(),
    ensures
        moved_on(*old(cursor), *final(cursor)),
        parsed_plan(r, final(cursor).pos) == spec_with_group(
            old(cursor).input@,
            old(cursor).pos as int,
            named_models(expressions@),
            plan_model(source),
            depth as nat,
        ),
{
    let at = cursor.pos;
    cursor.skip_space();
    if cursor.peek_keyword("group") {
        match group_by_clause(cursor, depth) {
            Ok(keys) => with_order(
                cursor,
                LogicalOperator::GroupBy(
                    GroupBy { expressions, key_expressions: keys, source: Box::new(source) },
                ),
                depth,
            ),
            Err(error) => Err(error),
        }
    } else {
        cursor.pos = at;
        with_order(
            cursor,
            LogicalOperator::Project(
                Project { distinct: false, expressions, source: Box::new(source) },
            ),
            depth,
        )
    }
}

/// Reads the sort of a query, where one is written, and what follows it.
fn with_order(cursor: &mut Cursor, query: LogicalOperator, depth: u32) -> (r: Result<
    LogicalOperator,
    ParserError,
>)
    requires
        old(cursor).pos <= old(cursor).input@.len(),
    ensures
        moved_on(*old(cursor), *final(cursor)),
        parsed_plan(r, final(cursor).pos) == spec_with_order(
            old(cursor).input@,
            old(cursor).pos as int,
            plan_model(query),
            depth as nat,
        ),
{
    let at = cursor.pos;
    cursor.skip_space();
    if cursor.peek_keyword("order") {
        match order_clause(cursor, depth) {
            Ok(sort_expressions) => with_limit(
                cursor,
                LogicalOperator::Sort(Sort { sort_expressions, source: Box::new(query) }),
            ),
            Err(error) => Err(error),
        }
    } else {
        cursor.pos = at;
        with_limit(cursor, query)
    }
}

/// Reads the limit of a query, where one is written.
fn with_limit(cursor: &mut Cursor, query: LogicalOperator) -> (r: Result<
    LogicalOperator,
    ParserError,
>)
    requires
        old(cursor).pos <= old(cursor).input@.len(),
    ensures
        moved_on(*old(cursor), *final(cursor)),
        parsed_plan(r, final(cursor).pos) == spec_with_limit(
            old(cursor).input@,
            old(cursor).pos as int,
            plan_model(query),
        ),
{
    let at = cursor.pos;
    cursor.skip_space();
    if cursor.peek_keyword("limit") {
        match limit_clause(cursor) {
            Ok((offset, limit)) => Ok(
                LogicalOperator::Limit(Limit { offset, limit, source: Box::new(query) }),
            ),
            Err(error) => Err(error),
        }
    } else {
        cursor.pos = at;
        Ok(query)
    }
}

/// What reading a list of named expressions gave, with the place that
/// reading came to.
pub open spec fn parsed_named_list(r: Result<Vec<NamedExpression>, ParserError>, pos: usize) -> Option<
    (Seq<NamedModel>, int),
> {
    match r {
        Ok(list) => Some((named_models(list@), pos as int)),
        Err(_) => None,
    }
}

/// What reading a list of sort expressions gave, with the place that
/// reading came to.
pub open spec fn parsed_sort_list(r: Result<Vec<SortExpression>, ParserError>, pos: usize) -> Option<
    (Seq<SortModel>, int),
> {
    match r {
        Ok(list) => Some((sort_models(list@), pos as int)),
        Err(_) => None,
    }
}

fn comma_sep_named_expressions(cursor: &mut Cursor, depth: u32) -> (r: Result<
    Vec<NamedExpression>,
    ParserError,
>)
    requires
        old(cursor).pos <= old(cursor).input@.len(),
    ensures
        moved_on(*old(cursor), *final(cursor)),
        parsed_named_list(r, final(cursor).pos) == spec_named_list(
            old(cursor).input@,
            old(cursor).pos as int,
            depth as nat,
        ),
{
    let ghost input = cursor.input@;
    let ghost start = cursor.pos as int;
    let mut list: Vec<NamedExpression> = Vec::new();
    match named_expression(cursor, depth) {
        Ok(e) => {
            assert(named_models(list@.push(e)) =~= seq![named_model(e)]);
            list.push(e);
        },
        Err(error) => {
            return Err(error);
        },
    }
    let mut go = true;
    while go
        invariant
            moved_on(*old(cursor), *cursor),
            input == old(cursor).input@,
            start == old(cursor).pos,
            spec_named_list(input, start, depth as nat) == if go {
                spec_named_tail(input, cursor.pos as int, named_models(list@), depth as nat)
            } else {
                Some((named_models(list@), cursor.pos as int))
            },
        decreases
                cursor.input@.len() - cursor.pos + if go {
                    1int
                } else {
                    0int
                },
    {
        let before = cursor.pos;
        cursor.skip_space();
        if cursor.eat_token(",") {
            cursor.skip_space();
            match named_expression(cursor, depth) {
                Ok(e) => {
                    assert(named_models(list@.push(e)) =~= named_models(list@).push(
                        named_model(e),
                    ));
                    list.push(e);
                },
                Err(error) => {
                    return Err(error);
                },
            }
            if cursor.pos <= before {
                go = false;
            }
        } else {
            cursor.pos = before;
            go = false;
        }
    }
    Ok(list)
}

/// Parse the from clause of a query.
fn from_clause(cursor: &mut Cursor, depth: u32) -> (r: Result<LogicalOperator, ParserError>)
    requires
        old(cursor).pos <= old(cursor).input@.len(),
    ensures
        moved_on(*old(cursor), *final(cursor)),
        parsed_plan(r, final(cursor).pos) == spec_from_clause(
            old(cursor).input@,
            old(cursor).pos as int,
            depth as nat,
        ),
    decreases depth, 2int,
{
    if !cursor.eat_keyword("from") {
        return Err(cursor.error("FROM"));
    }
    cursor.skip_space();
    from_item(cursor, depth)
}

/// Puts a source under the alias that follows it, where one does.
fn aliased(cursor: &mut Cursor, source: LogicalOperator) -> (r: LogicalOperator)
    requires
        old(cursor).pos <= old(cursor).input@.len(),
    ensures
        moved_on(*old(cursor), *final(cursor)),
        (plan_model(r), final(cursor).pos as int) == spec_aliased(
            old(cursor).input@,
            old(cursor).pos as int,
            plan_model(source),
        ),
{
    match as_clause(cursor) {
        Some(alias) => LogicalOperator::TableAlias(TableAlias { alias, source: Box::new(source) }),
        None => source,
    }
}

fn from_item(cursor: &mut Cursor, depth: u32) -> (r: Result<LogicalOperator, ParserError>)
    requires
        old(cursor).pos <= old(cursor).input@.len(),
    ensures
        moved_on(*old(cursor), *final(cursor)),
        parsed_plan(r, final(cursor).pos) == spec_from_item(
            old(cursor).input@,
            old(cursor).pos as int,
            depth as nat,
        ),
    decreases depth, 1int,
{
    if cursor.eat_token("(") {
        // sub query
        if depth == 0 {
            return Err(cursor.error("a query that is nested less deeply"));
        }
        cursor.skip_space();
        let sub_query = match select_at(cursor, (depth - 1) as u32) {
            Ok(query) => query,
            Err(error) => {
                return Err(error);
            },
        };
        cursor.skip_space();
        if !cursor.eat_token(")") {
            return Err(cursor.error(")"));
        }
        Ok(aliased(cursor, sub_query))
    } else {
        let table = match table_reference_with_alias(cursor) {
            Ok(table) => table,
            Err(error) => {
                return Err(error);
            },
        };
        Ok(aliased(cursor, table))
    }
}

/// Parse the where clause of a query.
pub fn where_clause(cursor: &mut Cursor, depth: u32) -> (r: Result<Expression, ParserError>)
    requires
        old(cursor).pos <= old(cursor).input@.len(),
    ensures
        moved_on(*old(cursor), *final(cursor)),
        parsed(r, final(cursor).pos) == spec_where_clause(
            old(cursor).input@,
            old(cursor).pos as int,
            depth as nat,
        ),
{
    if !cursor.eat_keyword("where") {
        return Err(cursor.error("WHERE"));
    }
    cursor.skip_space();
    expression(cursor, depth)
}

/// Parse the group by clause of a query.
pub fn group_by_clause(cursor: &mut Cursor, depth: u32) -> (r: Result<
    Vec<Expression>,
    ParserError,
>)
    requires
        old(cursor).pos <= old(cursor).input@.len(),
    ensures
        moved_on(*old(cursor), *final(cursor)),
        parsed_list(r, final(cursor).pos) == spec_group_by_clause(
            old(cursor).input@,
            old(cursor).pos as int,
            depth as nat,
        ),
{
    if !cursor.eat_keyword("group") {
        return Err(cursor.error("GROUP"));
    }
    cursor.skip_space();
    if !cursor.eat_keyword("by") {
        return Err(cursor.error("BY"));
    }
    cursor.skip_space();
    comma_sep_expressions(cursor, depth)
}

/// Reads sort expressions with commas between them.
fn comma_sep_sort_expressions(cursor: &mut Cursor, depth: u32) -> (r: Result<
    Vec<SortExpression>,
    ParserError,
>)
    requires
        old(cursor).pos <= old(cursor).input@.len(),
    ensures
        moved_on(*old(cursor), *final(cursor)),
        parsed_sort_list(r, final(cursor).pos) == spec_sort_list(
            old(cursor).input@,
            old(cursor).pos as int,
            depth as nat,
        ),
{
    let ghost input = cursor.input@;
    let ghost start = cursor.pos as int;
    let mut list: Vec<SortExpression> = Vec::new();
    match sort_expression(cursor, depth) {
        Ok(e) => {
            assert(sort_models(list@.push(e)) =~= seq![sort_model(e)]);
            list.push(e);
        },
        Err(error) => {
            return Err(error);
        },
    }
    let mut go = true;
    while go
        invariant
            moved_on(*old(cursor), *cursor),
            input == old(cursor).input@,
            start == old(cursor).pos,
            spec_sort_list(input, start, depth as nat) == if go {
                spec_sort_tail(input, cursor.pos as int, sort_models(list@), depth as nat)
            } else {
                Some((sort_models(list@), cursor.pos as int))
            },
        decreases
                cursor.input@.len() - cursor.pos + if go {
                    1int
                } else {
                    0int
                },
    {
        let before = cursor.pos;
        cursor.skip_space();
        if cursor.eat_token(",") {
            cursor.skip_space();
            match sort_expression(cursor, depth) {
                Ok(e) => {
                    assert(sort_models(list@.push(e)) =~= sort_models(list@).push(sort_model(e)));
                    list.push(e);
                },
                Err(error) => {
                    return Err(error);
                },
            }
            if cursor.pos <= before {
                go = false;
            }
        } else {
            cursor.pos = before;
            go = false;
        }
    }
    Ok(list)
}

/// Parse the order by clause of a query.
pub fn order_clause(cursor: &mut Cursor, depth: u32) -> (r: Result<
    Vec<SortExpression>,
    ParserError,
>)
    requires
        old(cursor).pos <= old(cursor).input@.len(),
    ensures
        moved_on(*old(cursor), *final(cursor)),
        parsed_sort_list(r, final(cursor).pos) == spec_order_clause(
            old(cursor).input@,
            old(cursor).pos as int,
            depth as nat,
        ),
{
    if !cursor.eat_keyword("order") {
        return Err(cursor.error("ORDER"));
    }
    cursor.skip_space();
    if !cursor.eat_keyword("by") {
        return Err(cursor.error("BY"));
    }
    cursor.skip_space();
    comma_sep_sort_expressions(cursor, depth)
}

/// Limit clause, returns (offset, limit)
pub fn limit_clause(cursor: &mut Cursor) -> (r: Result<(i64, i64), ParserError>)
    requires
        old(cursor).pos <= old(cursor).input@.len(),
    ensures
        moved_on(*old(cursor), *final(cursor)),
        match r {
            Ok((offset, limit)) => spec_limit_clause(old(cursor).input@, old(cursor).pos as int)
                == Some((offset, limit, final(cursor).pos as int)),
            Err(_) => spec_limit_clause(old(cursor).input@, old(cursor).pos as int) is None,
        },
{
    // Theres 3 forms for limit
    // LIMIT offset, limit
    // LIMIT limit
    // LIMIT limit OFFSET offset
    if !cursor.eat_keyword("limit") {
        return Err(cursor.error("LIMIT"));
    }
    cursor.skip_space();
    let first = match integer(cursor) {
        Some(n) => n,
        None => {
            return Err(cursor.error("a number"));
        },
    };
    let at = cursor.pos;
    cursor.skip_space();
    if cursor.eat_token(",") {
        // LIMIT offset, limit
        cursor.skip_space();
        match integer(cursor) {
            Some(limit) => Ok((first, limit)),
            None => Err(cursor.error("a number")),
        }
    } else if cursor.eat_keyword("offset") {
        // LIMIT limit OFFSET offset
        cursor.skip_space();
        match integer(cursor) {
            Some(offset) => Ok((offset, first)),
            None => Err(cursor.error("a number")),
        }
    } else {
        // LIMIT limit
        cursor.pos = at;
        Ok((0, first))
    }
}

/// Parse as a table AND wrap in a Table Alias
pub fn table_reference_with_alias(cursor: &mut Cursor) -> (r: Result<
    LogicalOperator,
    ParserError,
>)
    requires
        old(cursor).pos <= old(cursor).input@.len(),
    ensures
        moved_on(*old(cursor), *final(cursor)),
        parsed_plan(r, final(cursor).pos) == spec_table(old(cursor).input@, old(cursor).pos as int),
        r matches Ok(o) ==> (o matches LogicalOperator::TableAlias(a)
            && *a.source is TableReference),
{
    proof {
        reveal_with_fuel(plan_model, 2);
    }
    match qualified_reference(cursor) {
        Some((database, table)) => {
            let table_source = LogicalOperator::TableReference(
                TableReference { database, table: table.clone() },
            );
            Ok(
                LogicalOperator::TableAlias(
                    TableAlias { alias: table, source: Box::new(table_source) },
                ),
            )
        },
        None => Err(cursor.error("a table")),
    }
}

} // verus!
