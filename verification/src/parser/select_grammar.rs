//! The grammar of queries: what is read at a place of a text, as the
//! model of a plan, and where it ends.

use vstd::prelude::*;
use vstd::string::StringSliceAdditionalSpecFns;
use crate::ast::model::{ExpressionModel, NamedModel, SortModel};
use crate::parser::atoms::{keyword_at};
use crate::parser::expression_grammar::{
    keyword_end,
    spec_comma_sep,
    spec_expression,
    spec_named_expression,
    spec_sort_expression,
    token_end,
};
use crate::parser::grammar::{after_space, spec_as_clause, spec_integer, spec_qualified_reference};
use crate::planner::plan_model::PlanModel;

verus! {

/// Named expressions with commas between them, at a place.
pub open spec fn spec_named_list(input: Seq<u8>, pos: int, depth: nat) -> Option<
    (Seq<NamedModel>, int),
> {
    match spec_named_expression(input, pos, depth) {
        None => None,
        Some((first, end)) => spec_named_tail(input, end, seq![first], depth),
    }
}

/// More named expressions, each after a comma, after those that were
/// read.
pub open spec fn spec_named_tail(
    input: Seq<u8>,
    pos: int,
    list: Seq<NamedModel>,
    depth: nat,
) -> Option<(Seq<NamedModel>, int)>
    decreases input.len() - pos,
{
    match token_end(input, after_space(input, pos), ",".spec_bytes()) {
        None => Some((list, pos)),
        Some(comma) => match spec_named_expression(input, after_space(input, comma), depth) {
            None => None,
            Some((next, end)) => if pos < end <= input.len() {
                spec_named_tail(input, end, list.push(next), depth)
            } else {
                Some((list.push(next), end))
            },
        },
    }
}

/// Sort expressions with commas between them, at a place.
pub open spec fn spec_sort_list(input: Seq<u8>, pos: int, depth: nat) -> Option<
    (Seq<SortModel>, int),
> {
    match spec_sort_expression(input, pos, depth) {
        None => None,
        Some((first, end)) => spec_sort_tail(input, end, seq![first], depth),
    }
}

/// More sort expressions, each after a comma, after those that were read.
pub open spec fn spec_sort_tail(
    input: Seq<u8>,
    pos: int,
    list: Seq<SortModel>,
    depth: nat,
) -> Option<(Seq<SortModel>, int)>
    decreases input.len() - pos,
{
    match token_end(input, after_space(input, pos), ",".spec_bytes()) {
        None => Some((list, pos)),
        Some(comma) => match spec_sort_expression(input, after_space(input, comma), depth) {
            None => None,
            Some((next, end)) => if pos < end <= input.len() {
                spec_sort_tail(input, end, list.push(next), depth)
            } else {
                Some((list.push(next), end))
            },
        },
    }
}

/// A table by its name, under an alias that is its name.
pub open spec fn spec_table(input: Seq<u8>, pos: int) -> Option<(PlanModel, int)> {
    match spec_qualified_reference(input, pos) {
        Some((database, table, end)) => Some(
            (
                PlanModel::TableAlias(
                    table,
                    Box::new(PlanModel::TableReference(database, table)),
                ),
                end,
            ),
        ),
        None => None,
    }
}

/// A source under the alias that follows it, or as it is where none does.
pub open spec fn spec_aliased(input: Seq<u8>, pos: int, source: PlanModel) -> (PlanModel, int) {
    match spec_as_clause(input, pos) {
        Some((alias, end)) => (PlanModel::TableAlias(alias, Box::new(source)), end),
        None => (source, pos),
    }
}

/// The predicate of a `WHERE` clause, at the keyword.
pub open spec fn spec_where_clause(input: Seq<u8>, pos: int, depth: nat) -> Option<
    (ExpressionModel, int),
> {
    match keyword_end(input, pos, "where".spec_bytes()) {
        None => None,
        Some(after) => spec_expression(input, after_space(input, after), depth),
    }
}

/// The keys of a `GROUP BY` clause, at the keyword.
pub open spec fn spec_group_by_clause(input: Seq<u8>, pos: int, depth: nat) -> Option<
    (Seq<ExpressionModel>, int),
> {
    match keyword_end(input, pos, "group".spec_bytes()) {
        None => None,
        Some(after) => match keyword_end(input, after_space(input, after), "by".spec_bytes()) {
            None => None,
            Some(after_by) => spec_comma_sep(input, after_space(input, after_by), depth),
        },
    }
}

/// The sort expressions of an `ORDER BY` clause, at the keyword.
pub open spec fn spec_order_clause(input: Seq<u8>, pos: int, depth: nat) -> Option<
    (Seq<SortModel>, int),
> {
    match keyword_end(input, pos, "order".spec_bytes()) {
        None => None,
        Some(after) => match keyword_end(input, after_space(input, after), "by".spec_bytes()) {
            None => None,
            Some(after_by) => spec_sort_list(input, after_space(input, after_by), depth),
        },
    }
}

/// The offset and the limit of a `LIMIT` clause, at the keyword: `LIMIT
/// offset, limit`, `LIMIT limit OFFSET offset`, or `LIMIT limit`.
pub open spec fn spec_limit_clause(input: Seq<u8>, pos: int) -> Option<(i64, i64, int)> {
    match keyword_end(input, pos, "limit".spec_bytes()) {
        None => None,
        Some(after) => match spec_integer(input, after_space(input, after)) {
            None => None,
            Some((first, at)) => {
                let next = after_space(input, at);
                match token_end(input, next, ",".spec_bytes()) {
                    Some(comma) => match spec_integer(input, after_space(input, comma)) {
                        Some((limit, end)) => Some((first, limit, end)),
                        None => None,
                    },
                    None => match keyword_end(input, next, "offset".spec_bytes()) {
                        Some(after_offset) => match spec_integer(
                            input,
                            after_space(input, after_offset),
                        ) {
                            Some((offset, end)) => Some((offset, first, end)),
                            None => None,
                        },
                        None => Some((0, first, at)),
                    },
                }
            },
        }
    }
}

/// A query under the limit that follows it, or as it is where none does.
pub open spec fn spec_with_limit(input: Seq<u8>, pos: int, query: PlanModel) -> Option<
    (PlanModel, int),
> {
    let start = after_space(input, pos);
    if keyword_at(input, start, "limit".spec_bytes()) {
        match spec_limit_clause(input, start) {
            Some((offset, limit, end)) => Some(
                (PlanModel::Limit(offset, limit, Box::new(query)), end),
            ),
            None => None,
        }
    } else {
        Some((query, pos))
    }
}

/// A query under the sort that follows it, and then the limit.
pub open spec fn spec_with_order(input: Seq<u8>, pos: int, query: PlanModel, depth: nat) -> Option<
    (PlanModel, int),
> {
    let start = after_space(input, pos);
    if keyword_at(input, start, "order".spec_bytes()) {
        match spec_order_clause(input, start, depth) {
            Some((expressions, end)) => spec_with_limit(
                input,
                end,
                PlanModel::Sort(expressions, Box::new(query)),
            ),
            None => None,
        }
    } else {
        spec_with_limit(input, pos, query)
    }
}

/// The output of a query over its source: a grouping where `GROUP BY`
/// follows, a projection where it does not; and then the sort and the
/// limit.
pub open spec fn spec_with_group(
    input: Seq<u8>,
    pos: int,
    expressions: Seq<NamedModel>,
    source: PlanModel,
    depth: nat,
) -> Option<(PlanModel, int)> {
    let start = after_space(input, pos);
    if keyword_at(input, start, "group".spec_bytes()) {
        match spec_group_by_clause(input, start, depth) {
            Some((keys, end)) => spec_with_order(
                input,
                end,
                PlanModel::GroupBy(expressions, keys, Box::new(source)),
                depth,
            ),
            None => None,
        }
    } else {
        spec_with_order(input, pos, PlanModel::Project(false, expressions, Box::new(source)), depth)
    }
}

/// The source of a query under the filter that follows it, and then its
/// output.
pub open spec fn spec_with_where(
    input: Seq<u8>,
    pos: int,
    expressions: Seq<NamedModel>,
    source: PlanModel,
    depth: nat,
) -> Option<(PlanModel, int)> {
    let start = after_space(input, pos);
    if keyword_at(input, start, "where".spec_bytes()) {
        match spec_where_clause(input, start, depth) {
            Some((predicate, end)) => spec_with_group(
                input,
                end,
                expressions,
                PlanModel::Filter(predicate, Box::new(source)),
                depth,
            ),
            None => None,
        }
    } else {
        spec_with_group(input, pos, expressions, source, depth)
    }
}

/// Takes the sort and the limit off the top of the last of several
/// queries, to put them on top of the union of them all.
pub open spec fn spec_lift_order(sources: Seq<PlanModel>) -> PlanModel {
    if sources.len() == 0 {
        PlanModel::UnionAll(sources)
    } else {
        let rest = sources.drop_last();
        match sources.last() {
            PlanModel::Limit(offset, limit, limited) => match *limited {
                PlanModel::Sort(expressions, sorted) => PlanModel::Limit(
                    offset,
                    limit,
                    Box::new(
                        PlanModel::Sort(
                            expressions,
                            Box::new(PlanModel::UnionAll(rest.push(*sorted))),
                        ),
                    ),
                ),
                other => PlanModel::Limit(
                    offset,
                    limit,
                    Box::new(PlanModel::UnionAll(rest.push(other))),
                ),
            },
            PlanModel::Sort(expressions, sorted) => PlanModel::Sort(
                expressions,
                Box::new(PlanModel::UnionAll(rest.push(*sorted))),
            ),
            other => PlanModel::UnionAll(rest.push(other)),
        }
    }
}

/// Select expressions with `UNION ALL` between them, at a place. A sort
/// or a limit after the last of several holds for them all.
pub open spec fn spec_select_at(input: Seq<u8>, pos: int, depth: nat) -> Option<(PlanModel, int)>
    decreases depth, 6int, 0int,
{
    match spec_select_expr(input, pos, depth) {
        None => None,
        Some((first, end)) => match spec_union_tail(input, end, seq![first], depth) {
            None => None,
            Some((list, after)) => if list.len() == 1 {
                Some((list[0], after))
            } else {
                Some((spec_lift_order(list), after))
            },
        },
    }
}

/// One more select expression after `UNION ALL`, and the place after
/// it; none and the place itself where no `UNION` follows.
pub open spec fn spec_union_step(input: Seq<u8>, pos: int, depth: nat) -> Option<
    (Option<PlanModel>, int),
>
    decreases depth, 4int, 0int,
{
    match keyword_end(input, after_space(input, pos), "union".spec_bytes()) {
        None => Some((None, pos)),
        Some(after) => match keyword_end(input, after_space(input, after), "all".spec_bytes()) {
            None => None,
            Some(after_all) => match spec_select_expr(input, after_space(input, after_all), depth) {
                None => None,
                Some((next, end)) => Some((Some(next), end)),
            },
        },
    }
}

/// More select expressions, each after `UNION ALL`, after those that
/// were read, as long as reading moves on.
pub open spec fn spec_union_tail(
    input: Seq<u8>,
    pos: int,
    list: Seq<PlanModel>,
    depth: nat,
) -> Option<(Seq<PlanModel>, int)>
    decreases depth, 5int, input.len() - pos,
{
    match spec_union_step(input, pos, depth) {
        None => None,
        Some((None, end)) => Some((list, end)),
        Some((Some(next), end)) => if pos < end <= input.len() {
            spec_union_tail(input, end, list.push(next), depth)
        } else {
            Some((list.push(next), end))
        },
    }
}

/// A select expression: `SELECT`, the output, and then the source, the
/// filter, the grouping, the sort and the limit, each where it is
/// written.
pub open spec fn spec_select_expr(input: Seq<u8>, pos: int, depth: nat) -> Option<(PlanModel, int)>
    decreases depth, 3int, 0int,
{
    match keyword_end(input, pos, "select".spec_bytes()) {
        None => None,
        Some(after) => match spec_named_list(input, after_space(input, after), depth) {
            None => None,
            Some((expressions, end)) => spec_with_from(input, end, expressions, depth),
        },
    }
}

/// The source of a query, where `FROM` follows, or one empty row; and
/// then what follows the source.
pub open spec fn spec_with_from(
    input: Seq<u8>,
    pos: int,
    expressions: Seq<NamedModel>,
    depth: nat,
) -> Option<(PlanModel, int)>
    decreases depth, 2int, 0int,
{
    let start = after_space(input, pos);
    if keyword_at(input, start, "from".spec_bytes()) {
        match spec_from_clause(input, start, depth) {
            Some((source, end)) => spec_with_where(input, end, expressions, source, depth),
            None => None,
        }
    } else {
        spec_with_where(input, pos, expressions, PlanModel::Single, depth)
    }
}

/// The source of a `FROM` clause, at the keyword.
pub open spec fn spec_from_clause(input: Seq<u8>, pos: int, depth: nat) -> Option<(PlanModel, int)>
    decreases depth, 1int, 1int,
{
    match keyword_end(input, pos, "from".spec_bytes()) {
        None => None,
        Some(after) => spec_from_item(input, after_space(input, after), depth),
    }
}

/// A source: a query in parentheses or a table, under an alias or
/// without.
pub open spec fn spec_from_item(input: Seq<u8>, pos: int, depth: nat) -> Option<(PlanModel, int)>
    decreases depth, 1int, 0int,
{
    match token_end(input, pos, "(".spec_bytes()) {
        Some(open) => if depth == 0 {
            None
        } else {
            match spec_select_at(input, after_space(input, open), (depth - 1) as nat) {
                None => None,
                Some((sub_query, end)) => match token_end(
                    input,
                    after_space(input, end),
                    ")".spec_bytes(),
                ) {
                    None => None,
                    Some(close) => Some(spec_aliased(input, close, sub_query)),
                },
            }
        },
        None => match spec_table(input, pos) {
            None => None,
            Some((table, end)) => Some(spec_aliased(input, end, table)),
        },
    }
}

} // verus!
