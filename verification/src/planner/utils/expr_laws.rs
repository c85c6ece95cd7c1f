//! What the helpers on expressions keep: the value of an expression over a
//! row, and whether a predicate holds.

use vstd::prelude::*;
use crate::ast::expr::{same_expression, Expression};
use crate::ast::model::lemma_same_model;
use crate::data::Value;
use crate::executor::expression::{
    eval_expression,
    eval_expressions,
    lemma_eval_expressions_len,
    lemma_model_value,
};
use crate::planner::utils::expr::{
    conjuncts,
    is_combined,
    moved_offset,
    replaced,
    replaced_all,
    spec_min_max,
    spec_min_max_list,
    Substitution,
};

verus! {

/// Whether a predicate holds over a row: its value is true.
pub open spec fn holds(predicate: Expression, row: Seq<Value>) -> bool {
    eval_expression(predicate, row) == Value::Boolean(true)
}

/// Whether every predicate of a list holds over a row.
pub open spec fn all_hold(predicates: Seq<Expression>, row: Seq<Value>) -> bool {
    forall|i: int| 0 <= i < predicates.len() ==> holds(#[trigger] predicates[i], row)
}

/// The value of the column at an offset of a row; null where the row has
/// no such column.
pub open spec fn column_value(row: Seq<Value>, offset: usize) -> Value {
    if offset < row.len() {
        row[offset as int]
    } else {
        Value::Null
    }
}

/// The values of the expressions of a list, place by place.
pub proof fn lemma_eval_expressions_at(list: Seq<Expression>, row: Seq<Value>, n: int, k: int)
    requires
        0 <= k < n <= list.len(),
    ensures
        eval_expressions(list, row, n).len() == n,
        eval_expressions(list, row, n)[k] == eval_expression(list[k], row),
    decreases n,
{
    lemma_eval_expressions_len(list, row, n);
    lemma_eval_expressions_len(list, row, n - 1);
    if k < n - 1 {
        lemma_eval_expressions_at(list, row, n - 1, k);
    }
}

/// Expressions that are the same have the same value over every row.
pub proof fn lemma_same_value(a: Expression, b: Expression, row: Seq<Value>)
    requires
        same_expression(a, b),
    ensures
        eval_expression(a, row) == eval_expression(b, row),
{
    lemma_same_model(a, b);
    lemma_model_value(a, row);
    lemma_model_value(b, row);
}

/// A predicate holds over a row exactly where each of its conjuncts
/// does.
pub proof fn lemma_conjuncts_hold(predicate: Expression, row: Seq<Value>)
    ensures
        holds(predicate, row) <==> all_hold(conjuncts(predicate), row),
    decreases predicate,
{
    match predicate {
        Expression::CompiledFunctionCall(f) => {
            if f.function == crate::functions::ScalarFunction::And && f.args@.len() == 2 {
                let first = f.args@[0];
                let second = f.args@[1];
                vstd::seq::axiom_seq_index_decreases(f.args@, 0);
                vstd::seq::axiom_seq_index_decreases(f.args@, 1);
                lemma_conjuncts_hold(first, row);
                lemma_conjuncts_hold(second, row);
                lemma_eval_expressions_at(f.args@, row, 2, 0);
                lemma_eval_expressions_at(f.args@, row, 2, 1);
                let parts = conjuncts(first) + conjuncts(second);
                if all_hold(parts, row) {
                    assert forall|i: int| 0 <= i < conjuncts(first).len() implies holds(
                        #[trigger] conjuncts(first)[i],
                        row,
                    ) by {
                        assert(parts[i] == conjuncts(first)[i]);
                    }
                    assert forall|i: int| 0 <= i < conjuncts(second).len() implies holds(
                        #[trigger] conjuncts(second)[i],
                        row,
                    ) by {
                        assert(parts[conjuncts(first).len() + i] == conjuncts(second)[i]);
                    }
                }
                if all_hold(conjuncts(first), row) && all_hold(conjuncts(second), row) {
                    assert forall|i: int| 0 <= i < parts.len() implies holds(
                        #[trigger] parts[i],
                        row,
                    ) by {
                        if i < conjuncts(first).len() {
                            assert(parts[i] == conjuncts(first)[i]);
                        } else {
                            assert(parts[i] == conjuncts(second)[i - conjuncts(first).len()]);
                        }
                    }
                }
            } else {
                assert(conjuncts(predicate)[0] == predicate);
            }
        },
        Expression::Constant(d, _) => {
            if d != crate::data::Datum::Boolean(true) {
                assert(conjuncts(predicate)[0] == predicate);
            }
        },
        _ => {
            assert(conjuncts(predicate)[0] == predicate);
        },
    }
}

/// The conjunction of predicates holds over a row exactly where each of
/// them does.
pub proof fn lemma_combined_holds(r: Expression, predicates: Seq<Expression>, row: Seq<Value>)
    requires
        is_combined(r, predicates),
    ensures
        holds(r, row) <==> all_hold(predicates, row),
    decreases predicates.len(),
{
    if predicates.len() == 1 {
        assert(predicates[0] == r);
    } else if predicates.len() >= 2 {
        let f = r->CompiledFunctionCall_0;
        let rest = predicates.skip(1);
        lemma_combined_holds(f.args@[1], rest, row);
        lemma_eval_expressions_at(f.args@, row, 2, 0);
        lemma_eval_expressions_at(f.args@, row, 2, 1);
        if all_hold(predicates, row) {
            assert(holds(predicates[0], row));
            assert forall|i: int| 0 <= i < rest.len() implies holds(#[trigger] rest[i], row) by {
                assert(rest[i] == predicates[i + 1]);
            }
        }
        if holds(f.args@[0], row) && all_hold(rest, row) {
            assert forall|i: int| 0 <= i < predicates.len() implies holds(
                #[trigger] predicates[i],
                row,
            ) by {
                if i > 0 {
                    assert(predicates[i] == rest[i - 1]);
                }
            }
        }
    }
}

/// The offsets that an expression of a list refers to lie among those
/// that the list refers to.
pub proof fn lemma_min_max_within(list: Seq<Expression>, n: int, k: int)
    requires
        0 <= k < n <= list.len(),
    ensures
        spec_min_max(list[k]) matches Some((min, max)) ==> (spec_min_max_list(
            list,
            n,
        ) matches Some((low, high)) && low <= min && max <= high),
    decreases n,
{
    if k < n - 1 {
        lemma_min_max_within(list, n - 1, k);
    }
}

/// Moving the columns of an expression keeps its value, over rows in
/// which each column that the expression refers to stands at the place
/// that its offset moves to.
pub proof fn lemma_moved_value(
    a: Expression,
    b: Expression,
    by: int,
    row_a: Seq<Value>,
    row_b: Seq<Value>,
    low: usize,
)
    requires
        replaced(a, b, Substitution::Moved(by)),
        forall|offset: usize|
            low <= offset ==> column_value(row_a, offset) == #[trigger] column_value(
                row_b,
                moved_offset(offset, by),
            ),
        spec_min_max(a) matches Some((min, _)) ==> low <= min,
    ensures
        eval_expression(b, row_b) == eval_expression(a, row_a),
    decreases a, 0int,
{
    match a {
        Expression::CompiledColumnReference(c) => {
            assert(column_value(row_a, c.offset) == column_value(
                row_b,
                moved_offset(c.offset, by),
            ));
        },
        Expression::CompiledFunctionCall(f) => {
            let g = b->CompiledFunctionCall_0;
            lemma_moved_values(f.args@, g.args@, by, row_a, row_b, low, f.args@.len() as int);
        },
        _ => {},
    }
}

/// Moving the columns of the expressions of a list keeps their values.
pub proof fn lemma_moved_values(
    a: Seq<Expression>,
    b: Seq<Expression>,
    by: int,
    row_a: Seq<Value>,
    row_b: Seq<Value>,
    low: usize,
    n: int,
)
    requires
        0 <= n <= a.len(),
        replaced_all(a, b, Substitution::Moved(by), n),
        forall|offset: usize|
            low <= offset ==> column_value(row_a, offset) == #[trigger] column_value(
                row_b,
                moved_offset(offset, by),
            ),
        spec_min_max_list(a, a.len() as int) matches Some((min, _)) ==> low <= min,
    ensures
        a.len() == b.len(),
        eval_expressions(b, row_b, n) == eval_expressions(a, row_a, n),
    decreases a, n,
{
    if n > 0 {
        vstd::seq::axiom_seq_index_decreases(a, n - 1);
        lemma_moved_values(a, b, by, row_a, row_b, low, n - 1);
        lemma_min_max_within(a, a.len() as int, n - 1);
        lemma_moved_value(a[n - 1], b[n - 1], by, row_a, row_b, low);
    }
}

/// Putting the expressions of a projection in the place of the columns
/// of an expression gives, over the row that the projection reads, the
/// value that the expression has over the row that the projection puts
/// out. The expression has to refer to columns of the projection only.
pub proof fn lemma_inlined_value(
    a: Expression,
    b: Expression,
    projection: Seq<Expression>,
    row: Seq<Value>,
)
    requires
        replaced(a, b, Substitution::Inlined(projection)),
        spec_min_max(a) matches Some((_, max)) ==> max < projection.len(),
    ensures
        eval_expression(b, row) == eval_expression(
            a,
            eval_expressions(projection, row, projection.len() as int),
        ),
    decreases a, 0int,
{
    let projected = eval_expressions(projection, row, projection.len() as int);
    match a {
        Expression::CompiledColumnReference(c) => {
            lemma_eval_expressions_at(projection, row, projection.len() as int, c.offset as int);
            lemma_same_value(projection[c.offset as int], b, row);
        },
        Expression::CompiledFunctionCall(f) => {
            let g = b->CompiledFunctionCall_0;
            lemma_inlined_values(f.args@, g.args@, projection, row, f.args@.len() as int);
        },
        _ => {},
    }
}

/// Putting the expressions of a projection in the place of the columns
/// of the expressions of a list keeps their values in the same way.
pub proof fn lemma_inlined_values(
    a: Seq<Expression>,
    b: Seq<Expression>,
    projection: Seq<Expression>,
    row: Seq<Value>,
    n: int,
)
    requires
        0 <= n <= a.len(),
        replaced_all(a, b, Substitution::Inlined(projection), n),
        spec_min_max_list(a, a.len() as int) matches Some((_, max)) ==> max < projection.len(),
    ensures
        a.len() == b.len(),
        eval_expressions(b, row, n) == eval_expressions(
            a,
            eval_expressions(projection, row, projection.len() as int),
            n,
        ),
    decreases a, n,
{
    if n > 0 {
        vstd::seq::axiom_seq_index_decreases(a, n - 1);
        lemma_inlined_values(a, b, projection, row, n - 1);
        lemma_min_max_within(a, a.len() as int, n - 1);
        lemma_inlined_value(a[n - 1], b[n - 1], projection, row);
    }
}

} // verus!
