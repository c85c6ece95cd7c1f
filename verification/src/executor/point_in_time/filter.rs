use vstd::prelude::*;
use crate::ast::expr::Expression;
use crate::data::{Datum, Session, Value};
use crate::data::tuple_iter::{lemma_rows_view_push, rows_view, Row};
use crate::executor::expression::{eval_expression, EvalScalar};
use crate::executor::point_in_time::Rows;
use crate::executor::point_in_time::values::clone_tuple;

verus! {

/// The first `n` rows of a source that a predicate lets through: those for
/// which it is true. A row for which it is false or null is dropped.
pub open spec fn filter_rows(predicate: Expression, source: Rows, n: int) -> Rows
    decreases n,
{
    if n <= 0 || n > source.len() {
        Seq::empty()
    } else if eval_expression(predicate, source[n - 1].0) == Value::Boolean(true) {
        filter_rows(predicate, source, n - 1).push(source[n - 1])
    } else {
        filter_rows(predicate, source, n - 1)
    }
}

/// Keeps the rows for which the predicate evaluates to exactly true.
pub fn filter(predicate: &Expression, source: &Vec<Row>, session: &Session) -> (rows: Vec<Row>)
    ensures
        rows_view(rows@) == filter_rows(*predicate, rows_view(source@), source@.len() as int),
{
    let mut rows: Vec<Row> = Vec::new();
    let mut i: usize = 0;
    assert(rows_view(rows@) =~= Seq::empty());
    while i < source.len()
        invariant
            i <= source@.len(),
            rows_view(rows@) == filter_rows(*predicate, rows_view(source@), i as int),
        decreases source@.len() - i,
    {
        let verdict = predicate.eval_scalar(session, source[i].0.as_slice());
        if let Datum::Boolean(true) = verdict {
            let row: Row = (clone_tuple(source[i].0.as_slice()), source[i].1);
            proof {
                lemma_rows_view_push(rows@, row);
            }
            rows.push(row);
        }
        i += 1;
    }
    rows
}

} // verus!
