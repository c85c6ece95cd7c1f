//! The evaluation of scalar expressions over a row.

use vstd::prelude::*;
use crate::ast::expr::Expression;
use crate::ast::model::{lemma_models_of, model, models_of, ExpressionModel};
use crate::data::{Datum, Session, Value};
use crate::data::tuple_iter::tuple_view;
use crate::functions::Function;

verus! {

/// The value of a compiled expression over a row.
///
/// A constant is its value, a column reference the value of the column,
/// null where the row has no such column, and a function call the function
/// applied to the values of its arguments. What is not compiled (a function
/// or a column known by name only, a cast) and an aggregate have no value
/// over a row: they give null.
pub open spec fn eval_expression(expr: Expression, row: Seq<Value>) -> Value
    decreases expr, 0int,
{
    match expr {
        Expression::Constant(datum, _) => datum@,
        Expression::CompiledColumnReference(column) => if column.offset < row.len() {
            row[column.offset as int]
        } else {
            Value::Null
        },
        Expression::CompiledFunctionCall(function_call) => function_call.function.spec_execute(
            function_call.signature.ret,
            eval_expressions(function_call.args@, row, function_call.args@.len() as int),
        ),
        _ => Value::Null,
    }
}

/// The values of the first `n` expressions of a list over a row.
pub open spec fn eval_expressions(list: Seq<Expression>, row: Seq<Value>, n: int) -> Seq<Value>
    decreases list, n,
{
    if n <= 0 || n > list.len() {
        Seq::empty()
    } else {
        eval_expressions(list, row, n - 1).push(eval_expression(list[n - 1], row))
    }
}

pub proof fn lemma_eval_expressions_len(list: Seq<Expression>, row: Seq<Value>, n: int)
    requires
        0 <= n <= list.len(),
    ensures
        eval_expressions(list, row, n).len() == n,
    decreases n,
{
    if n > 0 {
        lemma_eval_expressions_len(list, row, n - 1);
    }
}

pub trait EvalScalar {
    /// Evaluates an expression as a scalar context
    fn eval_scalar(&self, session: &Session, row: &[Datum]) -> (r: Datum<'static>);
}

impl EvalScalar for Expression {
    /// Evaluates an expression over a row. The datum that comes back owns
    /// its bytes.
    fn eval_scalar(&self, session: &Session, row: &[Datum]) -> (r: Datum<'static>)
        ensures
            r@ == eval_expression(*self, tuple_view(row@)),
        decreases self,
    {
        match self {
            Expression::Constant(datum, _) => datum.as_static(),
            Expression::CompiledColumnReference(column) => {
                if column.offset < row.len() {
                    row[column.offset].as_static()
                } else {
                    Datum::Null
                }
            },
            Expression::CompiledFunctionCall(function_call) => {
                let args = eval_list(&function_call.args, session, row);
                function_call.function.execute(session, &*function_call.signature, args.as_slice())
            },
            // These should be compiled away by this point
            _ => Datum::Null,
        }
    }
}

/// Evaluates a list of expressions over a row.
pub fn eval_list(list: &Vec<Expression>, session: &Session, row: &[Datum]) -> (r: Vec<
    Datum<'static>,
>)
    ensures
        tuple_view(r@) == eval_expressions(list@, tuple_view(row@), list@.len() as int),
        r@.len() == list@.len(),
    decreases list,
{
    let mut r: Vec<Datum<'static>> = Vec::new();
    let mut i: usize = 0;
    assert(tuple_view(r@) =~= Seq::empty());
    while i < list.len()
        invariant
            i <= list@.len(),
            r@.len() == i,
            tuple_view(r@) == eval_expressions(list@, tuple_view(row@), i as int),
        decreases list@.len() - i,
    {
        proof {
            vstd::std_specs::vec::axiom_vec_index_decreases(*list, i as int);
        }
        let v = list[i].eval_scalar(session, row);
        proof {
            crate::data::tuple_iter::lemma_tuple_view_push(r@, v);
        }
        r.push(v);
        i += 1;
    }
    r
}

pub trait EvalScalarRow {
    /// Evaluates a "row" of expressions over a source row into `target`.
    fn eval_scalar(&self, session: &Session, source: &[Datum], target: &mut Vec<Datum<'static>>);
}

impl EvalScalarRow for Vec<Expression> {
    fn eval_scalar(&self, session: &Session, source: &[Datum], target: &mut Vec<Datum<'static>>)
        ensures
            tuple_view(final(target)@) == eval_expressions(
                self@,
                tuple_view(source@),
                self@.len() as int,
            ),
            final(target)@.len() == self@.len(),
    {
        *target = eval_list(self, session, source);
    }
}

/// The value of a compiled expression over a row, from its model.
pub open spec fn model_value(m: ExpressionModel, row: Seq<Value>) -> Value
    decreases m, 0int,
{
    match m {
        ExpressionModel::Constant(value, _) => value,
        ExpressionModel::CompiledColumnReference(offset, _) => if offset < row.len() {
            row[offset as int]
        } else {
            Value::Null
        },
        ExpressionModel::CompiledFunctionCall(function, args, signature) => function.spec_execute(
            signature.ret,
            model_values(args, row, args.len() as int),
        ),
        _ => Value::Null,
    }
}

/// The values of the first `n` expressions of a list over a row, from
/// their models.
pub open spec fn model_values(list: Seq<ExpressionModel>, row: Seq<Value>, n: int) -> Seq<Value>
    decreases list, n,
{
    if n <= 0 || n > list.len() {
        Seq::empty()
    } else {
        model_values(list, row, n - 1).push(model_value(list[n - 1], row))
    }
}

/// The value of an expression is the value of its model.
pub proof fn lemma_model_value(expr: Expression, row: Seq<Value>)
    ensures
        model_value(model(expr), row) == eval_expression(expr, row),
    decreases expr, 0int,
{
    match expr {
        Expression::CompiledFunctionCall(call) => {
            lemma_models_of(call.args@);
            lemma_model_values(call.args@, row, call.args@.len() as int);
        },
        _ => {},
    }
}

/// The values of the expressions of a list are the values of their
/// models.
pub proof fn lemma_model_values(list: Seq<Expression>, row: Seq<Value>, n: int)
    requires
        0 <= n <= list.len(),
    ensures
        model_values(models_of(list), row, n) == eval_expressions(list, row, n),
    decreases list, n,
{
    lemma_models_of(list);
    if n > 0 {
        vstd::seq::axiom_seq_index_decreases(list, n - 1);
        lemma_model_values(list, row, n - 1);
        lemma_model_value(list[n - 1], row);
    }
}

} // verus!
