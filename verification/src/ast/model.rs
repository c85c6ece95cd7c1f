//! The mathematical model of expressions: trees of plain values, in which
//! two copies of an expression are one.

use vstd::prelude::*;
use crate::ast::expr::{same_expression, same_expressions, Expression, NamedExpression, SortExpression};
use crate::data::{DataType, SortOrder, Value};
use crate::functions::{AggregateFunctionKind, FunctionSignature, ScalarFunction};

verus! {

/// What a signature stands for.
pub struct SignatureModel {
    pub name: Seq<char>,
    pub args: Seq<DataType>,
    pub ret: DataType,
}

/// What an expression stands for.
pub enum ExpressionModel {
    Constant(Value, DataType),
    /// The name of the function and its arguments.
    FunctionCall(Seq<char>, Seq<ExpressionModel>),
    Cast(Box<ExpressionModel>, DataType),
    CompiledFunctionCall(ScalarFunction, Seq<ExpressionModel>, SignatureModel),
    CompiledAggregate(AggregateFunctionKind, Seq<ExpressionModel>, SignatureModel),
    /// The qualifier, the name, and whether the reference is `*`.
    ColumnReference(Option<Seq<char>>, Seq<char>, bool),
    /// The offset and the type of the column.
    CompiledColumnReference(usize, DataType),
}

/// What a named expression stands for.
pub struct NamedModel {
    pub alias: Option<Seq<char>>,
    pub expression: ExpressionModel,
}

/// What a sort expression stands for.
pub struct SortModel {
    pub ordering: SortOrder,
    pub expression: ExpressionModel,
}

/// What a text that may be missing stands for.
pub open spec fn text_model(text: Option<String>) -> Option<Seq<char>> {
    match text {
        Some(t) => Some(t@),
        None => None,
    }
}

/// The model of a signature.
pub open spec fn signature_model(signature: FunctionSignature<'static>) -> SignatureModel {
    SignatureModel { name: signature.name@, args: signature.args@, ret: signature.ret }
}

/// The model of an expression.
pub open spec fn model(expr: Expression) -> ExpressionModel
    decreases expr, 0int,
{
    match expr {
        Expression::Constant(datum, datatype) => ExpressionModel::Constant(datum@, datatype),
        Expression::FunctionCall(f) => ExpressionModel::FunctionCall(
            f.function_name@,
            models(f.args@, f.args@.len() as int),
        ),
        Expression::Cast(c) => ExpressionModel::Cast(Box::new(model(*c.expr)), c.datatype),
        Expression::CompiledFunctionCall(f) => ExpressionModel::CompiledFunctionCall(
            f.function,
            models(f.args@, f.args@.len() as int),
            signature_model(*f.signature),
        ),
        Expression::CompiledAggregate(f) => ExpressionModel::CompiledAggregate(
            f.function,
            models(f.args@, f.args@.len() as int),
            signature_model(*f.signature),
        ),
        Expression::ColumnReference(c) => ExpressionModel::ColumnReference(
            text_model(c.qualifier),
            c.alias@,
            c.star,
        ),
        Expression::CompiledColumnReference(c) => ExpressionModel::CompiledColumnReference(
            c.offset,
            c.datatype,
        ),
    }
}

/// The models of the first `n` expressions of a list.
pub open spec fn models(list: Seq<Expression>, n: int) -> Seq<ExpressionModel>
    decreases list, n,
{
    if n <= 0 || n > list.len() {
        Seq::empty()
    } else {
        models(list, n - 1).push(model(list[n - 1]))
    }
}

/// The models of the expressions of a list.
pub open spec fn models_of(list: Seq<Expression>) -> Seq<ExpressionModel> {
    models(list, list.len() as int)
}

/// The models of the first `n` expressions of a list are `n`, each the
/// model of the expression in its place.
pub proof fn lemma_models(list: Seq<Expression>, n: int)
    requires
        0 <= n <= list.len(),
    ensures
        models(list, n).len() == n,
        forall|k: int| 0 <= k < n ==> #[trigger] models(list, n)[k] == model(list[k]),
    decreases n,
{
    if n > 0 {
        lemma_models(list, n - 1);
    }
}

/// The models of a list are given place by place.
pub proof fn lemma_models_of(list: Seq<Expression>)
    ensures
        models_of(list).len() == list.len(),
        forall|k: int| 0 <= k < list.len() ==> #[trigger] models_of(list)[k] == model(list[k]),
{
    lemma_models(list, list.len() as int);
}

/// The models of a list with one more expression.
pub proof fn lemma_models_push(list: Seq<Expression>, e: Expression)
    ensures
        models_of(list.push(e)) == models_of(list).push(model(e)),
{
    lemma_models_of(list);
    lemma_models_of(list.push(e));
    assert(models_of(list.push(e)) =~= models_of(list).push(model(e)));
}

/// Expressions that are the same have one model.
pub proof fn lemma_same_model(a: Expression, b: Expression)
    requires
        same_expression(a, b),
    ensures
        model(a) == model(b),
    decreases a, 0int,
{
    match a {
        Expression::FunctionCall(f) => {
            lemma_same_models(
                f.args@,
                b->FunctionCall_0.args@,
                f.args@.len() as int,
            );
        },
        Expression::CompiledFunctionCall(f) => {
            lemma_same_models(
                f.args@,
                b->CompiledFunctionCall_0.args@,
                f.args@.len() as int,
            );
        },
        Expression::CompiledAggregate(f) => {
            lemma_same_models(
                f.args@,
                b->CompiledAggregate_0.args@,
                f.args@.len() as int,
            );
        },
        Expression::Cast(c) => {
            lemma_same_model(*c.expr, *b->Cast_0.expr);
        },
        _ => {},
    }
}

/// Lists of expressions that are the same have the same models.
pub proof fn lemma_same_models(a: Seq<Expression>, b: Seq<Expression>, n: int)
    requires
        same_expressions(a, b, n),
        0 <= n <= a.len(),
    ensures
        a.len() == b.len(),
        models(a, n) == models(b, n),
    decreases a, n,
{
    if n > 0 {
        vstd::seq::axiom_seq_index_decreases(a, n - 1);
        lemma_same_models(a, b, n - 1);
        lemma_same_model(a[n - 1], b[n - 1]);
    }
}

/// The model of a named expression.
pub open spec fn named_model(named: NamedExpression) -> NamedModel {
    NamedModel { alias: text_model(named.alias), expression: model(named.expression) }
}

/// The models of a list of named expressions.
pub open spec fn named_models(list: Seq<NamedExpression>) -> Seq<NamedModel> {
    Seq::new(list.len(), |i: int| named_model(list[i]))
}

/// The model of a sort expression.
pub open spec fn sort_model(sort: SortExpression) -> SortModel {
    SortModel { ordering: sort.ordering, expression: model(sort.expression) }
}

/// The models of a list of sort expressions.
pub open spec fn sort_models(list: Seq<SortExpression>) -> Seq<SortModel> {
    Seq::new(list.len(), |i: int| sort_model(list[i]))
}

/// The type of an expression, from its model. An expression that is not
/// compiled yet has the type null.
pub open spec fn model_type(m: ExpressionModel) -> DataType {
    match m {
        ExpressionModel::Constant(_, datatype) => datatype,
        ExpressionModel::Cast(_, datatype) => datatype,
        ExpressionModel::CompiledFunctionCall(_, _, signature) => signature.ret,
        ExpressionModel::CompiledAggregate(_, _, signature) => signature.ret,
        ExpressionModel::CompiledColumnReference(_, datatype) => datatype,
        ExpressionModel::FunctionCall(_, _) | ExpressionModel::ColumnReference(_, _, _) => DataType::Null,
    }
}

/// The types of a list of expressions, from their models.
pub open spec fn model_types(list: Seq<ExpressionModel>) -> Seq<DataType> {
    Seq::new(list.len(), |i: int| model_type(list[i]))
}

/// Whether an expression is compiled through and through, from its model.
pub open spec fn model_compiled(m: ExpressionModel) -> bool
    decreases m,
{
    match m {
        ExpressionModel::Constant(_, _) => true,
        ExpressionModel::CompiledColumnReference(_, _) => true,
        ExpressionModel::CompiledFunctionCall(_, args, _) => forall|i: int|
            0 <= i < args.len() ==> model_compiled(#[trigger] args[i]),
        ExpressionModel::CompiledAggregate(_, args, _) => forall|i: int|
            0 <= i < args.len() ==> model_compiled(#[trigger] args[i]),
        _ => false,
    }
}

} // verus!
