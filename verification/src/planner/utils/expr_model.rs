//! The helpers on expressions, stated over the models of expressions,
//! and what ties them to the helpers themselves.

use vstd::prelude::*;
use crate::ast::expr::Expression;
use crate::ast::model::{
    lemma_models_of,
    lemma_same_model,
    model,
    models,
    models_of,
    ExpressionModel,
    SignatureModel,
};
use crate::data::{DataType, Datum, Value};
use crate::functions::ScalarFunction;
use crate::planner::utils::expr::{
    conjuncts,
    is_combined,
    merge_ranges,
    moved_offset,
    replaced,
    replaced_all,
    spec_min_max,
    spec_min_max_list,
    Substitution,
};

verus! {

/// The models of two lists, one after the other.
pub proof fn lemma_models_concat(a: Seq<Expression>, b: Seq<Expression>)
    ensures
        models_of(a + b) == models_of(a) + models_of(b),
{
    lemma_models_of(a);
    lemma_models_of(b);
    lemma_models_of(a + b);
    assert(models_of(a + b) =~= models_of(a) + models_of(b));
}

/// The models of a list of one expression.
pub proof fn lemma_models_one(e: Expression)
    ensures
        models_of(seq![e]) == seq![model(e)],
{
    lemma_models_of(seq![e]);
    assert(models_of(seq![e]) =~= seq![model(e)]);
}

/// The models of a list without its first expressions.
pub proof fn lemma_models_skip(list: Seq<Expression>, n: int)
    requires
        0 <= n <= list.len(),
    ensures
        models_of(list.skip(n)) == models_of(list).skip(n),
{
    lemma_models_of(list);
    lemma_models_of(list.skip(n));
    assert(models_of(list.skip(n)) =~= models_of(list).skip(n));
}

/// The models of a list without its last expression.
pub proof fn lemma_models_drop_last(list: Seq<Expression>)
    requires
        list.len() > 0,
    ensures
        models_of(list.drop_last()) == models_of(list).drop_last(),
        models_of(list).last() == model(list.last()),
{
    lemma_models_of(list);
    lemma_models_of(list.drop_last());
    assert(models_of(list.drop_last()) =~= models_of(list).drop_last());
}

/// The conjuncts of a predicate, from its model.
pub open spec fn model_conjuncts(m: ExpressionModel) -> Seq<ExpressionModel>
    decreases m,
{
    match m {
        ExpressionModel::CompiledFunctionCall(f, args, _) => if f == ScalarFunction::And
            && args.len() == 2 {
            model_conjuncts(args[0]) + model_conjuncts(args[1])
        } else {
            seq![m]
        },
        ExpressionModel::Constant(Value::Boolean(true), _) => Seq::empty(),
        _ => seq![m],
    }
}

/// The models of the conjuncts of a predicate are the conjuncts of its
/// model.
pub proof fn lemma_conjuncts_model(e: Expression)
    ensures
        models_of(conjuncts(e)) == model_conjuncts(model(e)),
    decreases e,
{
    match e {
        Expression::CompiledFunctionCall(f) => {
            lemma_models_of(f.args@);
            if f.function == ScalarFunction::And && f.args@.len() == 2 {
                vstd::seq::axiom_seq_index_decreases(f.args@, 0);
                vstd::seq::axiom_seq_index_decreases(f.args@, 1);
                lemma_conjuncts_model(f.args@[0]);
                lemma_conjuncts_model(f.args@[1]);
                lemma_models_concat(conjuncts(f.args@[0]), conjuncts(f.args@[1]));
            } else {
                lemma_models_one(e);
            }
        },
        Expression::Constant(d, _) => {
            if d == Datum::Boolean(true) {
                lemma_models_of(Seq::<Expression>::empty());
                assert(models_of(Seq::<Expression>::empty()) =~= Seq::<ExpressionModel>::empty());
            } else {
                lemma_models_one(e);
            }
        },
        _ => {
            lemma_models_one(e);
        },
    }
}

/// The conjunction of a list of predicates, from their models.
pub open spec fn model_combine(list: Seq<ExpressionModel>) -> ExpressionModel
    decreases list.len(),
{
    if list.len() == 0 {
        ExpressionModel::Constant(Value::Boolean(true), DataType::Boolean)
    } else if list.len() == 1 {
        list[0]
    } else {
        ExpressionModel::CompiledFunctionCall(
            ScalarFunction::And,
            seq![list[0], model_combine(list.skip(1))],
            SignatureModel {
                name: "and"@,
                args: seq![DataType::Boolean, DataType::Boolean],
                ret: DataType::Boolean,
            },
        )
    }
}

/// The model of the conjunction of predicates is the conjunction of
/// their models.
pub proof fn lemma_combined_model(r: Expression, predicates: Seq<Expression>)
    requires
        is_combined(r, predicates),
    ensures
        model(r) == model_combine(models_of(predicates)),
    decreases predicates.len(),
{
    lemma_models_of(predicates);
    if predicates.len() >= 2 {
        let f = r->CompiledFunctionCall_0;
        lemma_combined_model(f.args@[1], predicates.skip(1));
        lemma_models_skip(predicates, 1);
        lemma_models_of(f.args@);
        assert(models_of(f.args@) =~= seq![
            models_of(predicates)[0],
            model_combine(models_of(predicates).skip(1)),
        ]);
    }
}

/// The smallest and the largest column offset that an expression refers
/// to, from its model.
pub open spec fn model_min_max(m: ExpressionModel) -> Option<(usize, usize)>
    decreases m, 0int,
{
    match m {
        ExpressionModel::CompiledColumnReference(offset, _) => Some((offset, offset)),
        ExpressionModel::FunctionCall(_, args) => model_min_max_list(args, args.len() as int),
        ExpressionModel::CompiledFunctionCall(_, args, _) => model_min_max_list(
            args,
            args.len() as int,
        ),
        ExpressionModel::CompiledAggregate(_, args, _) => model_min_max_list(
            args,
            args.len() as int,
        ),
        ExpressionModel::Cast(inner, _) => model_min_max(*inner),
        _ => None,
    }
}

/// The range of offsets that the first `n` expressions of a list refer
/// to, from their models.
pub open spec fn model_min_max_list(list: Seq<ExpressionModel>, n: int) -> Option<(usize, usize)>
    decreases list, n,
{
    if n <= 0 || n > list.len() {
        None
    } else {
        merge_ranges(model_min_max_list(list, n - 1), model_min_max(list[n - 1]))
    }
}

/// The offsets that an expression refers to are those that its model
/// refers to.
pub proof fn lemma_min_max_model(e: Expression)
    ensures
        spec_min_max(e) == model_min_max(model(e)),
    decreases e, 0int,
{
    match e {
        Expression::FunctionCall(f) => {
            lemma_models_of(f.args@);
            lemma_min_max_models(f.args@, f.args@.len() as int);
        },
        Expression::CompiledFunctionCall(f) => {
            lemma_models_of(f.args@);
            lemma_min_max_models(f.args@, f.args@.len() as int);
        },
        Expression::CompiledAggregate(f) => {
            lemma_models_of(f.args@);
            lemma_min_max_models(f.args@, f.args@.len() as int);
        },
        Expression::Cast(c) => {
            lemma_min_max_model(*c.expr);
        },
        _ => {},
    }
}

/// The offsets that the first expressions of a list refer to are those
/// that their models refer to.
pub proof fn lemma_min_max_models(list: Seq<Expression>, n: int)
    requires
        0 <= n <= list.len(),
    ensures
        spec_min_max_list(list, n) == model_min_max_list(models_of(list), n),
    decreases list, n,
{
    lemma_models_of(list);
    if n > 0 {
        vstd::seq::axiom_seq_index_decreases(list, n - 1);
        lemma_min_max_models(list, n - 1);
        lemma_min_max_model(list[n - 1]);
    }
}

/// What takes the place of the references to columns in an expression,
/// over models.
pub enum ModelSubstitution {
    /// The offset of each column moves by a distance.
    Moved(int),
    /// The column at an offset gives way to the expression at that place
    /// of a list. A reference past the end of the list stays.
    Inlined(Seq<ExpressionModel>),
}

/// A substitution over models.
pub open spec fn substitution_model(how: Substitution) -> ModelSubstitution {
    match how {
        Substitution::Moved(by) => ModelSubstitution::Moved(by),
        Substitution::Inlined(list) => ModelSubstitution::Inlined(models_of(list)),
    }
}

/// An expression with its references to columns replaced, from its
/// model.
pub open spec fn model_substitute(m: ExpressionModel, how: ModelSubstitution) -> ExpressionModel
    decreases m, 0int,
{
    match m {
        ExpressionModel::CompiledColumnReference(offset, datatype) => match how {
            ModelSubstitution::Moved(by) => ExpressionModel::CompiledColumnReference(
                moved_offset(offset, by),
                datatype,
            ),
            ModelSubstitution::Inlined(list) => if offset < list.len() {
                list[offset as int]
            } else {
                m
            },
        },
        ExpressionModel::FunctionCall(name, args) => ExpressionModel::FunctionCall(
            name,
            model_substitute_all(args, how, args.len() as int),
        ),
        ExpressionModel::CompiledFunctionCall(f, args, signature) => ExpressionModel::CompiledFunctionCall(
            f,
            model_substitute_all(args, how, args.len() as int),
            signature,
        ),
        ExpressionModel::CompiledAggregate(f, args, signature) => ExpressionModel::CompiledAggregate(
            f,
            model_substitute_all(args, how, args.len() as int),
            signature,
        ),
        ExpressionModel::Cast(inner, datatype) => ExpressionModel::Cast(
            Box::new(model_substitute(*inner, how)),
            datatype,
        ),
        _ => m,
    }
}

/// The first `n` expressions of a list with their references to columns
/// replaced, from their models.
pub open spec fn model_substitute_all(
    list: Seq<ExpressionModel>,
    how: ModelSubstitution,
    n: int,
) -> Seq<ExpressionModel>
    decreases list, n,
{
    if n <= 0 || n > list.len() {
        Seq::empty()
    } else {
        model_substitute_all(list, how, n - 1).push(model_substitute(list[n - 1], how))
    }
}

/// The model of an expression with its columns replaced is its model with
/// the columns replaced.
pub proof fn lemma_replaced_model(a: Expression, b: Expression, how: Substitution)
    requires
        replaced(a, b, how),
    ensures
        model(b) == model_substitute(model(a), substitution_model(how)),
    decreases a, 0int,
{
    match a {
        Expression::CompiledColumnReference(c) => {
            match how {
                Substitution::Inlined(list) => {
                    lemma_models_of(list);
                    if c.offset < list.len() {
                        lemma_same_model(list[c.offset as int], b);
                    }
                },
                _ => {},
            }
        },
        Expression::FunctionCall(f) => {
            let g = b->FunctionCall_0;
            lemma_models_of(f.args@);
            lemma_replaced_models(f.args@, g.args@, how, f.args@.len() as int);
        },
        Expression::CompiledFunctionCall(f) => {
            let g = b->CompiledFunctionCall_0;
            lemma_models_of(f.args@);
            lemma_replaced_models(f.args@, g.args@, how, f.args@.len() as int);
        },
        Expression::CompiledAggregate(f) => {
            let g = b->CompiledAggregate_0;
            lemma_models_of(f.args@);
            lemma_replaced_models(f.args@, g.args@, how, f.args@.len() as int);
        },
        Expression::Cast(c) => {
            lemma_replaced_model(*c.expr, *b->Cast_0.expr, how);
        },
        _ => {},
    }
}

/// The models of expressions with their columns replaced are their
/// models with the columns replaced.
pub proof fn lemma_replaced_models(
    a: Seq<Expression>,
    b: Seq<Expression>,
    how: Substitution,
    n: int,
)
    requires
        replaced_all(a, b, how, n),
        0 <= n <= a.len(),
    ensures
        a.len() == b.len(),
        models(b, n) == model_substitute_all(models_of(a), substitution_model(how), n),
    decreases a, n,
{
    lemma_models_of(a);
    if n > 0 {
        vstd::seq::axiom_seq_index_decreases(a, n - 1);
        lemma_replaced_models(a, b, how, n - 1);
        lemma_replaced_model(a[n - 1], b[n - 1], how);
    }
}

} // verus!
