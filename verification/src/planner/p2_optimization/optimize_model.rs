//! What optimization gives, stated over the models of plans, and what
//! ties it to the optimizing functions.

use vstd::prelude::*;
use crate::ast::expr::{Expression, NamedExpression, SortExpression};
use crate::ast::model::{
    lemma_models_of,
    lemma_same_models,
    model,
    models,
    models_of,
    named_models,
    sort_models,
    ExpressionModel,
    NamedModel,
    SortModel,
};
use crate::ast::rel::logical::{JoinType, LogicalOperator};
use crate::executor::expression::{lemma_model_value, model_value};
use crate::planner::p2_optimization::fold_constants::{
    foldable,
    foldable_all,
    folded,
    folded_all,
    folded_named,
    folded_plan,
    folded_plans,
    folded_sort,
};
use crate::planner::p2_optimization::optimized;
use crate::planner::p2_optimization::predicate_pushdown::{
    filter_around,
    goes_to,
    placed,
    pushed,
    pushed_all,
    pushed_copy,
    right_shift,
    share,
    Side,
};
use crate::planner::p4_pit_planning::expressions_of;
use crate::planner::plan_model::{
    lemma_model_fields,
    lemma_plan_models_of,
    model_fields,
    plan_model,
    plan_models,
    plan_models_of,
    PlanModel,
};
use crate::planner::utils::expr::{conjuncts, Substitution};
use crate::planner::utils::expr_model::{
    lemma_combined_model,
    lemma_conjuncts_model,
    lemma_min_max_model,
    lemma_models_concat,
    lemma_models_drop_last,
    lemma_replaced_models,
    model_combine,
    model_conjuncts,
    model_min_max,
    model_substitute_all,
    ModelSubstitution,
};

verus! {

/// Whether an expression comes to a constant, from its model.
pub open spec fn model_foldable(m: ExpressionModel) -> bool
    decreases m, 0int,
{
    match m {
        ExpressionModel::Constant(_, _) => true,
        ExpressionModel::CompiledFunctionCall(_, args, _) => model_foldable_all(
            args,
            args.len() as int,
        ),
        _ => false,
    }
}

/// Whether the first `n` expressions of a list come to constants, from
/// their models.
pub open spec fn model_foldable_all(list: Seq<ExpressionModel>, n: int) -> bool
    decreases list, n,
{
    if n <= 0 || n > list.len() {
        true
    } else {
        model_foldable_all(list, n - 1) && model_foldable(list[n - 1])
    }
}

/// An expression comes to a constant exactly where its model does.
pub proof fn lemma_foldable_model(e: Expression)
    ensures
        foldable(e) == model_foldable(model(e)),
    decreases e, 0int,
{
    match e {
        Expression::CompiledFunctionCall(call) => {
            lemma_models_of(call.args@);
            lemma_foldable_models(call.args@, call.args@.len() as int);
        },
        _ => {},
    }
}

/// The first expressions of a list come to constants exactly where
/// their models do.
pub proof fn lemma_foldable_models(list: Seq<Expression>, n: int)
    requires
        0 <= n <= list.len(),
    ensures
        foldable_all(list, n) == model_foldable_all(models_of(list), n),
    decreases list, n,
{
    lemma_models_of(list);
    if n > 0 {
        vstd::seq::axiom_seq_index_decreases(list, n - 1);
        lemma_foldable_models(list, n - 1);
        lemma_foldable_model(list[n - 1]);
    }
}

/// An expression with its constants folded, from its model.
pub open spec fn model_fold(m: ExpressionModel) -> ExpressionModel
    decreases m, 0int,
{
    match m {
        ExpressionModel::CompiledFunctionCall(f, args, signature) => if model_foldable(m) {
            ExpressionModel::Constant(model_value(m, Seq::empty()), signature.ret)
        } else {
            ExpressionModel::CompiledFunctionCall(
                f,
                model_fold_all(args, args.len() as int),
                signature,
            )
        },
        ExpressionModel::CompiledAggregate(f, args, signature) => ExpressionModel::CompiledAggregate(
            f,
            model_fold_all(args, args.len() as int),
            signature,
        ),
        _ => m,
    }
}

/// The first `n` expressions of a list with their constants folded, from
/// their models.
pub open spec fn model_fold_all(list: Seq<ExpressionModel>, n: int) -> Seq<ExpressionModel>
    decreases list, n,
{
    if n <= 0 || n > list.len() {
        Seq::empty()
    } else {
        model_fold_all(list, n - 1).push(model_fold(list[n - 1]))
    }
}

/// The model of an expression with its constants folded is its model
/// with the constants folded.
pub proof fn lemma_folded_model(e: Expression, r: Expression)
    requires
        folded(e, r),
    ensures
        model(r) == model_fold(model(e)),
    decreases e, 0int,
{
    match e {
        Expression::CompiledFunctionCall(call) => {
            lemma_foldable_model(e);
            lemma_models_of(call.args@);
            if foldable(e) {
                lemma_model_value(e, Seq::empty());
            } else {
                let g = r->CompiledFunctionCall_0;
                lemma_folded_models(call.args@, g.args@, call.args@.len() as int);
            }
        },
        Expression::CompiledAggregate(call) => {
            let g = r->CompiledAggregate_0;
            lemma_models_of(call.args@);
            lemma_folded_models(call.args@, g.args@, call.args@.len() as int);
        },
        _ => {},
    }
}

/// The models of expressions with their constants folded are their
/// models with the constants folded.
pub proof fn lemma_folded_models(list: Seq<Expression>, r: Seq<Expression>, n: int)
    requires
        folded_all(list, r, n),
        0 <= n <= list.len(),
    ensures
        list.len() == r.len(),
        models(r, n) == model_fold_all(models_of(list), n),
    decreases list, n,
{
    lemma_models_of(list);
    if n > 0 {
        vstd::seq::axiom_seq_index_decreases(list, n - 1);
        lemma_folded_models(list, r, n - 1);
        lemma_folded_model(list[n - 1], r[n - 1]);
    }
}

/// Named expressions with their constants folded, from their models.
pub open spec fn model_fold_named(list: Seq<NamedModel>) -> Seq<NamedModel> {
    Seq::new(
        list.len(),
        |i: int| NamedModel { alias: list[i].alias, expression: model_fold(list[i].expression) },
    )
}

/// Sort expressions with their constants folded, from their models.
pub open spec fn model_fold_sort(list: Seq<SortModel>) -> Seq<SortModel> {
    Seq::new(
        list.len(),
        |i: int| SortModel { ordering: list[i].ordering, expression: model_fold(list[i].expression) },
    )
}

/// A plan with the constants of its expressions folded, from its model.
pub open spec fn model_fold_plan(plan: PlanModel) -> PlanModel
    decreases plan, 0int,
{
    match plan {
        PlanModel::Project(distinct, expressions, source) => PlanModel::Project(
            distinct,
            model_fold_named(expressions),
            Box::new(model_fold_plan(*source)),
        ),
        PlanModel::GroupBy(expressions, keys, source) => PlanModel::GroupBy(
            model_fold_named(expressions),
            model_fold_all(keys, keys.len() as int),
            Box::new(model_fold_plan(*source)),
        ),
        PlanModel::Filter(predicate, source) => PlanModel::Filter(
            model_fold(predicate),
            Box::new(model_fold_plan(*source)),
        ),
        PlanModel::Limit(offset, limit, source) => PlanModel::Limit(
            offset,
            limit,
            Box::new(model_fold_plan(*source)),
        ),
        PlanModel::Sort(expressions, source) => PlanModel::Sort(
            model_fold_sort(expressions),
            Box::new(model_fold_plan(*source)),
        ),
        PlanModel::UnionAll(sources) => PlanModel::UnionAll(
            model_fold_plans(sources, sources.len() as int),
        ),
        PlanModel::TableAlias(alias, source) => PlanModel::TableAlias(
            alias,
            Box::new(model_fold_plan(*source)),
        ),
        PlanModel::TableInsert(table, source) => PlanModel::TableInsert(
            table,
            Box::new(model_fold_plan(*source)),
        ),
        PlanModel::NegateFreq(source) => PlanModel::NegateFreq(Box::new(model_fold_plan(*source))),
        PlanModel::Join(left, right, on, join_type) => PlanModel::Join(
            Box::new(model_fold_plan(*left)),
            Box::new(model_fold_plan(*right)),
            model_fold(on),
            join_type,
        ),
        _ => plan,
    }
}

/// The first `n` plans of a list with their constants folded, from their
/// models.
pub open spec fn model_fold_plans(list: Seq<PlanModel>, n: int) -> Seq<PlanModel>
    decreases list, n,
{
    if n <= 0 || n > list.len() {
        Seq::empty()
    } else {
        model_fold_plans(list, n - 1).push(model_fold_plan(list[n - 1]))
    }
}

/// The models of named expressions with their constants folded.
pub proof fn lemma_folded_named_model(list: Seq<NamedExpression>, r: Seq<NamedExpression>)
    requires
        folded_named(list, r),
    ensures
        named_models(r) == model_fold_named(named_models(list)),
{
    assert forall|i: int| 0 <= i < list.len() implies #[trigger] named_models(r)[i]
        == model_fold_named(named_models(list))[i] by {
        assert(r[i].alias == list[i].alias);
        lemma_folded_model(list[i].expression, r[i].expression);
    }
    assert(named_models(r) =~= model_fold_named(named_models(list)));
}

/// The models of sort expressions with their constants folded.
pub proof fn lemma_folded_sort_model(list: Seq<SortExpression>, r: Seq<SortExpression>)
    requires
        folded_sort(list, r),
    ensures
        sort_models(r) == model_fold_sort(sort_models(list)),
{
    assert forall|i: int| 0 <= i < list.len() implies #[trigger] sort_models(r)[i]
        == model_fold_sort(sort_models(list))[i] by {
        assert(r[i].ordering == list[i].ordering);
        lemma_folded_model(list[i].expression, r[i].expression);
    }
    assert(sort_models(r) =~= model_fold_sort(sort_models(list)));
}

/// The model of a plan with its constants folded is its model with the
/// constants folded.
pub proof fn lemma_folded_plan_model(operator: LogicalOperator, r: LogicalOperator)
    requires
        folded_plan(operator, r),
    ensures
        plan_model(r) == model_fold_plan(plan_model(operator)),
    decreases operator, 0int,
{
    match operator {
        LogicalOperator::Project(p) => {
            let q = r->Project_0;
            lemma_folded_named_model(p.expressions@, q.expressions@);
            lemma_folded_plan_model(*p.source, *q.source);
        },
        LogicalOperator::GroupBy(g) => {
            let q = r->GroupBy_0;
            lemma_folded_named_model(g.expressions@, q.expressions@);
            lemma_models_of(g.key_expressions@);
            lemma_folded_models(
                g.key_expressions@,
                q.key_expressions@,
                g.key_expressions@.len() as int,
            );
            lemma_folded_plan_model(*g.source, *q.source);
        },
        LogicalOperator::Filter(f) => {
            let q = r->Filter_0;
            lemma_folded_model(f.predicate, q.predicate);
            lemma_folded_plan_model(*f.source, *q.source);
        },
        LogicalOperator::Limit(l) => {
            lemma_folded_plan_model(*l.source, *r->Limit_0.source);
        },
        LogicalOperator::Sort(s) => {
            let q = r->Sort_0;
            lemma_folded_sort_model(s.sort_expressions@, q.sort_expressions@);
            lemma_folded_plan_model(*s.source, *q.source);
        },
        LogicalOperator::UnionAll(u) => {
            let q = r->UnionAll_0;
            lemma_plan_models_of(u.sources@);
            lemma_folded_plans_model(u.sources@, q.sources@, u.sources@.len() as int);
        },
        LogicalOperator::TableAlias(a) => {
            lemma_folded_plan_model(*a.source, *r->TableAlias_0.source);
        },
        LogicalOperator::TableInsert(t) => {
            lemma_folded_plan_model(*t.source, *r->TableInsert_0.source);
        },
        LogicalOperator::NegateFreq(source) => {
            lemma_folded_plan_model(*source, *r->NegateFreq_0);
        },
        LogicalOperator::Join(j) => {
            let q = r->Join_0;
            lemma_folded_model(j.on, q.on);
            lemma_folded_plan_model(*j.left, *q.left);
            lemma_folded_plan_model(*j.right, *q.right);
        },
        _ => {},
    }
}

/// The models of plans with their constants folded are their models with
/// the constants folded.
pub proof fn lemma_folded_plans_model(
    list: Seq<LogicalOperator>,
    r: Seq<LogicalOperator>,
    n: int,
)
    requires
        folded_plans(list, r, n),
        0 <= n <= list.len(),
    ensures
        list.len() == r.len(),
        plan_models(r, n) == model_fold_plans(plan_models_of(list), n),
    decreases list, n,
{
    lemma_plan_models_of(list);
    if n > 0 {
        vstd::seq::axiom_seq_index_decreases(list, n - 1);
        lemma_folded_plans_model(list, r, n - 1);
        lemma_folded_plan_model(list[n - 1], r[n - 1]);
    }
}

/// Whether a predicate goes to a side of a join, from its model.
pub open spec fn model_goes_to(
    predicate: ExpressionModel,
    left_len: usize,
    join_type: JoinType,
    from_above: bool,
    side: Side,
) -> bool {
    match model_min_max(predicate) {
        None => if join_type is Inner || from_above {
            side is Left || side is Right
        } else {
            side is Right
        },
        Some((min, max)) => if join_type is Inner {
            if max < left_len {
                side is Left
            } else if min >= left_len {
                side is Right
            } else {
                side is Keep
            }
        } else if from_above {
            if max < left_len {
                side is Left
            } else {
                side is Wrap
            }
        } else {
            if min >= left_len {
                side is Right
            } else {
                side is Keep
            }
        },
    }
}

/// The predicates of a list that go to a side of a join, in their order,
/// from their models.
pub open spec fn model_placed(
    list: Seq<ExpressionModel>,
    left_len: usize,
    join_type: JoinType,
    from_above: bool,
    side: Side,
) -> Seq<ExpressionModel>
    decreases list.len(),
{
    if list.len() == 0 {
        Seq::empty()
    } else {
        let before = model_placed(list.drop_last(), left_len, join_type, from_above, side);
        if model_goes_to(list.last(), left_len, join_type, from_above, side) {
            before.push(list.last())
        } else {
            before
        }
    }
}

/// What goes to a side of a join, from the models: of the predicates
/// from above, and then of the conjuncts of its condition.
pub open spec fn model_share(
    predicates: Seq<ExpressionModel>,
    on: ExpressionModel,
    left_len: usize,
    join_type: JoinType,
    side: Side,
) -> Seq<ExpressionModel> {
    model_placed(predicates, left_len, join_type, true, side) + model_placed(
        model_conjuncts(on),
        left_len,
        join_type,
        false,
        side,
    )
}

/// The models of the predicates that go to a side of a join.
pub proof fn lemma_placed_model(
    list: Seq<Expression>,
    left_len: usize,
    join_type: JoinType,
    from_above: bool,
    side: Side,
)
    ensures
        models_of(placed(list, left_len, join_type, from_above, side)) == model_placed(
            models_of(list),
            left_len,
            join_type,
            from_above,
            side,
        ),
    decreases list.len(),
{
    lemma_models_of(list);
    if list.len() == 0 {
        lemma_models_of(Seq::<Expression>::empty());
        assert(models_of(Seq::<Expression>::empty()) =~= Seq::<ExpressionModel>::empty());
    } else {
        lemma_placed_model(list.drop_last(), left_len, join_type, from_above, side);
        lemma_models_drop_last(list);
        lemma_min_max_model(list.last());
        let before = placed(list.drop_last(), left_len, join_type, from_above, side);
        if goes_to(list.last(), left_len, join_type, from_above, side) {
            crate::ast::model::lemma_models_push(before, list.last());
        }
    }
}

/// The models of what goes to a side of a join.
pub proof fn lemma_share_model(
    predicates: Seq<Expression>,
    on: Expression,
    left_len: usize,
    join_type: JoinType,
    side: Side,
)
    ensures
        models_of(share(predicates, on, left_len, join_type, side)) == model_share(
            models_of(predicates),
            model(on),
            left_len,
            join_type,
            side,
        ),
{
    lemma_placed_model(predicates, left_len, join_type, true, side);
    lemma_placed_model(conjuncts(on), left_len, join_type, false, side);
    lemma_conjuncts_model(on);
    lemma_models_concat(
        placed(predicates, left_len, join_type, true, side),
        placed(conjuncts(on), left_len, join_type, false, side),
    );
}

/// A plan in a filter on the conjunction of predicates; the plan itself
/// where there are none.
pub open spec fn model_wrap(plan: PlanModel, predicates: Seq<ExpressionModel>) -> PlanModel {
    if predicates.len() == 0 {
        plan
    } else {
        PlanModel::Filter(model_combine(predicates), Box::new(plan))
    }
}

/// The model of an operator in a filter.
pub proof fn lemma_wrap_model(r: LogicalOperator, predicates: Seq<Expression>)
    requires
        filter_around(r, predicates) is Some,
    ensures
        plan_model(r) == model_wrap(
            plan_model(filter_around(r, predicates)->Some_0),
            models_of(predicates),
        ),
{
    lemma_models_of(predicates);
    if predicates.len() > 0 {
        lemma_combined_model(r->Filter_0.predicate, predicates);
    }
}

/// The expressions of an output without their names, from their models.
pub open spec fn model_expressions(named: Seq<NamedModel>) -> Seq<ExpressionModel> {
    Seq::new(named.len(), |i: int| named[i].expression)
}

/// The models of the expressions of an output.
pub proof fn lemma_expressions_model(named: Seq<NamedExpression>)
    ensures
        models_of(expressions_of(named)) == model_expressions(named_models(named)),
{
    lemma_models_of(expressions_of(named));
    assert(models_of(expressions_of(named)) =~= model_expressions(named_models(named)));
}

/// A plan with predicates pushed into it as far as they go, from its
/// model.
pub open spec fn model_push(plan: PlanModel, predicates: Seq<ExpressionModel>) -> PlanModel
    decreases plan, 0int,
{
    match plan {
        PlanModel::Filter(predicate, source) => model_push(
            *source,
            predicates + model_conjuncts(predicate),
        ),
        PlanModel::Sort(expressions, source) => PlanModel::Sort(
            expressions,
            Box::new(model_push(*source, predicates)),
        ),
        PlanModel::NegateFreq(source) => PlanModel::NegateFreq(
            Box::new(model_push(*source, predicates)),
        ),
        PlanModel::Project(distinct, expressions, source) => PlanModel::Project(
            distinct,
            expressions,
            Box::new(
                model_push(
                    *source,
                    model_substitute_all(
                        predicates,
                        ModelSubstitution::Inlined(model_expressions(expressions)),
                        predicates.len() as int,
                    ),
                ),
            ),
        ),
        PlanModel::UnionAll(sources) => PlanModel::UnionAll(
            model_push_all(sources, predicates, sources.len() as int),
        ),
        PlanModel::Join(left, right, on, join_type) => {
            let left_len = model_fields(*left).len() as usize;
            let to_right = model_share(predicates, on, left_len, join_type, Side::Right);
            model_wrap(
                PlanModel::Join(
                    Box::new(
                        model_push(
                            *left,
                            model_share(predicates, on, left_len, join_type, Side::Left),
                        ),
                    ),
                    Box::new(
                        model_push(
                            *right,
                            model_substitute_all(
                                to_right,
                                ModelSubstitution::Moved(right_shift(left_len)),
                                to_right.len() as int,
                            ),
                        ),
                    ),
                    model_combine(model_share(predicates, on, left_len, join_type, Side::Keep)),
                    join_type,
                ),
                model_share(predicates, on, left_len, join_type, Side::Wrap),
            )
        },
        PlanModel::GroupBy(expressions, keys, source) => model_wrap(
            PlanModel::GroupBy(expressions, keys, Box::new(model_push(*source, Seq::empty()))),
            predicates,
        ),
        PlanModel::Limit(offset, limit, source) => model_wrap(
            PlanModel::Limit(offset, limit, Box::new(model_push(*source, Seq::empty()))),
            predicates,
        ),
        PlanModel::TableAlias(alias, source) => model_wrap(
            PlanModel::TableAlias(alias, Box::new(model_push(*source, Seq::empty()))),
            predicates,
        ),
        PlanModel::TableInsert(table, source) => model_wrap(
            PlanModel::TableInsert(table, Box::new(model_push(*source, Seq::empty()))),
            predicates,
        ),
        _ => model_wrap(plan, predicates),
    }
}

/// The first `n` plans of a list, each with the predicates pushed into
/// it, from their models.
pub open spec fn model_push_all(
    sources: Seq<PlanModel>,
    predicates: Seq<ExpressionModel>,
    n: int,
) -> Seq<PlanModel>
    decreases sources, n,
{
    if n <= 0 || n > sources.len() {
        Seq::empty()
    } else {
        model_push_all(sources, predicates, n - 1).push(model_push(sources[n - 1], predicates))
    }
}

/// The model of an operator with predicates pushed into it is its model
/// with the models of the predicates pushed into it.
pub proof fn lemma_pushed_model(
    operator: LogicalOperator,
    predicates: Seq<Expression>,
    r: LogicalOperator,
)
    requires
        pushed(operator, predicates, r),
    ensures
        plan_model(r) == model_push(plan_model(operator), models_of(predicates)),
    decreases operator, 0int,
{
    lemma_models_of(predicates);
    lemma_models_of(Seq::<Expression>::empty());
    assert(models_of(Seq::<Expression>::empty()) =~= Seq::<ExpressionModel>::empty());
    match operator {
        LogicalOperator::Filter(f) => {
            lemma_conjuncts_model(f.predicate);
            lemma_models_concat(predicates, conjuncts(f.predicate));
            lemma_pushed_model(*f.source, predicates + conjuncts(f.predicate), r);
        },
        LogicalOperator::Sort(s) => {
            lemma_pushed_model(*s.source, predicates, *r->Sort_0.source);
        },
        LogicalOperator::NegateFreq(source) => {
            lemma_pushed_model(*source, predicates, *r->NegateFreq_0);
        },
        LogicalOperator::Project(p) => {
            let q = r->Project_0;
            let inlined = choose|inlined: Seq<Expression>|
                #[trigger] inlined.len() == predicates.len() && crate::planner::utils::expr::replaced_all(
                    predicates,
                    inlined,
                    Substitution::Inlined(expressions_of(p.expressions@)),
                    predicates.len() as int,
                ) && pushed(*p.source, inlined, *q.source);
            lemma_replaced_models(
                predicates,
                inlined,
                Substitution::Inlined(expressions_of(p.expressions@)),
                predicates.len() as int,
            );
            lemma_expressions_model(p.expressions@);
            lemma_models_of(inlined);
            lemma_pushed_model(*p.source, inlined, *q.source);
        },
        LogicalOperator::UnionAll(u) => {
            let q = r->UnionAll_0;
            lemma_plan_models_of(u.sources@);
            lemma_pushed_all_model(u.sources@, predicates, q.sources@, u.sources@.len() as int);
        },
        LogicalOperator::Join(j) => {
            let left_len = crate::planner::utils::logical::spec_fields(*j.left).len() as usize;
            lemma_model_fields(*j.left);
            let to_left = share(predicates, j.on, left_len, j.join_type, Side::Left);
            let to_right = share(predicates, j.on, left_len, j.join_type, Side::Right);
            let keep = share(predicates, j.on, left_len, j.join_type, Side::Keep);
            let wrap = share(predicates, j.on, left_len, j.join_type, Side::Wrap);
            lemma_share_model(predicates, j.on, left_len, j.join_type, Side::Left);
            lemma_share_model(predicates, j.on, left_len, j.join_type, Side::Right);
            lemma_share_model(predicates, j.on, left_len, j.join_type, Side::Keep);
            lemma_share_model(predicates, j.on, left_len, j.join_type, Side::Wrap);
            let joined = filter_around(r, wrap)->Some_0;
            let q = joined->Join_0;
            lemma_wrap_model(r, wrap);
            lemma_combined_model(q.on, keep);
            let left = choose|left: Seq<Expression>|
                #[trigger] left.len() == to_left.len() && crate::ast::expr::same_expressions(
                    to_left,
                    left,
                    left.len() as int,
                ) && pushed(*j.left, left, *q.left);
            let right = choose|right: Seq<Expression>|
                #[trigger] right.len() == to_right.len() && crate::planner::utils::expr::replaced_all(
                    to_right,
                    right,
                    Substitution::Moved(right_shift(left_len)),
                    right.len() as int,
                ) && pushed(*j.right, right, *q.right);
            lemma_same_models(to_left, left, to_left.len() as int);
            lemma_replaced_models(
                to_right,
                right,
                Substitution::Moved(right_shift(left_len)),
                to_right.len() as int,
            );
            lemma_models_of(to_right);
            lemma_pushed_model(*j.left, left, *q.left);
            lemma_pushed_model(*j.right, right, *q.right);
        },
        LogicalOperator::GroupBy(g) => {
            lemma_wrap_model(r, predicates);
            let q = filter_around(r, predicates)->Some_0->GroupBy_0;
            lemma_pushed_model(*g.source, Seq::empty(), *q.source);
        },
        LogicalOperator::Limit(l) => {
            lemma_wrap_model(r, predicates);
            let q = filter_around(r, predicates)->Some_0->Limit_0;
            lemma_pushed_model(*l.source, Seq::empty(), *q.source);
        },
        LogicalOperator::TableAlias(a) => {
            lemma_wrap_model(r, predicates);
            let q = filter_around(r, predicates)->Some_0->TableAlias_0;
            lemma_pushed_model(*a.source, Seq::empty(), *q.source);
        },
        LogicalOperator::TableInsert(t) => {
            lemma_wrap_model(r, predicates);
            let q = filter_around(r, predicates)->Some_0->TableInsert_0;
            lemma_pushed_model(*t.source, Seq::empty(), *q.source);
        },
        _ => {
            lemma_wrap_model(r, predicates);
        },
    }
}

/// The models of operators with predicates pushed into them.
pub proof fn lemma_pushed_all_model(
    sources: Seq<LogicalOperator>,
    predicates: Seq<Expression>,
    results: Seq<LogicalOperator>,
    n: int,
)
    requires
        pushed_all(sources, predicates, results, n),
        0 <= n <= sources.len(),
    ensures
        sources.len() == results.len(),
        plan_models(results, n) == model_push_all(
            plan_models_of(sources),
            models_of(predicates),
            n,
        ),
    decreases sources, n,
{
    lemma_plan_models_of(sources);
    if n > 0 {
        vstd::seq::axiom_seq_index_decreases(sources, n - 1);
        lemma_pushed_all_model(sources, predicates, results, n - 1);
        lemma_pushed_copy_model(sources[n - 1], predicates, results[n - 1]);
    }
}

/// The model of an operator with a copy of the predicates pushed into it.
pub proof fn lemma_pushed_copy_model(
    source: LogicalOperator,
    predicates: Seq<Expression>,
    result: LogicalOperator,
)
    requires
        pushed_copy(source, predicates, result),
    ensures
        plan_model(result) == model_push(plan_model(source), models_of(predicates)),
    decreases source, 1int,
{
    let copy = choose|copy: Seq<Expression>|
        #[trigger] copy.len() == predicates.len() && crate::ast::expr::same_expressions(
            predicates,
            copy,
            predicates.len() as int,
        ) && pushed(source, copy, result);
    lemma_same_models(predicates, copy, predicates.len() as int);
    lemma_pushed_model(source, copy, result);
}

/// A plan optimized, from its model: its constants are folded, and in
/// what that gives the predicates are pushed down.
pub open spec fn model_optimize(plan: PlanModel) -> PlanModel {
    model_push(model_fold_plan(plan), Seq::empty())
}

/// The model of an optimized plan is the model of the plan, optimized.
pub proof fn lemma_optimized_model(query: LogicalOperator, r: LogicalOperator)
    requires
        optimized(query, r),
    ensures
        plan_model(r) == model_optimize(plan_model(query)),
{
    let folded = choose|folded: LogicalOperator| #[trigger]
        folded_plan(query, folded) && pushed(folded, Seq::empty(), r);
    lemma_folded_plan_model(query, folded);
    lemma_pushed_model(folded, Seq::empty(), r);
    lemma_models_of(Seq::<Expression>::empty());
    assert(models_of(Seq::<Expression>::empty()) =~= Seq::<ExpressionModel>::empty());
}

} // verus!
