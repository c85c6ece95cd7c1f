//! Which plans can be lowered: validation makes a plan that can be
//! lowered unless it holds a distinct projection, and optimization keeps
//! it so.

use vstd::prelude::*;
use crate::ast::expr::Expression;
use crate::ast::rel::logical::LogicalOperator;
use crate::planner::p2_optimization::fold_constants::{
    folded_plan,
    folded_plans,
    lemma_folded_at,
};
use crate::planner::p2_optimization::optimized;
use crate::planner::p2_optimization::predicate_pushdown::{
    filter_around,
    pushed,
    pushed_all,
    pushed_copy,
    right_shift,
    share,
    Side,
};
use crate::planner::p4_pit_planning::{
    all_constants,
    expressions_of,
    lowerable,
    lowerable_all,
};
use crate::planner::plan_model::{
    lemma_plan_models_of,
    plan_model,
    plan_models_of,
    PlanModel,
};
use crate::planner::utils::expr::{conjuncts, replaced_all, Substitution};
use crate::planner::utils::logical::{
    spec_all_validated,
    spec_constant_rows,
    spec_fields,
    spec_validated,
};

verus! {

/// Whether a plan holds no distinct projection, and no grouping with
/// more keys than can be counted.
pub open spec fn plain(operator: LogicalOperator) -> bool
    decreases operator, 0int,
{
    match operator {
        LogicalOperator::Project(p) => !p.distinct && plain(*p.source),
        LogicalOperator::GroupBy(g) => g.key_expressions@.len() <= i64::MAX && plain(*g.source),
        LogicalOperator::Filter(f) => plain(*f.source),
        LogicalOperator::Limit(l) => plain(*l.source),
        LogicalOperator::Sort(s) => plain(*s.source),
        LogicalOperator::UnionAll(u) => plain_all(u.sources@, u.sources@.len() as int),
        LogicalOperator::TableInsert(t) => plain(*t.source),
        LogicalOperator::NegateFreq(source) => plain(*source),
        LogicalOperator::TableAlias(a) => plain(*a.source),
        LogicalOperator::Join(j) => plain(*j.left) && plain(*j.right),
        _ => true,
    }
}

/// Whether the first `n` plans of a list are plain.
pub open spec fn plain_all(list: Seq<LogicalOperator>, n: int) -> bool
    decreases list, n,
{
    if n <= 0 || n > list.len() {
        true
    } else {
        plain_all(list, n - 1) && plain(list[n - 1])
    }
}

/// Whether a plan is plain, from its model.
pub open spec fn model_plain(plan: PlanModel) -> bool
    decreases plan, 0int,
{
    match plan {
        PlanModel::Project(distinct, _, source) => !distinct && model_plain(*source),
        PlanModel::GroupBy(_, keys, source) => keys.len() <= i64::MAX && model_plain(*source),
        PlanModel::Filter(_, source) => model_plain(*source),
        PlanModel::Limit(_, _, source) => model_plain(*source),
        PlanModel::Sort(_, source) => model_plain(*source),
        PlanModel::UnionAll(sources) => model_plain_all(sources, sources.len() as int),
        PlanModel::TableInsert(_, source) => model_plain(*source),
        PlanModel::NegateFreq(source) => model_plain(*source),
        PlanModel::TableAlias(_, source) => model_plain(*source),
        PlanModel::Join(left, right, _, _) => model_plain(*left) && model_plain(*right),
        _ => true,
    }
}

/// Whether the first `n` plans of a list are plain, from their models.
pub open spec fn model_plain_all(list: Seq<PlanModel>, n: int) -> bool
    decreases list, n,
{
    if n <= 0 || n > list.len() {
        true
    } else {
        model_plain_all(list, n - 1) && model_plain(list[n - 1])
    }
}

/// A plan is plain exactly where its model is.
pub proof fn lemma_plain_model(operator: LogicalOperator)
    ensures
        plain(operator) == model_plain(plan_model(operator)),
    decreases operator, 0int,
{
    match operator {
        LogicalOperator::Project(p) => {
            lemma_plain_model(*p.source);
        },
        LogicalOperator::GroupBy(g) => {
            crate::ast::model::lemma_models_of(g.key_expressions@);
            lemma_plain_model(*g.source);
        },
        LogicalOperator::Filter(f) => {
            lemma_plain_model(*f.source);
        },
        LogicalOperator::Limit(l) => {
            lemma_plain_model(*l.source);
        },
        LogicalOperator::Sort(s) => {
            lemma_plain_model(*s.source);
        },
        LogicalOperator::UnionAll(u) => {
            lemma_plan_models_of(u.sources@);
            lemma_plain_models(u.sources@, u.sources@.len() as int);
        },
        LogicalOperator::TableInsert(t) => {
            lemma_plain_model(*t.source);
        },
        LogicalOperator::NegateFreq(source) => {
            lemma_plain_model(*source);
        },
        LogicalOperator::TableAlias(a) => {
            lemma_plain_model(*a.source);
        },
        LogicalOperator::Join(j) => {
            lemma_plain_model(*j.left);
            lemma_plain_model(*j.right);
        },
        _ => {},
    }
}

/// The first plans of a list are plain exactly where their models are.
pub proof fn lemma_plain_models(list: Seq<LogicalOperator>, n: int)
    requires
        0 <= n <= list.len(),
    ensures
        plain_all(list, n) == model_plain_all(plan_models_of(list), n),
    decreases list, n,
{
    lemma_plan_models_of(list);
    if n > 0 {
        vstd::seq::axiom_seq_index_decreases(list, n - 1);
        lemma_plain_models(list, n - 1);
        lemma_plain_model(list[n - 1]);
    }
}

/// Rows that hold constants only, row by row.
proof fn lemma_constant_rows_all(rows: Seq<Vec<Expression>>, n: int)
    requires
        0 <= n <= rows.len(),
        spec_constant_rows(rows, n),
    ensures
        forall|i: int| 0 <= i < n ==> all_constants((#[trigger] rows[i])@),
    decreases n,
{
    if n > 0 {
        lemma_constant_rows_all(rows, n - 1);
        assert(all_constants(rows[n - 1]@));
    }
}

/// A validated plan can be lowered exactly where it is plain.
pub proof fn lemma_validated_lowerable(operator: LogicalOperator)
    requires
        spec_validated(operator),
    ensures
        lowerable(operator) == plain(operator),
    decreases operator, 0int,
{
    match operator {
        LogicalOperator::Project(p) => {
            lemma_validated_lowerable(*p.source);
        },
        LogicalOperator::GroupBy(g) => {
            lemma_validated_lowerable(*g.source);
        },
        LogicalOperator::Filter(f) => {
            lemma_validated_lowerable(*f.source);
        },
        LogicalOperator::Limit(l) => {
            lemma_validated_lowerable(*l.source);
        },
        LogicalOperator::Sort(s) => {
            lemma_validated_lowerable(*s.source);
        },
        LogicalOperator::Values(v) => {
            lemma_constant_rows_all(v.data@, v.data@.len() as int);
        },
        LogicalOperator::UnionAll(u) => {
            lemma_validated_lowerable_all(u.sources@, u.sources@.len() as int);
        },
        LogicalOperator::TableInsert(t) => {
            lemma_validated_lowerable(*t.source);
        },
        LogicalOperator::NegateFreq(source) => {
            lemma_validated_lowerable(*source);
        },
        LogicalOperator::TableAlias(a) => {
            lemma_validated_lowerable(*a.source);
        },
        LogicalOperator::Join(j) => {
            lemma_validated_lowerable(*j.left);
            lemma_validated_lowerable(*j.right);
        },
        _ => {},
    }
}

/// Validated plans can be lowered exactly where they are plain.
pub proof fn lemma_validated_lowerable_all(list: Seq<LogicalOperator>, n: int)
    requires
        0 <= n <= list.len(),
        spec_all_validated(list, n),
    ensures
        lowerable_all(list, n) == plain_all(list, n),
    decreases list, n,
{
    if n > 0 {
        vstd::seq::axiom_seq_index_decreases(list, n - 1);
        lemma_validated_lowerable_all(list, n - 1);
        lemma_validated_lowerable(list[n - 1]);
    }
}

/// Folding constants keeps whether a plan can be lowered.
pub proof fn lemma_folded_lowerable(operator: LogicalOperator, r: LogicalOperator)
    requires
        folded_plan(operator, r),
    ensures
        lowerable(r) == lowerable(operator),
    decreases operator, 0int,
{
    match operator {
        LogicalOperator::Project(p) => {
            lemma_folded_lowerable(*p.source, *r->Project_0.source);
        },
        LogicalOperator::GroupBy(g) => {
            let q = r->GroupBy_0;
            if g.key_expressions@.len() > 0 {
                lemma_folded_at(
                    g.key_expressions@,
                    q.key_expressions@,
                    g.key_expressions@.len() as int,
                    0,
                );
            }
            lemma_folded_lowerable(*g.source, *q.source);
        },
        LogicalOperator::Filter(f) => {
            lemma_folded_lowerable(*f.source, *r->Filter_0.source);
        },
        LogicalOperator::Limit(l) => {
            lemma_folded_lowerable(*l.source, *r->Limit_0.source);
        },
        LogicalOperator::Sort(s) => {
            lemma_folded_lowerable(*s.source, *r->Sort_0.source);
        },
        LogicalOperator::UnionAll(u) => {
            let q = r->UnionAll_0;
            lemma_folded_lowerable_all(u.sources@, q.sources@, u.sources@.len() as int);
        },
        LogicalOperator::TableAlias(a) => {
            lemma_folded_lowerable(*a.source, *r->TableAlias_0.source);
        },
        LogicalOperator::TableInsert(t) => {
            lemma_folded_lowerable(*t.source, *r->TableInsert_0.source);
        },
        LogicalOperator::NegateFreq(source) => {
            lemma_folded_lowerable(*source, *r->NegateFreq_0);
        },
        LogicalOperator::Join(j) => {
            let q = r->Join_0;
            lemma_folded_lowerable(*j.left, *q.left);
            lemma_folded_lowerable(*j.right, *q.right);
        },
        _ => {},
    }
}

/// Folding constants keeps whether the plans of a list can be lowered.
pub proof fn lemma_folded_lowerable_all(
    list: Seq<LogicalOperator>,
    r: Seq<LogicalOperator>,
    n: int,
)
    requires
        0 <= n <= list.len(),
        folded_plans(list, r, n),
    ensures
        list.len() == r.len(),
        lowerable_all(r, n) == lowerable_all(list, n),
    decreases list, n,
{
    if n > 0 {
        vstd::seq::axiom_seq_index_decreases(list, n - 1);
        lemma_folded_lowerable_all(list, r, n - 1);
        lemma_folded_lowerable(list[n - 1], r[n - 1]);
    }
}

/// A filter around an operator can be lowered exactly where the operator
/// can.
proof fn lemma_wrapped_lowerable(r: LogicalOperator, predicates: Seq<Expression>)
    requires
        filter_around(r, predicates) is Some,
    ensures
        lowerable(r) == lowerable(filter_around(r, predicates)->Some_0),
{
}

/// Pushing predicates down keeps whether a plan can be lowered.
pub proof fn lemma_pushed_lowerable(
    operator: LogicalOperator,
    predicates: Seq<Expression>,
    r: LogicalOperator,
)
    requires
        pushed(operator, predicates, r),
    ensures
        lowerable(r) == lowerable(operator),
    decreases operator, 0int,
{
    match operator {
        LogicalOperator::Filter(f) => {
            lemma_pushed_lowerable(*f.source, predicates + conjuncts(f.predicate), r);
        },
        LogicalOperator::Sort(s) => {
            lemma_pushed_lowerable(*s.source, predicates, *r->Sort_0.source);
        },
        LogicalOperator::NegateFreq(source) => {
            lemma_pushed_lowerable(*source, predicates, *r->NegateFreq_0);
        },
        LogicalOperator::Project(p) => {
            let q = r->Project_0;
            let inlined = choose|inlined: Seq<Expression>|
                #[trigger] inlined.len() == predicates.len() && replaced_all(
                    predicates,
                    inlined,
                    Substitution::Inlined(expressions_of(p.expressions@)),
                    predicates.len() as int,
                ) && pushed(*p.source, inlined, *q.source);
            lemma_pushed_lowerable(*p.source, inlined, *q.source);
        },
        LogicalOperator::UnionAll(u) => {
            let q = r->UnionAll_0;
            lemma_pushed_lowerable_all(u.sources@, predicates, q.sources@, u.sources@.len() as int);
        },
        LogicalOperator::Join(j) => {
            let left_len = spec_fields(*j.left).len() as usize;
            let to_left = share(predicates, j.on, left_len, j.join_type, Side::Left);
            let to_right = share(predicates, j.on, left_len, j.join_type, Side::Right);
            let wrap = share(predicates, j.on, left_len, j.join_type, Side::Wrap);
            lemma_wrapped_lowerable(r, wrap);
            let q = filter_around(r, wrap)->Some_0->Join_0;
            let left = choose|left: Seq<Expression>|
                #[trigger] left.len() == to_left.len() && crate::ast::expr::same_expressions(
                    to_left,
                    left,
                    left.len() as int,
                ) && pushed(*j.left, left, *q.left);
            let right = choose|right: Seq<Expression>|
                #[trigger] right.len() == to_right.len() && replaced_all(
                    to_right,
                    right,
                    Substitution::Moved(right_shift(left_len)),
                    right.len() as int,
                ) && pushed(*j.right, right, *q.right);
            lemma_pushed_lowerable(*j.left, left, *q.left);
            lemma_pushed_lowerable(*j.right, right, *q.right);
        },
        LogicalOperator::GroupBy(g) => {
            lemma_wrapped_lowerable(r, predicates);
            let q = filter_around(r, predicates)->Some_0->GroupBy_0;
            lemma_pushed_lowerable(*g.source, Seq::empty(), *q.source);
        },
        LogicalOperator::Limit(l) => {
            lemma_wrapped_lowerable(r, predicates);
            let q = filter_around(r, predicates)->Some_0->Limit_0;
            lemma_pushed_lowerable(*l.source, Seq::empty(), *q.source);
        },
        LogicalOperator::TableAlias(a) => {
            lemma_wrapped_lowerable(r, predicates);
            let q = filter_around(r, predicates)->Some_0->TableAlias_0;
            lemma_pushed_lowerable(*a.source, Seq::empty(), *q.source);
        },
        LogicalOperator::TableInsert(t) => {
            lemma_wrapped_lowerable(r, predicates);
            let q = filter_around(r, predicates)->Some_0->TableInsert_0;
            lemma_pushed_lowerable(*t.source, Seq::empty(), *q.source);
        },
        _ => {
            lemma_wrapped_lowerable(r, predicates);
        },
    }
}

/// Pushing predicates down keeps whether the plans of a list can be
/// lowered.
pub proof fn lemma_pushed_lowerable_all(
    sources: Seq<LogicalOperator>,
    predicates: Seq<Expression>,
    results: Seq<LogicalOperator>,
    n: int,
)
    requires
        0 <= n <= sources.len(),
        pushed_all(sources, predicates, results, n),
    ensures
        sources.len() == results.len(),
        lowerable_all(results, n) == lowerable_all(sources, n),
    decreases sources, n,
{
    if n > 0 {
        vstd::seq::axiom_seq_index_decreases(sources, n - 1);
        lemma_pushed_lowerable_all(sources, predicates, results, n - 1);
        lemma_pushed_copy_lowerable(sources[n - 1], predicates, results[n - 1]);
    }
}

/// Pushing a copy of predicates down keeps whether a plan can be
/// lowered.
pub proof fn lemma_pushed_copy_lowerable(
    source: LogicalOperator,
    predicates: Seq<Expression>,
    result: LogicalOperator,
)
    requires
        pushed_copy(source, predicates, result),
    ensures
        lowerable(result) == lowerable(source),
    decreases source, 1int,
{
    let copy = choose|copy: Seq<Expression>|
        #[trigger] copy.len() == predicates.len() && crate::ast::expr::same_expressions(
            predicates,
            copy,
            predicates.len() as int,
        ) && pushed(source, copy, result);
    lemma_pushed_lowerable(source, copy, result);
}

/// Optimization keeps whether a plan can be lowered.
pub proof fn lemma_optimized_lowerable(query: LogicalOperator, r: LogicalOperator)
    requires
        optimized(query, r),
    ensures
        lowerable(r) == lowerable(query),
{
    let folded = choose|folded: LogicalOperator| #[trigger]
        folded_plan(query, folded) && pushed(folded, Seq::empty(), r);
    lemma_folded_lowerable(query, folded);
    lemma_pushed_lowerable(folded, Seq::empty(), r);
}

} // verus!
