//! Constant folding: a scalar function over constants is evaluated when
//! the plan is made.

use vstd::prelude::*;
use crate::ast::expr::{CompiledAggregate, CompiledFunctionCall, Expression, NamedExpression, SortExpression};
use crate::ast::rel::logical::{
    Filter,
    GroupBy,
    Join,
    Limit,
    LogicalOperator,
    Project,
    Sort,
    TableAlias,
    TableInsert,
    UnionAll,
};
use crate::data::{Datum, Session, Value};
use crate::data::tuple_iter::tuple_view;
use crate::executor::expression::{eval_expression, eval_expressions, EvalScalar};
use crate::planner::utils::expr::{spec_type_for_expression};
use crate::planner::utils::logical::{named_fields, spec_fields};

verus! {

/// Whether an expression comes to a constant: it is a constant, or a
/// call of a scalar function whose arguments all come to constants.
pub open spec fn foldable(expr: Expression) -> bool
    decreases expr, 0int,
{
    match expr {
        Expression::Constant(_, _) => true,
        Expression::CompiledFunctionCall(call) => foldable_all(call.args@, call.args@.len() as int),
        _ => false,
    }
}

/// Whether the first `n` expressions of a list come to constants.
pub open spec fn foldable_all(list: Seq<Expression>, n: int) -> bool
    decreases list, n,
{
    if n <= 0 || n > list.len() {
        true
    } else {
        foldable_all(list, n - 1) && foldable(list[n - 1])
    }
}

/// Whether `r` is the expression with its constants folded.
///
/// A constant stays. Another expression that comes to a constant is the
/// constant of its value, which needs no row, with the type of the
/// expression. In any other call of a function the arguments are folded,
/// and what is no call stays as it is.
pub open spec fn folded(expr: Expression, r: Expression) -> bool
    decreases expr, 0int,
{
    match expr {
        Expression::CompiledFunctionCall(call) => if foldable(expr) {
            r matches Expression::Constant(d, t) && t == call.signature.ret && d@
                == eval_expression(expr, Seq::empty())
        } else {
            r matches Expression::CompiledFunctionCall(g) && g.function == call.function
                && g.signature == call.signature && folded_all(
                call.args@,
                g.args@,
                call.args@.len() as int,
            )
        },
        Expression::CompiledAggregate(call) => r matches Expression::CompiledAggregate(g)
            && g.function == call.function && g.signature == call.signature && folded_all(
            call.args@,
            g.args@,
            call.args@.len() as int,
        ),
        _ => r == expr,
    }
}

/// Whether two lists are of one length and each of the first `n`
/// expressions of `r` is that of `list` with its constants folded.
pub open spec fn folded_all(list: Seq<Expression>, r: Seq<Expression>, n: int) -> bool
    decreases list, n,
{
    if list.len() != r.len() {
        false
    } else if n <= 0 || n > list.len() {
        true
    } else {
        folded_all(list, r, n - 1) && folded(list[n - 1], r[n - 1])
    }
}

/// Lists whose expressions are folded place by place are folded.
pub proof fn lemma_folded_all(list: Seq<Expression>, r: Seq<Expression>, n: int)
    requires
        list.len() == r.len(),
        0 <= n <= list.len(),
        forall|k: int| 0 <= k < n ==> folded(#[trigger] list[k], r[k]),
    ensures
        folded_all(list, r, n),
    decreases n,
{
    if n > 0 {
        lemma_folded_all(list, r, n - 1);
    }
}

/// In folded lists each expression is folded.
pub proof fn lemma_folded_at(list: Seq<Expression>, r: Seq<Expression>, n: int, k: int)
    requires
        folded_all(list, r, n),
        0 <= k < n <= list.len(),
    ensures
        list.len() == r.len(),
        folded(list[k], r[k]),
    decreases n,
{
    if k < n - 1 {
        lemma_folded_at(list, r, n - 1, k);
    }
}

/// Each expression of a list that comes to constants does so.
pub proof fn lemma_foldable_at(list: Seq<Expression>, n: int, k: int)
    requires
        foldable_all(list, n),
        0 <= k < n <= list.len(),
    ensures
        foldable(list[k]),
    decreases n,
{
    if k < n - 1 {
        lemma_foldable_at(list, n - 1, k);
    }
}

/// An expression that comes to a constant has one value over every row.
pub proof fn lemma_foldable_value(expr: Expression, row: Seq<Value>)
    requires
        foldable(expr),
    ensures
        eval_expression(expr, row) == eval_expression(expr, Seq::empty()),
    decreases expr, 0int,
{
    match expr {
        Expression::CompiledFunctionCall(call) => {
            lemma_foldable_values(call.args@, row, call.args@.len() as int);
        },
        _ => {},
    }
}

/// Expressions that come to constants have the same values over every
/// row.
pub proof fn lemma_foldable_values(list: Seq<Expression>, row: Seq<Value>, n: int)
    requires
        0 <= n <= list.len(),
        foldable_all(list, n),
    ensures
        eval_expressions(list, row, n) == eval_expressions(list, Seq::empty(), n),
    decreases list, n,
{
    if n > 0 {
        vstd::seq::axiom_seq_index_decreases(list, n - 1);
        lemma_foldable_values(list, row, n - 1);
        lemma_foldable_value(list[n - 1], row);
    }
}

/// Folding the constants of an expression leaves its value over every
/// row as it was.
pub proof fn lemma_folded_value(expr: Expression, r: Expression, row: Seq<Value>)
    requires
        folded(expr, r),
    ensures
        eval_expression(r, row) == eval_expression(expr, row),
    decreases expr, 0int,
{
    match expr {
        Expression::CompiledFunctionCall(call) => {
            if foldable(expr) {
                lemma_foldable_value(expr, row);
            } else {
                lemma_folded_values(call.args@, r->CompiledFunctionCall_0.args@, row, call.args@.len() as int);
            }
        },
        _ => {},
    }
}

/// Folding the constants of the expressions of a list leaves their values
/// over every row as they were.
pub proof fn lemma_folded_values(
    list: Seq<Expression>,
    r: Seq<Expression>,
    row: Seq<Value>,
    n: int,
)
    requires
        0 <= n <= list.len(),
        folded_all(list, r, n),
    ensures
        eval_expressions(r, row, n) == eval_expressions(list, row, n),
    decreases list, n,
{
    if n > 0 {
        vstd::seq::axiom_seq_index_decreases(list, n - 1);
        lemma_folded_values(list, r, row, n - 1);
        lemma_folded_value(list[n - 1], r[n - 1], row);
    }
}

/// A folded expression is a constant exactly where the expression comes
/// to one.
pub proof fn lemma_folded_constant(expr: Expression, r: Expression)
    requires
        folded(expr, r),
    ensures
        r is Constant <==> foldable(expr),
{
}

/// Whether the expressions of a list are constants, all of them.
fn all_constants(list: &Vec<Expression>) -> (b: bool)
    ensures
        b == forall|i: int| 0 <= i < list@.len() ==> (#[trigger] list@[i]) is Constant,
{
    let mut i: usize = 0;
    while i < list.len()
        invariant
            i <= list@.len(),
            forall|k: int| 0 <= k < i ==> (#[trigger] list@[k]) is Constant,
        decreases list@.len() - i,
    {
        if !list[i].is_constant() {
            return false;
        }
        i += 1;
    }
    true
}

/// Folds the constants of the expressions of a list.
pub fn fold_list(list: Vec<Expression>, session: &Session) -> (r: Vec<Expression>)
    ensures
        r@.len() == list@.len(),
        folded_all(list@, r@, list@.len() as int),
    decreases list,
{
    let mut rest = list;
    let ghost all = rest@;
    let mut reversed: Vec<Expression> = Vec::new();
    while rest.len() > 0
        invariant
            rest@.len() <= all.len(),
            rest@ == all.subrange(0, rest@.len() as int),
            reversed@.len() + rest@.len() == all.len(),
            all == list@,
            forall|k: int|
                0 <= k < reversed@.len() ==> folded(all[all.len() - 1 - k], #[trigger] reversed@[k]),
        decreases rest@.len(),
    {
        proof {
            vstd::seq::axiom_seq_index_decreases(all, rest@.len() - 1);
        }
        let e = rest.pop().unwrap();
        assert(e == all[rest@.len() as int]);
        assert(rest@ =~= all.subrange(0, rest@.len() as int));
        reversed.push(fold_expression(e, session));
    }
    let mut result: Vec<Expression> = Vec::new();
    while reversed.len() > 0
        invariant
            result@.len() + reversed@.len() == all.len(),
            forall|k: int|
                0 <= k < reversed@.len() ==> folded(all[all.len() - 1 - k], #[trigger] reversed@[k]),
            forall|k: int| 0 <= k < result@.len() ==> folded(all[k], #[trigger] result@[k]),
        decreases reversed@.len(),
    {
        let e = reversed.pop().unwrap();
        result.push(e);
    }
    proof {
        assert forall|k: int| 0 <= k < all.len() implies folded(#[trigger] all[k], result@[k]) by {
            assert(folded(all[k], result@[k]));
        }
        lemma_folded_all(all, result@, all.len() as int);
    }
    result
}

/// The values of constants that a list was folded to are the values of
/// the list.
proof fn lemma_constants_values(list: Seq<Expression>, r: Seq<Expression>, n: int)
    requires
        0 <= n <= list.len(),
        folded_all(list, r, list.len() as int),
        forall|i: int| 0 <= i < r.len() ==> (#[trigger] r[i]) is Constant,
    ensures
        foldable_all(list, n),
        eval_expressions(r, Seq::empty(), n) == eval_expressions(list, Seq::empty(), n),
    decreases n,
{
    if n > 0 {
        lemma_constants_values(list, r, n - 1);
        lemma_folded_at(list, r, list.len() as int, n - 1);
        assert(r[n - 1] is Constant);
        lemma_folded_constant(list[n - 1], r[n - 1]);
        lemma_folded_value(list[n - 1], r[n - 1], Seq::empty());
    }
}

/// Folds the constants of an expression: a call of a scalar function whose
/// arguments have all come to constants becomes the constant that the
/// call gives. The type of the expression stays as it is.
pub fn fold_expression(expr: Expression, session: &Session) -> (r: Expression)
    ensures
        folded(expr, r),
        spec_type_for_expression(r) == spec_type_for_expression(expr),
    decreases expr,
{
    match expr {
        Expression::CompiledFunctionCall(call) => {
            let ret = call.signature.ret;
            let ghost before = call.args@;
            let args = fold_list(call.args, session);
            let folded_call = CompiledFunctionCall {
                function: call.function,
                args,
                signature: call.signature,
            };
            if all_constants(&folded_call.args) {
                let empty: Vec<Datum<'static>> = Vec::new();
                let whole = Expression::CompiledFunctionCall(folded_call);
                let value = whole.eval_scalar(session, empty.as_slice());
                proof {
                    lemma_constants_values(before, folded_call.args@, before.len() as int);
                    assert(tuple_view(empty@) =~= Seq::<Value>::empty());
                }
                Expression::Constant(value, ret)
            } else {
                proof {
                    if foldable(expr) {
                        assert forall|i: int| 0 <= i < folded_call.args@.len() implies (
                        #[trigger] folded_call.args@[i]) is Constant by {
                            lemma_foldable_at(before, before.len() as int, i);
                            lemma_folded_at(before, folded_call.args@, before.len() as int, i);
                            lemma_folded_constant(before[i], folded_call.args@[i]);
                        }
                    }
                }
                Expression::CompiledFunctionCall(folded_call)
            }
        },
        Expression::CompiledAggregate(call) => {
            let args = fold_list(call.args, session);
            Expression::CompiledAggregate(
                CompiledAggregate { function: call.function, args, signature: call.signature },
            )
        },
        other => other,
    }
}

/// Whether `r` is a list of named expressions with the constants of each
/// folded, under the names that they had.
pub open spec fn folded_named(list: Seq<NamedExpression>, r: Seq<NamedExpression>) -> bool {
    r.len() == list.len() && forall|i: int|
        0 <= i < list.len() ==> (#[trigger] r[i]).alias == list[i].alias && folded(
            list[i].expression,
            r[i].expression,
        )
}

/// Whether `r` is a list of sort expressions with the constants of each
/// folded, in the orders that they had.
pub open spec fn folded_sort(list: Seq<SortExpression>, r: Seq<SortExpression>) -> bool {
    r.len() == list.len() && forall|i: int|
        0 <= i < list.len() ==> (#[trigger] r[i]).ordering == list[i].ordering && folded(
            list[i].expression,
            r[i].expression,
        )
}

fn fold_named(list: Vec<NamedExpression>, session: &Session) -> (r: Vec<NamedExpression>)
    ensures
        folded_named(list@, r@),
        named_fields(r@) == named_fields(list@),
{
    let mut rest = list;
    let ghost all = rest@;
    let mut reversed: Vec<NamedExpression> = Vec::new();
    while rest.len() > 0
        invariant
            rest@.len() <= all.len(),
            rest@ == all.subrange(0, rest@.len() as int),
            reversed@.len() + rest@.len() == all.len(),
            forall|k: int|
                0 <= k < reversed@.len() ==> {
                    let ne = #[trigger] reversed@[k];
                    let source = all[all.len() - 1 - k];
                    ne.alias == source.alias && spec_type_for_expression(ne.expression)
                        == spec_type_for_expression(source.expression) && folded(
                        source.expression,
                        ne.expression,
                    )
                },
        decreases rest@.len(),
    {
        let ne = rest.pop().unwrap();
        assert(ne == all[rest@.len() as int]);
        assert(rest@ =~= all.subrange(0, rest@.len() as int));
        reversed.push(
            NamedExpression { alias: ne.alias, expression: fold_expression(ne.expression, session) },
        );
    }
    let mut result: Vec<NamedExpression> = Vec::new();
    while reversed.len() > 0
        invariant
            result@.len() + reversed@.len() == all.len(),
            forall|k: int|
                0 <= k < reversed@.len() ==> {
                    let ne = #[trigger] reversed@[k];
                    let source = all[all.len() - 1 - k];
                    ne.alias == source.alias && spec_type_for_expression(ne.expression)
                        == spec_type_for_expression(source.expression) && folded(
                        source.expression,
                        ne.expression,
                    )
                },
            forall|k: int|
                0 <= k < result@.len() ==> {
                    let ne = #[trigger] result@[k];
                    ne.alias == all[k].alias && spec_type_for_expression(ne.expression)
                        == spec_type_for_expression(all[k].expression) && folded(
                        all[k].expression,
                        ne.expression,
                    )
                },
        decreases reversed@.len(),
    {
        let ne = reversed.pop().unwrap();
        result.push(ne);
    }
    assert(named_fields(result@) =~= named_fields(all));
    result
}

fn fold_sort(list: Vec<SortExpression>, session: &Session) -> (r: Vec<SortExpression>)
    ensures
        folded_sort(list@, r@),
{
    let mut rest = list;
    let ghost all = rest@;
    let mut reversed: Vec<SortExpression> = Vec::new();
    while rest.len() > 0
        invariant
            rest@.len() <= all.len(),
            rest@ == all.subrange(0, rest@.len() as int),
            reversed@.len() + rest@.len() == all.len(),
            forall|k: int|
                0 <= k < reversed@.len() ==> {
                    let se = #[trigger] reversed@[k];
                    let source = all[all.len() - 1 - k];
                    se.ordering == source.ordering && folded(source.expression, se.expression)
                },
        decreases rest@.len(),
    {
        let se = rest.pop().unwrap();
        assert(se == all[rest@.len() as int]);
        assert(rest@ =~= all.subrange(0, rest@.len() as int));
        reversed.push(
            SortExpression {
                ordering: se.ordering,
                expression: fold_expression(se.expression, session),
            },
        );
    }
    let mut result: Vec<SortExpression> = Vec::new();
    while reversed.len() > 0
        invariant
            result@.len() + reversed@.len() == all.len(),
            forall|k: int|
                0 <= k < reversed@.len() ==> {
                    let se = #[trigger] reversed@[k];
                    let source = all[all.len() - 1 - k];
                    se.ordering == source.ordering && folded(source.expression, se.expression)
                },
            forall|k: int|
                0 <= k < result@.len() ==> {
                    let se = #[trigger] result@[k];
                    se.ordering == all[k].ordering && folded(all[k].expression, se.expression)
                },
        decreases reversed@.len(),
    {
        let se = reversed.pop().unwrap();
        result.push(se);
    }
    result
}

/// Whether `r` is the plan with the constants of its expressions folded:
/// the same operators over the same sources, each expression folded.
pub open spec fn folded_plan(operator: LogicalOperator, r: LogicalOperator) -> bool
    decreases operator, 0int,
{
    match operator {
        LogicalOperator::Project(p) => r matches LogicalOperator::Project(q) && q.distinct
            == p.distinct && folded_named(p.expressions@, q.expressions@) && folded_plan(
            *p.source,
            *q.source,
        ),
        LogicalOperator::GroupBy(g) => r matches LogicalOperator::GroupBy(q) && folded_named(
            g.expressions@,
            q.expressions@,
        ) && folded_all(g.key_expressions@, q.key_expressions@, g.key_expressions@.len() as int)
            && folded_plan(*g.source, *q.source),
        LogicalOperator::Filter(f) => r matches LogicalOperator::Filter(q) && folded(
            f.predicate,
            q.predicate,
        ) && folded_plan(*f.source, *q.source),
        LogicalOperator::Limit(l) => r matches LogicalOperator::Limit(q) && q.offset == l.offset
            && q.limit == l.limit && folded_plan(*l.source, *q.source),
        LogicalOperator::Sort(s) => r matches LogicalOperator::Sort(q) && folded_sort(
            s.sort_expressions@,
            q.sort_expressions@,
        ) && folded_plan(*s.source, *q.source),
        LogicalOperator::UnionAll(u) => r matches LogicalOperator::UnionAll(q) && folded_plans(
            u.sources@,
            q.sources@,
            u.sources@.len() as int,
        ),
        LogicalOperator::TableAlias(a) => r matches LogicalOperator::TableAlias(q) && q.alias
            == a.alias && folded_plan(*a.source, *q.source),
        LogicalOperator::TableInsert(t) => r matches LogicalOperator::TableInsert(q) && q.table
            == t.table && folded_plan(*t.source, *q.source),
        LogicalOperator::NegateFreq(source) => r matches LogicalOperator::NegateFreq(q)
            && folded_plan(*source, *q),
        LogicalOperator::Join(j) => r matches LogicalOperator::Join(q) && q.join_type == j.join_type
            && folded(j.on, q.on) && folded_plan(*j.left, *q.left) && folded_plan(
            *j.right,
            *q.right,
        ),
        _ => r == operator,
    }
}

/// Whether two lists are of one length and each of the first `n` plans of
/// `r` is that of `list` with its constants folded.
pub open spec fn folded_plans(list: Seq<LogicalOperator>, r: Seq<LogicalOperator>, n: int) -> bool
    decreases list, n,
{
    if list.len() != r.len() {
        false
    } else if n <= 0 || n > list.len() {
        true
    } else {
        folded_plans(list, r, n - 1) && folded_plan(list[n - 1], r[n - 1])
    }
}

proof fn lemma_folded_plans(list: Seq<LogicalOperator>, r: Seq<LogicalOperator>, n: int)
    requires
        list.len() == r.len(),
        0 <= n <= list.len(),
        forall|k: int| 0 <= k < n ==> folded_plan(#[trigger] list[k], r[k]),
    ensures
        folded_plans(list, r, n),
    decreases n,
{
    if n > 0 {
        lemma_folded_plans(list, r, n - 1);
    }
}

fn fold_all(list: Vec<LogicalOperator>, session: &Session) -> (r: Vec<LogicalOperator>)
    ensures
        r@.len() == list@.len(),
        folded_plans(list@, r@, list@.len() as int),
        forall|i: int| 0 <= i < r@.len() ==> spec_fields(#[trigger] r@[i]) == spec_fields(list@[i]),
    decreases list,
{
    let mut rest = list;
    let ghost all = rest@;
    let mut reversed: Vec<LogicalOperator> = Vec::new();
    while rest.len() > 0
        invariant
            rest@.len() <= all.len(),
            rest@ == all.subrange(0, rest@.len() as int),
            reversed@.len() + rest@.len() == all.len(),
            all == list@,
            forall|k: int|
                0 <= k < reversed@.len() ==> spec_fields(#[trigger] reversed@[k]) == spec_fields(
                    all[all.len() - 1 - k],
                ),
            forall|k: int|
                0 <= k < reversed@.len() ==> folded_plan(
                    all[all.len() - 1 - k],
                    #[trigger] reversed@[k],
                ),
        decreases rest@.len(),
    {
        proof {
            vstd::seq::axiom_seq_index_decreases(all, rest@.len() - 1);
        }
        let source = rest.pop().unwrap();
        assert(source == all[rest@.len() as int]);
        assert(rest@ =~= all.subrange(0, rest@.len() as int));
        reversed.push(fold_constants(source, session));
    }
    let mut result: Vec<LogicalOperator> = Vec::new();
    while reversed.len() > 0
        invariant
            result@.len() + reversed@.len() == all.len(),
            forall|k: int|
                0 <= k < reversed@.len() ==> spec_fields(#[trigger] reversed@[k]) == spec_fields(
                    all[all.len() - 1 - k],
                ),
            forall|k: int|
                0 <= k < result@.len() ==> spec_fields(#[trigger] result@[k]) == spec_fields(all[k]),
            forall|k: int|
                0 <= k < reversed@.len() ==> folded_plan(
                    all[all.len() - 1 - k],
                    #[trigger] reversed@[k],
                ),
            forall|k: int| 0 <= k < result@.len() ==> folded_plan(all[k], #[trigger] result@[k]),
        decreases reversed@.len(),
    {
        let source = reversed.pop().unwrap();
        result.push(source);
    }
    proof {
        assert forall|k: int| 0 <= k < all.len() implies folded_plan(#[trigger] all[k], result@[k]) by {
            assert(folded_plan(all[k], result@[k]));
        }
        lemma_folded_plans(all, result@, all.len() as int);
    }
    result
}

/// Folds the constants in the expressions of a plan.
pub fn fold_constants(operator: LogicalOperator, session: &Session) -> (r: LogicalOperator)
    ensures
        folded_plan(operator, r),
        spec_fields(r) == spec_fields(operator),
    decreases operator,
{
    match operator {
        LogicalOperator::Project(project) => {
            let source = fold_constants(*project.source, session);
            LogicalOperator::Project(
                Project {
                    distinct: project.distinct,
                    expressions: fold_named(project.expressions, session),
                    source: Box::new(source),
                },
            )
        },
        LogicalOperator::GroupBy(group_by) => {
            let source = fold_constants(*group_by.source, session);
            LogicalOperator::GroupBy(
                GroupBy {
                    expressions: fold_named(group_by.expressions, session),
                    key_expressions: fold_list(group_by.key_expressions, session),
                    source: Box::new(source),
                },
            )
        },
        LogicalOperator::Filter(filter) => {
            let source = fold_constants(*filter.source, session);
            LogicalOperator::Filter(
                Filter {
                    predicate: fold_expression(filter.predicate, session),
                    source: Box::new(source),
                },
            )
        },
        LogicalOperator::Limit(limit) => {
            let source = fold_constants(*limit.source, session);
            LogicalOperator::Limit(
                Limit { offset: limit.offset, limit: limit.limit, source: Box::new(source) },
            )
        },
        LogicalOperator::Sort(sort) => {
            let source = fold_constants(*sort.source, session);
            LogicalOperator::Sort(
                Sort {
                    sort_expressions: fold_sort(sort.sort_expressions, session),
                    source: Box::new(source),
                },
            )
        },
        LogicalOperator::UnionAll(union_all) => {
            LogicalOperator::UnionAll(UnionAll { sources: fold_all(union_all.sources, session) })
        },
        LogicalOperator::TableAlias(table_alias) => {
            let source = fold_constants(*table_alias.source, session);
            LogicalOperator::TableAlias(
                TableAlias { alias: table_alias.alias, source: Box::new(source) },
            )
        },
        LogicalOperator::TableInsert(insert) => {
            let source = fold_constants(*insert.source, session);
            LogicalOperator::TableInsert(
                TableInsert { table: insert.table, source: Box::new(source) },
            )
        },
        LogicalOperator::NegateFreq(source) => {
            let source = fold_constants(*source, session);
            LogicalOperator::NegateFreq(Box::new(source))
        },
        LogicalOperator::Join(join) => {
            let left = fold_constants(*join.left, session);
            let right = fold_constants(*join.right, session);
            LogicalOperator::Join(
                Join {
                    left: Box::new(left),
                    right: Box::new(right),
                    on: fold_expression(join.on, session),
                    join_type: join.join_type,
                },
            )
        },
        other => other,
    }
}

} // verus!
