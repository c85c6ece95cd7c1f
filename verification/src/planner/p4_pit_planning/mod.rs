//! Lowering of a logical plan to a point-in-time plan.

use vstd::prelude::*;
use crate::ast::expr::{CompiledColumnReference, Expression, NamedExpression};
use crate::ast::rel::logical::{LogicalOperator};
use crate::ast::rel::point_in_time;
use crate::ast::rel::point_in_time::{Group, PointInTimeOperator};
use crate::data::{Datum, LogicalTimestamp, Session};
use crate::functions::ScalarFunction;
use crate::planner::{fields_view, Field, FieldView, Planner, PlannerError};
use crate::planner::p1_validation::compile_model::{failure_of, Failure};
use crate::planner::plan_model::{plan_model, PlanModel};
use crate::planner::utils::expr::{
    combine_predicates,
    conjuncts,
    decompose_predicate,
    is_combined,
    move_list,
    replaced_all,
    reverse_expressions,
    Substitution,
};
use crate::planner::utils::logical::{fields_for_operator, spec_fields};

pub mod lowerable;

use lowerable::model_plain;

verus! {

/// A plan for a query at a point in time, and the fields that it puts out.
#[derive(Debug)]
pub struct PointInTimePlan {
    pub fields: Vec<Field>,
    pub operator: PointInTimeOperator,
}

impl Planner {
    /// Plan a point in time query, this optimizes the logical operator tree and then transforms
    /// into a physical plan for point in time.
    ///
    /// The query is planned exactly where it validates and the validated
    /// query is plain. The plan that comes back is then the lowering of
    /// the query validated and optimized, with the fields of that plan. An
    /// error is that of validation, or says that a query that is not plain
    /// cannot be run.
    pub fn plan_for_point_in_time(&self, query: LogicalOperator, session: &Session) -> (r: Result<
        PointInTimePlan,
        PlannerError,
    >)
        ensures
            r is Ok <==> (self.spec_validate(query, *session) matches Ok(validated) && model_plain(
                validated,
            )),
            match r {
                Ok(plan) => exists|logical: LogicalOperator| #[trigger]
                    lowered(logical, plan.operator) && self.spec_plan(query, *session) == Ok::<
                        PlanModel,
                        Failure,
                    >(plan_model(logical)) && fields_view(plan.fields@) == spec_fields(logical),
                Err(error) => match self.spec_validate(query, *session) {
                    Ok(_) => failure_of(error) == not_plain(),
                    Err(failure) => failure == failure_of(error),
                },
            },
    {
        let (fields, operator) = match self.plan_common(query, session) {
            Ok(planned) => planned,
            Err(error) => {
                return Err(error);
            },
        };
        let ghost logical = operator;
        match build_operator(operator) {
            Ok(operator) => {
                assert(lowered(logical, operator));
                Ok(PointInTimePlan { fields, operator })
            },
            Err(_) => Err(
                PlannerError::TypeMismatch("a query that is not plain cannot be run".to_owned()),
            ),
        }
    }
}

/// What the planner fails with on a validated query that is not plain.
pub open spec fn not_plain() -> Failure {
    Failure::TypeMismatch("a query that is not plain cannot be run"@)
}

fn not_validated(what: &str) -> (e: PlannerError)
    ensures
        e is TypeMismatch,
{
    PlannerError::TypeMismatch(what.to_owned())
}

/// The expressions of an output without their names.
pub open spec fn expressions_of(named: Seq<NamedExpression>) -> Seq<Expression> {
    Seq::new(named.len(), |i: int| named[i].expression)
}

/// The expressions of an output without their names.
fn unnamed(expressions: Vec<NamedExpression>) -> (r: Vec<Expression>)
    ensures
        r@ == expressions_of(expressions@),
{
    let mut rest = expressions;
    let ghost all = rest@;
    let mut reversed: Vec<Expression> = Vec::new();
    while rest.len() > 0
        invariant
            rest@.len() <= all.len(),
            rest@ == all.subrange(0, rest@.len() as int),
            reversed@.len() + rest@.len() == all.len(),
            forall|k: int|
                0 <= k < reversed@.len() ==> #[trigger] reversed@[k] == all[all.len() - 1
                    - k].expression,
        decreases rest@.len(),
    {
        let ne = rest.pop().unwrap();
        assert(ne == all[rest@.len() as int]);
        assert(rest@ =~= all.subrange(0, rest@.len() as int));
        reversed.push(ne.expression);
    }
    let mut result: Vec<Expression> = Vec::new();
    while reversed.len() > 0
        invariant
            result@.len() + reversed@.len() == all.len(),
            forall|k: int|
                0 <= k < reversed@.len() ==> #[trigger] reversed@[k] == all[all.len() - 1
                    - k].expression,
            forall|k: int| 0 <= k < result@.len() ==> #[trigger] result@[k] == all[k].expression,
        decreases reversed@.len(),
    {
        let e = reversed.pop().unwrap();
        result.push(e);
    }
    assert(result@ =~= expressions_of(all));
    result
}

/// The datum of a constant.
pub open spec fn constant_datum(e: Expression) -> Option<Datum<'static>> {
    match e {
        Expression::Constant(d, _) => Some(d),
        _ => None,
    }
}

/// Whether a row of datums holds the datums of a row of constants.
pub open spec fn constants_in(row: Seq<Expression>, datums: Seq<Datum<'static>>) -> bool {
    datums.len() == row.len() && forall|i: int|
        0 <= i < row.len() ==> constant_datum(#[trigger] row[i]) == Some(datums[i])
}

/// Whether every expression of a row is a constant.
pub open spec fn all_constants(row: Seq<Expression>) -> bool {
    forall|i: int| 0 <= i < row.len() ==> (#[trigger] row[i]) is Constant
}

/// The datums of a row of constants; nothing where an expression of the
/// row is no constant.
fn constants_of(row: Vec<Expression>) -> (r: Option<Vec<Datum<'static>>>)
    ensures
        r is Some <==> all_constants(row@),
        r matches Some(datums) ==> constants_in(row@, datums@),
{
    let mut rest = row;
    let ghost all = rest@;
    let mut reversed: Vec<Datum<'static>> = Vec::new();
    while rest.len() > 0
        invariant
            rest@.len() <= all.len(),
            rest@ == all.subrange(0, rest@.len() as int),
            reversed@.len() + rest@.len() == all.len(),
            all == row@,
            forall|k: int|
                0 <= k < reversed@.len() ==> constant_datum(all[all.len() - 1 - k]) == Some(
                    #[trigger] reversed@[k],
                ),
        decreases rest@.len(),
    {
        let e = rest.pop().unwrap();
        assert(e == all[rest@.len() as int]);
        assert(rest@ =~= all.subrange(0, rest@.len() as int));
        match e {
            Expression::Constant(datum, _datatype) => {
                reversed.push(datum);
            },
            _ => {
                assert(!(row@[rest@.len() as int] is Constant));
                return None;
            },
        }
    }
    let mut result: Vec<Datum<'static>> = Vec::new();
    while reversed.len() > 0
        invariant
            result@.len() + reversed@.len() == all.len(),
            forall|k: int|
                0 <= k < reversed@.len() ==> constant_datum(all[all.len() - 1 - k]) == Some(
                    #[trigger] reversed@[k],
                ),
            forall|k: int|
                0 <= k < result@.len() ==> constant_datum(all[k]) == Some(#[trigger] result@[k]),
        decreases reversed@.len(),
    {
        let d = reversed.pop().unwrap();
        result.push(d);
    }
    assert forall|i: int| 0 <= i < row@.len() implies (#[trigger] row@[i]) is Constant by {
        assert(constant_datum(all[i]) == Some(result@[i]));
    }
    assert forall|i: int| 0 <= i < row@.len() implies constant_datum(#[trigger] row@[i]) == Some(
        result@[i],
    ) by {
        assert(constant_datum(all[i]) == Some(result@[i]));
    }
    Some(result)
}

/// Whether rows of datums hold the datums of rows of constants.
pub open spec fn constant_rows_in(
    rows: Seq<Vec<Expression>>,
    data: Seq<Vec<Datum<'static>>>,
) -> bool {
    data.len() == rows.len() && forall|i: int|
        0 <= i < rows.len() ==> constants_in((#[trigger] rows[i])@, data[i]@)
}

/// Whether every expression of every row is a constant.
pub open spec fn all_constant_rows(rows: Seq<Vec<Expression>>) -> bool {
    forall|i: int| 0 <= i < rows.len() ==> all_constants((#[trigger] rows[i])@)
}

/// The datums of rows of constants; nothing where an expression of a row
/// is no constant.
fn constant_rows(rows: Vec<Vec<Expression>>) -> (r: Option<Vec<Vec<Datum<'static>>>>)
    ensures
        r is Some <==> all_constant_rows(rows@),
        r matches Some(data) ==> constant_rows_in(rows@, data@),
{
    let mut rest = rows;
    let ghost all = rest@;
    let mut reversed: Vec<Vec<Datum<'static>>> = Vec::new();
    while rest.len() > 0
        invariant
            rest@.len() <= all.len(),
            rest@ == all.subrange(0, rest@.len() as int),
            reversed@.len() + rest@.len() == all.len(),
            all == rows@,
            forall|k: int|
                0 <= k < reversed@.len() ==> constants_in(
                    all[all.len() - 1 - k]@,
                    (#[trigger] reversed@[k])@,
                ),
            forall|i: int| rest@.len() <= i < all.len() ==> all_constants((#[trigger] all[i])@),
        decreases rest@.len(),
    {
        let row = rest.pop().unwrap();
        assert(row == all[rest@.len() as int]);
        assert(rest@ =~= all.subrange(0, rest@.len() as int));
        match constants_of(row) {
            Some(datums) => {
                reversed.push(datums);
            },
            None => {
                assert(!all_constants(rows@[rest@.len() as int]@));
                return None;
            },
        }
    }
    let mut data: Vec<Vec<Datum<'static>>> = Vec::new();
    while reversed.len() > 0
        invariant
            data@.len() + reversed@.len() == all.len(),
            forall|k: int|
                0 <= k < reversed@.len() ==> constants_in(
                    all[all.len() - 1 - k]@,
                    (#[trigger] reversed@[k])@,
                ),
            forall|k: int| 0 <= k < data@.len() ==> constants_in(all[k]@, (#[trigger] data@[k])@),
        decreases reversed@.len(),
    {
        let row = reversed.pop().unwrap();
        data.push(row);
    }
    assert forall|i: int| 0 <= i < rows@.len() implies constants_in(
        (#[trigger] rows@[i])@,
        data@[i]@,
    ) by {
        assert(constants_in(all[i]@, data@[i]@));
    }
    Some(data)
}

/// The reference to the column of a source at an offset.
pub open spec fn column_reference(offset: usize, fields: Seq<FieldView>) -> Expression {
    Expression::CompiledColumnReference(
        CompiledColumnReference { offset, datatype: fields[offset as int].data_type },
    )
}

/// References to the columns of a source, in their order.
pub open spec fn references(fields: Seq<FieldView>) -> Seq<Expression> {
    Seq::new(fields.len(), |i: int| column_reference(i as usize, fields))
}

/// References to the columns of a source, in their order.
fn column_references(fields: &Vec<Field>) -> (r: Vec<Expression>)
    ensures
        r@ == references(fields_view(fields@)),
{
    let mut r: Vec<Expression> = Vec::new();
    let mut i: usize = 0;
    while i < fields.len()
        invariant
            i <= fields@.len(),
            r@.len() == i,
            forall|k: int|
                0 <= k < i ==> #[trigger] r@[k] == Expression::CompiledColumnReference(
                    CompiledColumnReference { offset: k as usize, datatype: fields@[k].data_type },
                ),
        decreases fields@.len() - i,
    {
        r.push(
            Expression::CompiledColumnReference(
                CompiledColumnReference { offset: i, datatype: fields[i].data_type },
            ),
        );
        i += 1;
    }
    assert(r@ =~= references(fields_view(fields@)));
    r
}

/// Whether an expression is the equality of two plain column references.
pub open spec fn is_column_equality(expr: Expression) -> bool {
    expr matches Expression::CompiledFunctionCall(function) && function.function
        == ScalarFunction::Equal && function.args@.len() == 2
        && function.args@[0] is CompiledColumnReference
        && function.args@[1] is CompiledColumnReference
}

/// Whether an expression is the equality of two plain column references.
pub fn column_equality(expr: &Expression) -> (r: bool)
    ensures
        r == is_column_equality(*expr),
{
    match expr {
        Expression::CompiledFunctionCall(function) => {
            if function.function == ScalarFunction::Equal && function.args.len() == 2 {
                match (&function.args[0], &function.args[1]) {
                    (
                        Expression::CompiledColumnReference(_),
                        Expression::CompiledColumnReference(_),
                    ) => true,
                    _ => false,
                }
            } else {
                false
            }
        },
        _ => false,
    }
}

/// The number of key columns of a join: the number of conjuncts of its
/// condition that equate two plain column references.
pub open spec fn key_count(conjuncts: Seq<Expression>) -> nat
    decreases conjuncts.len(),
{
    if conjuncts.len() == 0 {
        0
    } else if is_column_equality(conjuncts.last()) {
        key_count(conjuncts.drop_last()) + 1
    } else {
        key_count(conjuncts.drop_last())
    }
}

/// The conjuncts of a join condition that do not equate two plain column
/// references, in their order.
pub open spec fn join_residue(conjuncts: Seq<Expression>) -> Seq<Expression>
    decreases conjuncts.len(),
{
    if conjuncts.len() == 0 {
        Seq::empty()
    } else if is_column_equality(conjuncts.last()) {
        join_residue(conjuncts.drop_last())
    } else {
        join_residue(conjuncts.drop_last()).push(conjuncts.last())
    }
}

/// Whether a plan can be lowered: it names no table that is not looked
/// up, has no distinct projection, inserts into tables only, and its
/// literal rows hold constants only.
pub open spec fn lowerable(query: LogicalOperator) -> bool
    decreases query, 0int,
{
    match query {
        LogicalOperator::Single => true,
        LogicalOperator::ResolvedTable(_) => true,
        LogicalOperator::TableReference(_) => false,
        LogicalOperator::Project(p) => !p.distinct && lowerable(*p.source),
        LogicalOperator::GroupBy(g) => g.key_expressions@.len() <= i64::MAX && lowerable(*g.source),
        LogicalOperator::Filter(f) => lowerable(*f.source),
        LogicalOperator::Limit(l) => lowerable(*l.source),
        LogicalOperator::Sort(s) => lowerable(*s.source),
        LogicalOperator::Values(v) => all_constant_rows(v.data@),
        LogicalOperator::UnionAll(u) => lowerable_all(u.sources@, u.sources@.len() as int),
        LogicalOperator::TableInsert(t) => *t.table is ResolvedTable && lowerable(*t.source),
        LogicalOperator::NegateFreq(source) => lowerable(*source),
        LogicalOperator::TableAlias(a) => lowerable(*a.source),
        LogicalOperator::FileScan(_) => true,
        LogicalOperator::Join(j) => lowerable(*j.left) && lowerable(*j.right),
    }
}

/// Whether the first `n` plans of a list can be lowered.
pub open spec fn lowerable_all(list: Seq<LogicalOperator>, n: int) -> bool
    decreases list, n,
{
    if n <= 0 || n > list.len() {
        true
    } else {
        lowerable_all(list, n - 1) && lowerable(list[n - 1])
    }
}

/// Whether a point-in-time plan is the lowering of a logical plan.
///
/// A projection, a filter, a sort, a limit, a union and a negation keep
/// their shape over their lowered sources. A grouping without keys is a
/// sorted group. A grouping with keys is a hash group over a projection of
/// the keys followed by the columns of the source; the column offsets in
/// its expressions are moved past the keys. A join is a hash join over
/// its lowered sources: each conjunct of its condition that equates two
/// plain column references counts as a key column, and the other
/// conjuncts, in their order, stay as the condition. A table is a scan of
/// its latest rows, a table alias its source, literal rows the datums of
/// their constants, a scan of files a scan of the same files.
pub open spec fn lowered(query: LogicalOperator, o: PointInTimeOperator) -> bool
    decreases query, 0int,
{
    match query {
        LogicalOperator::Single => o == PointInTimeOperator::Single,
        LogicalOperator::TableReference(_) => false,
        LogicalOperator::ResolvedTable(t) => o matches PointInTimeOperator::TableScan(scan)
            && scan.table == t.table && scan.timestamp.ms == u64::MAX,
        LogicalOperator::Project(p) => o matches PointInTimeOperator::Project(q) && q.expressions@
            == expressions_of(p.expressions@) && lowered(*p.source, *q.source),
        LogicalOperator::GroupBy(g) => if g.key_expressions@.len() == 0 {
            o matches PointInTimeOperator::SortedGroup(group) && group.key_len == 0
                && group.expressions@ == expressions_of(g.expressions@) && lowered(
                *g.source,
                *group.source,
            )
        } else {
            o matches PointInTimeOperator::HashGroup(group) && group.key_len
                == g.key_expressions@.len() && replaced_all(
                expressions_of(g.expressions@),
                group.expressions@,
                Substitution::Moved(g.key_expressions@.len() as int),
                g.expressions@.len() as int,
            ) && (*group.source matches PointInTimeOperator::Project(p) && p.expressions@
                == g.key_expressions@ + references(spec_fields(*g.source))
                && lowered(*g.source, *p.source))
        },
        LogicalOperator::Filter(f) => o matches PointInTimeOperator::Filter(q) && q.predicate
            == f.predicate && lowered(*f.source, *q.source),
        LogicalOperator::Limit(l) => o matches PointInTimeOperator::Limit(q) && q.offset == l.offset
            && q.limit == l.limit && lowered(*l.source, *q.source),
        LogicalOperator::Sort(s) => o matches PointInTimeOperator::Sort(q) && q.sort_expressions
            == s.sort_expressions && lowered(*s.source, *q.source),
        LogicalOperator::Values(v) => o matches PointInTimeOperator::Values(q) && q.column_count
            == v.fields@.len() && constant_rows_in(v.data@, q.data@),
        LogicalOperator::UnionAll(u) => o matches PointInTimeOperator::UnionAll(q) && lowered_all(
            u.sources@,
            q.sources@,
            u.sources@.len() as int,
        ),
        LogicalOperator::TableInsert(t) => o matches PointInTimeOperator::TableInsert(q) && (
        *t.table matches LogicalOperator::ResolvedTable(target) && q.table == target.table)
            && lowered(*t.source, *q.source),
        LogicalOperator::NegateFreq(source) => o matches PointInTimeOperator::NegateFreq(q)
            && lowered(*source, *q),
        LogicalOperator::TableAlias(a) => lowered(*a.source, o),
        LogicalOperator::FileScan(f) => o matches PointInTimeOperator::FileScan(q) && q.directory
            == f.directory && q.serde_options == f.serde_options,
        LogicalOperator::Join(j) => o matches PointInTimeOperator::HashJoin(q) && q.join_type
            == j.join_type && q.key_len == key_count(conjuncts(j.on)) && is_combined(
            q.non_equi_condition,
            join_residue(conjuncts(j.on)),
        ) && lowered(*j.left, *q.left) && lowered(*j.right, *q.right),
    }
}

/// Whether two lists are of one length and each of the first `n` plans of
/// `built` is the lowering of that of `list`.
pub open spec fn lowered_all(
    list: Seq<LogicalOperator>,
    built: Seq<PointInTimeOperator>,
    n: int,
) -> bool
    decreases list, n,
{
    if list.len() != built.len() {
        false
    } else if n <= 0 || n > list.len() {
        true
    } else {
        lowered_all(list, built, n - 1) && lowered(list[n - 1], built[n - 1])
    }
}

proof fn lemma_lowered_all(list: Seq<LogicalOperator>, built: Seq<PointInTimeOperator>, n: int)
    requires
        list.len() == built.len(),
        0 <= n <= list.len(),
        forall|k: int| 0 <= k < n ==> lowerable(#[trigger] list[k]),
        forall|k: int| 0 <= k < n ==> lowered(#[trigger] list[k], built[k]),
    ensures
        lowered_all(list, built, n),
        lowerable_all(list, n),
    decreases n,
{
    if n > 0 {
        lemma_lowered_all(list, built, n - 1);
    }
}

proof fn lemma_lowerable_at(list: Seq<LogicalOperator>, n: int, k: int)
    requires
        lowerable_all(list, n),
        0 <= k < n <= list.len(),
    ensures
        lowerable(list[k]),
    decreases n,
{
    if k < n - 1 {
        lemma_lowerable_at(list, n - 1, k);
    }
}

fn build_all(list: Vec<LogicalOperator>) -> (r: Result<Vec<PointInTimeOperator>, PlannerError>)
    ensures
        r is Ok <==> lowerable_all(list@, list@.len() as int),
        r matches Ok(built) ==> lowered_all(list@, built@, list@.len() as int),
        r matches Err(e) ==> e is TypeMismatch,
    decreases list,
{
    let mut rest = list;
    let ghost all = rest@;
    let mut reversed: Vec<PointInTimeOperator> = Vec::new();
    while rest.len() > 0
        invariant
            rest@.len() <= all.len(),
            rest@ == all.subrange(0, rest@.len() as int),
            reversed@.len() + rest@.len() == all.len(),
            all == list@,
            forall|k: int|
                0 <= k < reversed@.len() ==> lowered(
                    all[all.len() - 1 - k],
                    #[trigger] reversed@[k],
                ),
            forall|i: int| rest@.len() <= i < all.len() ==> lowerable(#[trigger] all[i]),
        decreases rest@.len(),
    {
        proof {
            vstd::seq::axiom_seq_index_decreases(all, rest@.len() - 1);
        }
        let source = rest.pop().unwrap();
        assert(source == all[rest@.len() as int]);
        assert(rest@ =~= all.subrange(0, rest@.len() as int));
        match build_operator(source) {
            Ok(built) => {
                reversed.push(built);
            },
            Err(error) => {
                proof {
                    if lowerable_all(all, all.len() as int) {
                        lemma_lowerable_at(all, all.len() as int, rest@.len() as int);
                    }
                }
                return Err(error);
            },
        }
    }
    let mut result: Vec<PointInTimeOperator> = Vec::new();
    while reversed.len() > 0
        invariant
            result@.len() + reversed@.len() == all.len(),
            forall|k: int|
                0 <= k < reversed@.len() ==> lowered(
                    all[all.len() - 1 - k],
                    #[trigger] reversed@[k],
                ),
            forall|k: int| 0 <= k < result@.len() ==> lowered(all[k], #[trigger] result@[k]),
        decreases reversed@.len(),
    {
        let built = reversed.pop().unwrap();
        result.push(built);
    }
    proof {
        assert forall|k: int| 0 <= k < all.len() implies lowered(#[trigger] all[k], result@[k]) by {
            assert(lowered(all[k], result@[k]));
        }
        lemma_lowered_all(all, result@, all.len() as int);
    }
    Ok(result)
}

/// The conjuncts of a join condition sorted: how many equate two plain
/// column references, and the others in their order.
fn split_condition(on: Expression) -> (r: (usize, Vec<Expression>))
    ensures
        r.0 == key_count(conjuncts(on)),
        r.1@ == join_residue(conjuncts(on)),
{
    let mut count: usize = 0;
    let mut residue: Vec<Expression> = Vec::new();
    let parts = decompose_predicate(on);
    let ghost all = parts@;
    let total = parts.len();
    let mut rest = reverse_expressions(parts);
    assert(all.subrange(0, 0) =~= Seq::<Expression>::empty());
    while rest.len() > 0
        invariant
            rest@.len() <= all.len(),
            all.len() == total,
            forall|i: int| 0 <= i < rest@.len() ==> #[trigger] rest@[i] == all[all.len() - 1 - i],
            count == key_count(all.subrange(0, all.len() - rest@.len())),
            count <= all.len() - rest@.len(),
            residue@ == join_residue(all.subrange(0, all.len() - rest@.len())),
        decreases rest@.len(),
    {
        let ghost done = all.subrange(0, all.len() - rest@.len());
        let expr = rest.pop().unwrap();
        let ghost next = all.subrange(0, all.len() - rest@.len());
        assert(expr == all[all.len() - rest@.len() - 1]);
        assert(next.drop_last() =~= done);
        assert(next.last() == expr);
        if column_equality(&expr) {
            count += 1;
        } else {
            residue.push(expr);
        }
    }
    assert(all.subrange(0, all.len() as int) =~= all);
    (count, residue)
}

/// Lowers a validated plan, operator by operator: the plan that comes
/// back is the lowering of the query. A plan that is not validated (a
/// table by name only, an insert into what is no table, literal rows that
/// are no constants, a distinct projection) cannot be lowered.
pub fn build_operator(query: LogicalOperator) -> (r: Result<PointInTimeOperator, PlannerError>)
    ensures
        r is Ok <==> lowerable(query),
        r matches Ok(o) ==> lowered(query, o),
        r matches Err(e) ==> e is TypeMismatch,
    decreases query,
{
    match query {
        LogicalOperator::Single => Ok(PointInTimeOperator::Single),
        LogicalOperator::Project(project) => {
            if project.distinct {
                return Err(not_validated("a distinct projection cannot be run"));
            }
            let source = match build_operator(*project.source) {
                Ok(source) => source,
                Err(error) => {
                    return Err(error);
                },
            };
            Ok(
                PointInTimeOperator::Project(
                    point_in_time::Project {
                        expressions: unnamed(project.expressions),
                        source: Box::new(source),
                    },
                ),
            )
        },
        LogicalOperator::GroupBy(group_by) => {
            if group_by.key_expressions.len() == 0 {
                let source = match build_operator(*group_by.source) {
                    Ok(source) => source,
                    Err(error) => {
                        return Err(error);
                    },
                };
                Ok(
                    PointInTimeOperator::SortedGroup(
                        Group {
                            source: Box::new(source),
                            expressions: unnamed(group_by.expressions),
                            key_len: 0,
                        },
                    ),
                )
            } else {
                // The key expr's have to be in the group by source.
                // We'll create a new project to do this.
                let key_len = group_by.key_expressions.len();
                if key_len as u64 > 0x7FFF_FFFF_FFFF_FFFF {
                    return Err(not_validated("too many grouping keys"));
                }
                let mut project_exprs = group_by.key_expressions;
                let fields = fields_for_operator(&*group_by.source);
                let mut references = column_references(&fields);
                project_exprs.append(&mut references);
                let source = match build_operator(*group_by.source) {
                    Ok(source) => source,
                    Err(error) => {
                        return Err(error);
                    },
                };
                let project = point_in_time::Project {
                    expressions: project_exprs,
                    source: Box::new(source),
                };
                let group_exprs = move_list(unnamed(group_by.expressions), key_len as i64);
                Ok(
                    PointInTimeOperator::HashGroup(
                        Group {
                            source: Box::new(PointInTimeOperator::Project(project)),
                            expressions: group_exprs,
                            key_len,
                        },
                    ),
                )
            }
        },
        LogicalOperator::Filter(filter) => {
            let source = match build_operator(*filter.source) {
                Ok(source) => source,
                Err(error) => {
                    return Err(error);
                },
            };
            Ok(
                PointInTimeOperator::Filter(
                    point_in_time::Filter { predicate: filter.predicate, source: Box::new(source) },
                ),
            )
        },
        LogicalOperator::Limit(limit) => {
            let source = match build_operator(*limit.source) {
                Ok(source) => source,
                Err(error) => {
                    return Err(error);
                },
            };
            Ok(
                PointInTimeOperator::Limit(
                    point_in_time::Limit {
                        offset: limit.offset,
                        limit: limit.limit,
                        source: Box::new(source),
                    },
                ),
            )
        },
        LogicalOperator::Sort(sort) => {
            let source = match build_operator(*sort.source) {
                Ok(source) => source,
                Err(error) => {
                    return Err(error);
                },
            };
            Ok(
                PointInTimeOperator::Sort(
                    point_in_time::Sort {
                        sort_expressions: sort.sort_expressions,
                        source: Box::new(source),
                    },
                ),
            )
        },
        LogicalOperator::Values(values) => {
            let column_count = values.fields.len();
            let data = match constant_rows(values.data) {
                Some(data) => data,
                None => {
                    return Err(not_validated("literal rows have to hold constants only"));
                },
            };
            Ok(PointInTimeOperator::Values(point_in_time::Values { data, column_count }))
        },
        LogicalOperator::UnionAll(union_all) => {
            match build_all(union_all.sources) {
                Ok(sources) => Ok(
                    PointInTimeOperator::UnionAll(point_in_time::UnionAll { sources }),
                ),
                Err(error) => Err(error),
            }
        },
        LogicalOperator::ResolvedTable(resolved) => {
            Ok(
                PointInTimeOperator::TableScan(
                    point_in_time::TableScan {
                        table: resolved.table,
                        // Having a timestamp in the future gives us read after write within the same ms
                        timestamp: LogicalTimestamp::maximum(),
                    },
                ),
            )
        },
        LogicalOperator::TableInsert(insert) => {
            let actual_table = match *insert.table {
                LogicalOperator::ResolvedTable(resolved) => resolved.table,
                _ => {
                    return Err(
                        not_validated("Can not insert into anything other than a resolved table"),
                    );
                },
            };
            let source = match build_operator(*insert.source) {
                Ok(source) => source,
                Err(error) => {
                    return Err(error);
                },
            };
            Ok(
                PointInTimeOperator::TableInsert(
                    point_in_time::TableInsert { table: actual_table, source: Box::new(source) },
                ),
            )
        },
        LogicalOperator::NegateFreq(source) => {
            match build_operator(*source) {
                Ok(source) => Ok(PointInTimeOperator::NegateFreq(Box::new(source))),
                Err(error) => Err(error),
            }
        },
        LogicalOperator::TableAlias(table_alias) => build_operator(*table_alias.source),
        LogicalOperator::FileScan(file_scan) => Ok(
            PointInTimeOperator::FileScan(
                point_in_time::FileScan {
                    directory: file_scan.directory,
                    serde_options: file_scan.serde_options,
                },
            ),
        ),
        LogicalOperator::Join(join) => {
            let (key_len, residue) = split_condition(join.on);
            let left = match build_operator(*join.left) {
                Ok(left) => left,
                Err(error) => {
                    return Err(error);
                },
            };
            let right = match build_operator(*join.right) {
                Ok(right) => right,
                Err(error) => {
                    return Err(error);
                },
            };
            Ok(
                PointInTimeOperator::HashJoin(
                    point_in_time::Join {
                        left: Box::new(left),
                        right: Box::new(right),
                        key_len,
                        non_equi_condition: combine_predicates(residue),
                        join_type: join.join_type,
                    },
                ),
            )
        },
        LogicalOperator::TableReference(_) => Err(not_validated("a table that is not looked up")),
    }
}

} // verus!
