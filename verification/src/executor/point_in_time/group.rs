//! Grouping: the sorted group and the hash group.

use vstd::prelude::*;
use crate::ast::expr::{CompiledAggregate, Expression};
use crate::data::{Datum, Session, Value};
use crate::data::datum::value_sql_eq;
use crate::data::tuple_iter::{lemma_rows_view_push, lemma_tuple_view_push, rows_view, tuple_view, Row};
use crate::executor::expression::{eval_expressions, eval_list};
use crate::executor::point_in_time::Rows;
use crate::executor::point_in_time::values::clone_tuple;
use crate::functions::{AggregateFunction, Function};

verus! {

/// The state of an aggregate after the first `n` rows of a group.
pub open spec fn aggregate_state(aggregate: CompiledAggregate, rows: Rows, n: int) -> Value
    decreases n,
{
    if n <= 0 || n > rows.len() {
        aggregate.function.spec_initial()
    } else {
        aggregate.function.spec_apply(
            aggregate_state(aggregate, rows, n - 1),
            eval_expressions(aggregate.args@, rows[n - 1].0, aggregate.args@.len() as int),
            rows[n - 1].1 as i64,
        )
    }
}

/// The value of an expression over a group of rows.
///
/// An aggregate is applied to the rows of the group, each with its
/// frequency. A column is the column of the first row of the group, which
/// for a grouping key is the same in every row; in an empty group it is
/// null. A function is applied to the values of its arguments.
pub open spec fn eval_group(expr: Expression, rows: Rows) -> Value
    decreases expr, 0int,
{
    match expr {
        Expression::Constant(datum, _) => datum@,
        Expression::CompiledColumnReference(column) => if rows.len() > 0 && column.offset
            < rows[0].0.len() {
            rows[0].0[column.offset as int]
        } else {
            Value::Null
        },
        Expression::CompiledFunctionCall(function_call) => function_call.function.spec_execute(
            function_call.signature.ret,
            eval_group_list(function_call.args@, rows, function_call.args@.len() as int),
        ),
        Expression::CompiledAggregate(aggregate) => aggregate_state(
            aggregate,
            rows,
            rows.len() as int,
        ),
        _ => Value::Null,
    }
}

/// The values of the first `n` expressions of a list over a group.
pub open spec fn eval_group_list(list: Seq<Expression>, rows: Rows, n: int) -> Seq<Value>
    decreases list, n,
{
    if n <= 0 || n > list.len() {
        Seq::empty()
    } else {
        eval_group_list(list, rows, n - 1).push(eval_group(list[n - 1], rows))
    }
}

/// Applies an aggregate to the rows of a group.
fn run_aggregate(aggregate: &CompiledAggregate, rows: &Vec<Row>, session: &Session) -> (r: Datum<
    'static,
>)
    ensures
        r@ == aggregate_state(*aggregate, rows_view(rows@), rows@.len() as int),
{
    let mut state: Vec<Datum<'static>> = Vec::new();
    aggregate.function.initialize(&mut state);
    let mut i: usize = 0;
    while i < rows.len()
        invariant
            i <= rows@.len(),
            state@.len() == 1,
            state@[0]@ == aggregate_state(*aggregate, rows_view(rows@), i as int),
        decreases rows@.len() - i,
    {
        let args = eval_list(&aggregate.args, session, rows[i].0.as_slice());
        aggregate.function.apply(&*aggregate.signature, args.as_slice(), rows[i].1 as i64, &mut state);
        i += 1;
    }
    aggregate.function.finalize(&*aggregate.signature, state.as_slice())
}

fn eval_over_group_list(list: &Vec<Expression>, rows: &Vec<Row>, session: &Session) -> (r: Vec<
    Datum<'static>,
>)
    ensures
        tuple_view(r@) == eval_group_list(list@, rows_view(rows@), list@.len() as int),
        r@.len() == list@.len(),
    decreases list,
{
    let mut r: Vec<Datum<'static>> = Vec::new();
    let mut i: usize = 0;
    assert(tuple_view(r@) =~= Seq::empty());
    while i < list.len()
        invariant
            i <= list@.len(),
            r@.len() == i,
            tuple_view(r@) == eval_group_list(list@, rows_view(rows@), i as int),
        decreases list@.len() - i,
    {
        proof {
            vstd::std_specs::vec::axiom_vec_index_decreases(*list, i as int);
        }
        let v = eval_over_group(&list[i], rows, session);
        proof {
            lemma_tuple_view_push(r@, v);
        }
        r.push(v);
        i += 1;
    }
    r
}

/// Evaluates an expression over a group of rows.
pub fn eval_over_group(expr: &Expression, rows: &Vec<Row>, session: &Session) -> (r: Datum<
    'static,
>)
    ensures
        r@ == eval_group(*expr, rows_view(rows@)),
    decreases expr,
{
    match expr {
        Expression::Constant(datum, _) => datum.as_static(),
        Expression::CompiledColumnReference(column) => {
            if rows.len() > 0 && column.offset < rows[0].0.len() {
                rows[0].0[column.offset].as_static()
            } else {
                Datum::Null
            }
        },
        Expression::CompiledFunctionCall(function_call) => {
            let args = eval_over_group_list(&function_call.args, rows, session);
            function_call.function.execute(session, &*function_call.signature, args.as_slice())
        },
        Expression::CompiledAggregate(aggregate) => run_aggregate(aggregate, rows, session),
        _ => Datum::Null,
    }
}

/// Whether two rows agree in their first `key_len` columns. Nulls agree
/// with each other; a row that is shorter than the key agrees with none.
pub open spec fn same_key(a: Seq<Value>, b: Seq<Value>, key_len: int) -> bool {
    &&& a.len() >= key_len
    &&& b.len() >= key_len
    &&& forall|i: int| 0 <= i < key_len ==> value_sql_eq(#[trigger] a[i], b[i], true)
}

fn keys_agree(a: &[Datum], b: &[Datum], key_len: usize) -> (r: bool)
    ensures
        r == same_key(tuple_view(a@), tuple_view(b@), key_len as int),
{
    if a.len() < key_len || b.len() < key_len {
        return false;
    }
    let mut i: usize = 0;
    while i < key_len
        invariant
            i <= key_len,
            key_len <= a@.len(),
            key_len <= b@.len(),
            forall|k: int|
                0 <= k < i ==> value_sql_eq(
                    #[trigger] tuple_view(a@)[k],
                    tuple_view(b@)[k],
                    true,
                ),
        decreases key_len - i,
    {
        if !a[i].sql_eq(&b[i], true) {
            assert(!value_sql_eq(tuple_view(a@)[i as int], tuple_view(b@)[i as int], true));
            return false;
        }
        i += 1;
    }
    true
}

/// The group among the first `n` that a row belongs to: the first whose
/// first row agrees with it in the key.
pub open spec fn find_group(groups: Seq<Rows>, row: Seq<Value>, key_len: int, n: int) -> Option<int>
    decreases n,
{
    if n <= 0 || n > groups.len() {
        None
    } else {
        match find_group(groups, row, key_len, n - 1) {
            Some(i) => Some(i),
            None => if groups[n - 1].len() > 0 && same_key(groups[n - 1][0].0, row, key_len) {
                Some(n - 1)
            } else {
                None
            },
        }
    }
}

/// The groups of the first `n` rows of a source by their first `key_len`
/// columns, in the order in which their first rows came.
pub open spec fn hash_groups(source: Rows, key_len: int, n: int) -> Seq<Rows>
    decreases n,
{
    if n <= 0 || n > source.len() {
        Seq::empty()
    } else {
        let before = hash_groups(source, key_len, n - 1);
        match find_group(before, source[n - 1].0, key_len, before.len() as int) {
            Some(i) => before.update(i, before[i].push(source[n - 1])),
            None => before.push(seq![source[n - 1]]),
        }
    }
}

/// The groups of the first `n` rows of a source that is sorted by its
/// first `key_len` columns: a row whose key is that of the row before it
/// falls into the same group, any other row begins a group. Without a key
/// all rows make up one group, which is there even without a row.
pub open spec fn sorted_groups(source: Rows, key_len: int, n: int) -> Seq<Rows>
    decreases n,
{
    if n <= 0 || n > source.len() {
        if key_len == 0 {
            seq![Seq::empty()]
        } else {
            Seq::empty()
        }
    } else {
        let before = sorted_groups(source, key_len, n - 1);
        if before.len() > 0 && (key_len == 0 || (before.last().len() > 0 && same_key(
            before.last()[0].0,
            source[n - 1].0,
            key_len,
        ))) {
            before.update(before.len() - 1, before.last().push(source[n - 1]))
        } else {
            before.push(seq![source[n - 1]])
        }
    }
}

/// The rows that groups give: for each group the values of the
/// expressions over it, once.
pub open spec fn group_output(expressions: Seq<Expression>, groups: Seq<Rows>) -> Rows {
    Seq::new(
        groups.len(),
        |i: int| (eval_group_list(expressions, groups[i], expressions.len() as int), 1i32),
    )
}

/// The views of groups.
pub open spec fn groups_view(groups: Seq<Vec<Row>>) -> Seq<Rows> {
    Seq::new(groups.len(), |i: int| rows_view(groups[i]@))
}

fn clone_row(row: &Row) -> (r: Row)
    ensures
        tuple_view(r.0@) == tuple_view(row.0@),
        r.1 == row.1,
{
    (clone_tuple(row.0.as_slice()), row.1)
}

fn output(expressions: &Vec<Expression>, groups: &Vec<Vec<Row>>, session: &Session) -> (rows: Vec<
    Row,
>)
    ensures
        rows_view(rows@) == group_output(expressions@, groups_view(groups@)),
{
    let ghost target = group_output(expressions@, groups_view(groups@));
    let mut rows: Vec<Row> = Vec::new();
    let mut i: usize = 0;
    assert(rows_view(rows@) =~= target.subrange(0, 0));
    while i < groups.len()
        invariant
            i <= groups@.len(),
            target == group_output(expressions@, groups_view(groups@)),
            rows_view(rows@) == target.subrange(0, i as int),
        decreases groups@.len() - i,
    {
        let tuple = eval_over_group_list(expressions, &groups[i], session);
        let row: Row = (tuple, 1);
        proof {
            lemma_rows_view_push(rows@, row);
            assert(groups_view(groups@)[i as int] == rows_view(groups@[i as int]@));
            assert(target.subrange(0, i + 1) =~= target.subrange(0, i as int).push(
                target[i as int],
            ));
        }
        rows.push(row);
        i += 1;
    }
    assert(target.subrange(0, i as int) =~= target);
    rows
}

/// Builds a table keyed by the first `key_len` columns, and emits all
/// groups after the source is exhausted.
pub fn hash_group(
    expressions: &Vec<Expression>,
    key_len: usize,
    source: &Vec<Row>,
    session: &Session,
) -> (rows: Vec<Row>)
    ensures
        rows_view(rows@) == group_output(
            expressions@,
            hash_groups(rows_view(source@), key_len as int, source@.len() as int),
        ),
{
    let mut groups: Vec<Vec<Row>> = Vec::new();
    let mut n: usize = 0;
    assert(groups_view(groups@) =~= Seq::empty());
    while n < source.len()
        invariant
            n <= source@.len(),
            groups_view(groups@) == hash_groups(rows_view(source@), key_len as int, n as int),
        decreases source@.len() - n,
    {
        let ghost before = groups_view(groups@);
        let ghost row_view = rows_view(source@)[n as int];
        let mut found: Option<usize> = None;
        let mut g: usize = 0;
        while g < groups.len()
            invariant
                g <= groups@.len(),
                n < source@.len(),
                before == groups_view(groups@),
                row_view == rows_view(source@)[n as int],
                match found {
                    Some(i) => find_group(before, row_view.0, key_len as int, g as int) == Some(
                        i as int,
                    ) && i < g,
                    None => find_group(before, row_view.0, key_len as int, g as int) is None,
                },
            decreases groups@.len() - g,
        {
            assert(before[g as int] == rows_view(groups@[g as int]@));
            if found.is_none() && groups[g].len() > 0 && keys_agree(
                groups[g][0].0.as_slice(),
                source[n].0.as_slice(),
                key_len,
            ) {
                found = Some(g);
            }
            g += 1;
        }
        let row = clone_row(&source[n]);
        match found {
            Some(i) => {
                let mut group: Vec<Row> = Vec::new();
                std::mem::swap(&mut group, &mut groups[i]);
                proof {
                    lemma_rows_view_push(group@, row);
                }
                group.push(row);
                groups[i] = group;
                assert(groups_view(groups@) =~= before.update(i as int, before[i as int].push(row_view)));
            },
            None => {
                let mut group: Vec<Row> = Vec::new();
                proof {
                    lemma_rows_view_push(group@, row);
                    assert(rows_view(group@) =~= Seq::empty());
                }
                group.push(row);
                groups.push(group);
                assert(groups_view(groups@) =~= before.push(seq![row_view]));
            },
        }
        n += 1;
    }
    output(expressions, &groups, session)
}

/// Streams a source known to be sorted by the grouping key and emits a
/// row for each run of rows with one key. With `key_len = 0` it emits
/// exactly one row even if the source is empty.
pub fn sorted_group(
    expressions: &Vec<Expression>,
    key_len: usize,
    source: &Vec<Row>,
    session: &Session,
) -> (rows: Vec<Row>)
    ensures
        rows_view(rows@) == group_output(
            expressions@,
            sorted_groups(rows_view(source@), key_len as int, source@.len() as int),
        ),
{
    let mut groups: Vec<Vec<Row>> = Vec::new();
    if key_len == 0 {
        let empty: Vec<Row> = Vec::new();
        assert(rows_view(empty@) =~= Seq::empty());
        groups.push(empty);
        assert(groups_view(groups@) =~= seq![Seq::empty()]);
    } else {
        assert(groups_view(groups@) =~= Seq::empty());
    }
    let mut n: usize = 0;
    while n < source.len()
        invariant
            n <= source@.len(),
            groups_view(groups@) == sorted_groups(rows_view(source@), key_len as int, n as int),
        decreases source@.len() - n,
    {
        let ghost before = groups_view(groups@);
        let ghost row_view = rows_view(source@)[n as int];
        let row = clone_row(&source[n]);
        let count = groups.len();
        proof {
            if count > 0 {
                assert(before[count - 1] == rows_view(groups@[count - 1]@));
            }
        }
        let joins = count > 0 && (key_len == 0 || (groups[count - 1].len() > 0 && keys_agree(
            groups[count - 1][0].0.as_slice(),
            source[n].0.as_slice(),
            key_len,
        )));
        if joins {
            let mut group: Vec<Row> = Vec::new();
            std::mem::swap(&mut group, &mut groups[count - 1]);
            proof {
                lemma_rows_view_push(group@, row);
            }
            group.push(row);
            groups[count - 1] = group;
            assert(groups_view(groups@) =~= before.update(
                count - 1,
                before[count - 1].push(row_view),
            ));
        } else {
            let mut group: Vec<Row> = Vec::new();
            proof {
                lemma_rows_view_push(group@, row);
                assert(rows_view(group@) =~= Seq::empty());
            }
            group.push(row);
            groups.push(group);
            assert(groups_view(groups@) =~= before.push(seq![row_view]));
        }
        n += 1;
    }
    output(expressions, &groups, session)
}

} // verus!
