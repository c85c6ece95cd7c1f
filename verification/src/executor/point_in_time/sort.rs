use vstd::prelude::*;
use crate::ast::expr::SortExpression;
use crate::data::{Comparison, Datum, Session, Value};
use crate::data::datum::{bytes_compare, compare_bytes};
use crate::data::encoding_datum::encode;
use crate::data::tuple_iter::{lemma_rows_view_push, rows_view, tuple_view, Row};
use crate::executor::expression::{eval_expression, EvalScalar};
use crate::executor::point_in_time::Rows;
use crate::executor::point_in_time::values::clone_tuple;

verus! {

/// The key that a row is sorted by: the sortable encodings of the values
/// of the first `n` sort expressions over the row, each in the order of
/// its expression, one after the other.
pub open spec fn sort_key(expressions: Seq<SortExpression>, row: Seq<Value>, n: int) -> Seq<u8>
    decreases n,
{
    if n <= 0 || n > expressions.len() {
        Seq::empty()
    } else {
        sort_key(expressions, row, n - 1) + encode(
            eval_expression(expressions[n - 1].expression, row),
            expressions[n - 1].ordering,
        )
    }
}

/// The place of a new row among sorted rows: before the first row from
/// `i` on whose key is greater, so that rows of equal keys keep the order
/// in which they came.
pub open spec fn insertion_point(sorted: Seq<(Seq<u8>, (Seq<Value>, i32))>, key: Seq<u8>, i: int)
    -> int
    decreases sorted.len() - i,
{
    if i < 0 || i >= sorted.len() || bytes_compare(sorted[i].0, key) == Comparison::Greater {
        i
    } else {
        insertion_point(sorted, key, i + 1)
    }
}

/// The first `n` rows of a source with their keys, sorted by their keys:
/// each row is put in its place among those before it.
pub open spec fn sorted_keyed(expressions: Seq<SortExpression>, source: Rows, n: int) -> Seq<
    (Seq<u8>, (Seq<Value>, i32)),
>
    decreases n,
{
    if n <= 0 || n > source.len() {
        Seq::empty()
    } else {
        let before = sorted_keyed(expressions, source, n - 1);
        let key = sort_key(expressions, source[n - 1].0, expressions.len() as int);
        before.insert(insertion_point(before, key, 0), (key, source[n - 1]))
    }
}

/// The rows of a source sorted by the keys that the sort expressions give
/// them. Rows of equal keys keep their order.
pub open spec fn sort_rows(expressions: Seq<SortExpression>, source: Rows) -> Rows {
    let keyed = sorted_keyed(expressions, source, source.len() as int);
    Seq::new(keyed.len(), |i: int| keyed[i].1)
}

/// The key that a row is sorted by.
pub fn make_sort_key(expressions: &Vec<SortExpression>, row: &[Datum], session: &Session) -> (key:
    Vec<u8>)
    ensures
        key@ == sort_key(expressions@, tuple_view(row@), expressions@.len() as int),
{
    let mut key: Vec<u8> = Vec::new();
    let mut i: usize = 0;
    while i < expressions.len()
        invariant
            i <= expressions@.len(),
            key@ == sort_key(expressions@, tuple_view(row@), i as int),
        decreases expressions@.len() - i,
    {
        let value = expressions[i].expression.eval_scalar(session, row);
        value.as_sortable_bytes(expressions[i].ordering, &mut key);
        i += 1;
    }
    key
}

/// A row with its sort key.
pub struct Keyed {
    pub key: Vec<u8>,
    pub row: Row,
}

/// The views of keyed rows.
pub open spec fn keyed_view(keyed: Seq<Keyed>) -> Seq<(Seq<u8>, (Seq<Value>, i32))> {
    Seq::new(keyed.len(), |i: int| (keyed[i].key@, (tuple_view(keyed[i].row.0@), keyed[i].row.1)))
}

/// Materializes, sorts by encoded key of the sort expressions (ASC/DESC honored via the
/// sortable codec), then streams; stable.
pub fn sort(expressions: &Vec<SortExpression>, source: &Vec<Row>, session: &Session) -> (rows: Vec<
    Row,
>)
    ensures
        rows_view(rows@) == sort_rows(expressions@, rows_view(source@)),
{
    let mut keyed: Vec<Keyed> = Vec::new();
    let mut n: usize = 0;
    assert(keyed_view(keyed@) =~= Seq::empty());
    while n < source.len()
        invariant
            n <= source@.len(),
            keyed@.len() == n,
            keyed_view(keyed@) == sorted_keyed(expressions@, rows_view(source@), n as int),
        decreases source@.len() - n,
    {
        let key = make_sort_key(expressions, source[n].0.as_slice(), session);
        let ghost before = keyed_view(keyed@);
        let mut at: usize = 0;
        while at < keyed.len() && compare_bytes(keyed[at].key.as_slice(), key.as_slice())
            != Comparison::Greater
            invariant
                at <= keyed@.len(),
                before == keyed_view(keyed@),
                insertion_point(before, key@, 0) == insertion_point(before, key@, at as int),
            decreases keyed@.len() - at,
        {
            assert(before[at as int].0 == keyed@[at as int].key@);
            at += 1;
        }
        proof {
            if at < keyed@.len() {
                assert(before[at as int].0 == keyed@[at as int].key@);
            }
        }
        let row: Row = (clone_tuple(source[n].0.as_slice()), source[n].1);
        let item = Keyed { key, row };
        keyed.insert(at, item);
        assert(keyed_view(keyed@) =~= before.insert(
            at as int,
            (key@, rows_view(source@)[n as int]),
        ));
        n += 1;
    }
    let ghost sorted = keyed_view(keyed@);
    let ghost target = sort_rows(expressions@, rows_view(source@));
    let mut rows: Vec<Row> = Vec::new();
    let mut i: usize = 0;
    assert(rows_view(rows@) =~= target.subrange(0, 0));
    while i < keyed.len()
        invariant
            i <= keyed@.len(),
            sorted == keyed_view(keyed@),
            sorted == sorted_keyed(expressions@, rows_view(source@), source@.len() as int),
            target == sort_rows(expressions@, rows_view(source@)),
            rows_view(rows@) == target.subrange(0, i as int),
        decreases keyed@.len() - i,
    {
        let row: Row = (clone_tuple(keyed[i].row.0.as_slice()), keyed[i].row.1);
        proof {
            lemma_rows_view_push(rows@, row);
            assert(sorted[i as int].1 == (tuple_view(keyed@[i as int].row.0@), keyed@[i as int].row.1));
            assert(target.subrange(0, i + 1) =~= target.subrange(0, i as int).push(
                target[i as int],
            ));
        }
        rows.push(row);
        i += 1;
    }
    assert(target.subrange(0, i as int) =~= target);
    rows
}

} // verus!
