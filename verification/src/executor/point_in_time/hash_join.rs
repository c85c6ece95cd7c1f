use vstd::prelude::*;
use crate::ast::expr::Expression;
use crate::ast::rel::logical::JoinType;
use crate::data::{Datum, Session, Value};
use crate::data::datum::value_sql_eq;
use crate::data::tuple_iter::{lemma_rows_view_push, rows_view, tuple_view, Row};
use crate::executor::expression::{eval_expression, EvalScalar};
use crate::executor::point_in_time::Rows;

verus! {

/// Whether the keys of a left and a right row are equal, column by column:
/// the key of a row is its last `key_len` columns. As in SQL a null equals
/// nothing. A row that is shorter than the key matches none.
pub open spec fn keys_match(left: Seq<Value>, right: Seq<Value>, key_len: int) -> bool {
    &&& left.len() >= key_len
    &&& right.len() >= key_len
    &&& forall|i: int|
        0 <= i < key_len ==> value_sql_eq(
            #[trigger] left[left.len() - key_len + i],
            right[right.len() - key_len + i],
            false,
        )
}

/// The row that a left and a right row give together: the columns of the
/// left row followed by those of the right row.
pub open spec fn joined(left: Seq<Value>, right: Seq<Value>) -> Seq<Value> {
    left + right
}

/// Whether a left and a right row belong together: their keys are equal
/// and the condition is true of the row that they give.
pub open spec fn rows_match(
    left: Seq<Value>,
    right: Seq<Value>,
    key_len: int,
    condition: Expression,
) -> bool {
    keys_match(left, right, key_len) && eval_expression(condition, joined(left, right))
        == Value::Boolean(true)
}

/// The rows that a left row gives with the first `n` rows of the right
/// side: one for each right row that it belongs with, with the product of
/// the two frequencies.
pub open spec fn matches_of(
    left: (Seq<Value>, i32),
    right: Rows,
    key_len: int,
    condition: Expression,
    n: int,
) -> Rows
    decreases n,
{
    if n <= 0 || n > right.len() {
        Seq::empty()
    } else if rows_match(left.0, right[n - 1].0, key_len, condition) {
        matches_of(left, right, key_len, condition, n - 1).push(
            (joined(left.0, right[n - 1].0), left.1.wrapping_mul(right[n - 1].1)),
        )
    } else {
        matches_of(left, right, key_len, condition, n - 1)
    }
}

/// A row of `width` nulls.
pub open spec fn nulls(width: int) -> Seq<Value> {
    Seq::new(
        if width >= 0 {
            width as nat
        } else {
            0
        },
        |i: int| Value::Null,
    )
}

/// The rows that a left row gives in a join: its matches, or in a left
/// outer join without a match the row itself with nulls in the place of
/// the right side.
pub open spec fn joined_rows_of(
    left: (Seq<Value>, i32),
    right: Rows,
    key_len: int,
    condition: Expression,
    join_type: JoinType,
    right_width: int,
) -> Rows {
    let found = matches_of(left, right, key_len, condition, right.len() as int);
    if found.len() == 0 && join_type == JoinType::LeftOuter {
        seq![(left.0 + nulls(right_width), left.1)]
    } else {
        found
    }
}

/// The rows of a join of the first `n` rows of the left side with the
/// right side.
pub open spec fn join_rows(
    left: Rows,
    right: Rows,
    key_len: int,
    condition: Expression,
    join_type: JoinType,
    right_width: int,
    n: int,
) -> Rows
    decreases n,
{
    if n <= 0 || n > left.len() {
        Seq::empty()
    } else {
        join_rows(left, right, key_len, condition, join_type, right_width, n - 1) + joined_rows_of(
            left[n - 1],
            right,
            key_len,
            condition,
            join_type,
            right_width,
        )
    }
}

fn keys_equal(left: &[Datum], right: &[Datum], key_len: usize) -> (r: bool)
    ensures
        r == keys_match(tuple_view(left@), tuple_view(right@), key_len as int),
{
    if left.len() < key_len || right.len() < key_len {
        return false;
    }
    let l0 = left.len() - key_len;
    let r0 = right.len() - key_len;
    let mut i: usize = 0;
    while i < key_len
        invariant
            i <= key_len,
            key_len <= left@.len(),
            key_len <= right@.len(),
            l0 == left@.len() - key_len,
            r0 == right@.len() - key_len,
            l0 + key_len <= usize::MAX,
            r0 + key_len <= usize::MAX,
            forall|k: int|
                0 <= k < i ==> value_sql_eq(
                    #[trigger] tuple_view(left@)[left@.len() - key_len + k],
                    tuple_view(right@)[right@.len() - key_len + k],
                    false,
                ),
        decreases key_len - i,
    {
        if !left[l0 + i].sql_eq(&right[r0 + i], false) {
            assert(!value_sql_eq(
                tuple_view(left@)[left@.len() - key_len + i],
                tuple_view(right@)[right@.len() - key_len + i],
                false,
            ));
            return false;
        }
        i += 1;
    }
    true
}

/// The row that a left and a right row give together.
fn join_tuples(left: &[Datum], right: &[Datum]) -> (r: Vec<Datum<'static>>)
    ensures
        tuple_view(r@) == joined(tuple_view(left@), tuple_view(right@)),
{
    let mut r: Vec<Datum<'static>> = Vec::new();
    let mut i: usize = 0;
    while i < left.len()
        invariant
            i <= left@.len(),
            r@.len() == i,
            forall|k: int| 0 <= k < i ==> (#[trigger] r@[k])@ == left@[k]@,
        decreases left@.len() - i,
    {
        r.push(left[i].as_static());
        i += 1;
    }
    let mut j: usize = 0;
    while j < right.len()
        invariant
            j <= right@.len(),
            r@.len() == left@.len() + j,
            forall|k: int| 0 <= k < left@.len() ==> (#[trigger] r@[k])@ == left@[k]@,
            forall|k: int|
                left@.len() <= k < left@.len() + j ==> (#[trigger] r@[k])@ == right@[k
                    - left@.len()]@,
        decreases right@.len() - j,
    {
        r.push(right[j].as_static());
        j += 1;
    }
    assert(tuple_view(r@) =~= joined(tuple_view(left@), tuple_view(right@)));
    r
}

/// A left row with nulls in the place of the right side.
fn pad_tuple(left: &[Datum], right_width: usize) -> (r: Vec<Datum<'static>>)
    ensures
        tuple_view(r@) == tuple_view(left@) + nulls(right_width as int),
{
    let mut r: Vec<Datum<'static>> = Vec::new();
    let mut i: usize = 0;
    while i < left.len()
        invariant
            i <= left@.len(),
            r@.len() == i,
            forall|k: int| 0 <= k < i ==> (#[trigger] r@[k])@ == left@[k]@,
        decreases left@.len() - i,
    {
        r.push(left[i].as_static());
        i += 1;
    }
    let mut j: usize = 0;
    while j < right_width
        invariant
            j <= right_width,
            r@.len() == left@.len() + j,
            forall|k: int| 0 <= k < left@.len() ==> (#[trigger] r@[k])@ == left@[k]@,
            forall|k: int|
                left@.len() <= k < left@.len() + j ==> (#[trigger] r@[k])@ == Value::Null,
        decreases right_width - j,
    {
        r.push(Datum::Null);
        j += 1;
    }
    assert(tuple_view(r@) =~= tuple_view(left@) + nulls(right_width as int));
    r
}

/// Joins the rows of two sources whose last `key_len` columns are the
/// keys: for each left row, in the order of the left side, the right rows
/// that it belongs with, in the order of the right side, each pair as
/// the left row followed by the right row. For LEFT OUTER, emits each
/// left row with nulls padding the right side if no match passed the
/// condition.
pub fn hash_join(
    left: &Vec<Row>,
    right: &Vec<Row>,
    key_len: usize,
    condition: &Expression,
    join_type: JoinType,
    right_width: usize,
    session: &Session,
) -> (rows: Vec<Row>)
    ensures
        rows_view(rows@) == join_rows(
            rows_view(left@),
            rows_view(right@),
            key_len as int,
            *condition,
            join_type,
            right_width as int,
            left@.len() as int,
        ),
{
    let mut rows: Vec<Row> = Vec::new();
    let mut n: usize = 0;
    assert(rows_view(rows@) =~= Seq::empty());
    while n < left.len()
        invariant
            n <= left@.len(),
            rows_view(rows@) == join_rows(
                rows_view(left@),
                rows_view(right@),
                key_len as int,
                *condition,
                join_type,
                right_width as int,
                n as int,
            ),
        decreases left@.len() - n,
    {
        let ghost before = rows_view(rows@);
        let ghost l = rows_view(left@)[n as int];
        let mut found: usize = 0;
        let mut m: usize = 0;
        assert(rows_view(rows@) =~= before + Seq::empty());
        while m < right.len()
            invariant
                m <= right@.len(),
                n < left@.len(),
                l == rows_view(left@)[n as int],
                found == matches_of(l, rows_view(right@), key_len as int, *condition, m as int).len(),
                found <= m,
                rows_view(rows@) == before + matches_of(
                    l,
                    rows_view(right@),
                    key_len as int,
                    *condition,
                    m as int,
                ),
            decreases right@.len() - m,
        {
            let ghost r = rows_view(right@)[m as int];
            let mut belongs = false;
            if keys_equal(left[n].0.as_slice(), right[m].0.as_slice(), key_len) {
                let tuple = join_tuples(left[n].0.as_slice(), right[m].0.as_slice());
                let verdict = condition.eval_scalar(session, tuple.as_slice());
                if let Datum::Boolean(true) = verdict {
                    let row: Row = (tuple, left[n].1.wrapping_mul(right[m].1));
                    let ghost so_far = matches_of(
                        l,
                        rows_view(right@),
                        key_len as int,
                        *condition,
                        m as int,
                    );
                    proof {
                        lemma_rows_view_push(rows@, row);
                        assert((before + so_far).push((tuple_view(row.0@), row.1)) =~= before
                            + so_far.push((tuple_view(row.0@), row.1)));
                    }
                    rows.push(row);
                    found += 1;
                    belongs = true;
                }
            }
            m += 1;
        }
        if found == 0 && join_type == JoinType::LeftOuter {
            let row: Row = (pad_tuple(left[n].0.as_slice(), right_width), left[n].1);
            proof {
                lemma_rows_view_push(rows@, row);
                assert(before.push((tuple_view(row.0@), row.1)) =~= before + seq![
                    (tuple_view(row.0@), row.1),
                ]);
                assert(rows_view(rows@) =~= before);
            }
            rows.push(row);
        }
        n += 1;
    }
    rows
}

/// The sum of the frequencies of the first `n` rows.
pub open spec fn frequency_sum(rows: Rows, n: int) -> int
    decreases n,
{
    if n <= 0 || n > rows.len() {
        0
    } else {
        frequency_sum(rows, n - 1) + rows[n - 1].1
    }
}

/// The frequencies of rows one after the other add up.
pub proof fn lemma_frequency_sum_concat(a: Rows, b: Rows, n: int)
    requires
        0 <= n <= b.len(),
    ensures
        frequency_sum(a + b, a.len() + n) == frequency_sum(a, a.len() as int) + frequency_sum(b, n),
    decreases n,
{
    if n == 0 {
        lemma_frequency_sum_prefix(a, b, a.len() as int);
    } else {
        lemma_frequency_sum_concat(a, b, n - 1);
        assert((a + b)[a.len() + n - 1] == b[n - 1]);
    }
}

/// The sum of the first rows does not see the rows after them.
pub proof fn lemma_frequency_sum_prefix(a: Rows, b: Rows, n: int)
    requires
        0 <= n <= a.len(),
    ensures
        frequency_sum(a + b, n) == frequency_sum(a, n),
    decreases n,
{
    if n > 0 {
        lemma_frequency_sum_prefix(a, b, n - 1);
        assert((a + b)[n - 1] == a[n - 1]);
    }
}

/// Whether the product of the frequencies of each left and each right row
/// can be held in 32 bits.
pub open spec fn products_fit(left: Rows, right: Rows) -> bool {
    forall|i: int, j: int|
        0 <= i < left.len() && 0 <= j < right.len() ==> i32::MIN <= (#[trigger] left[i]).1 * (
        #[trigger] right[j]).1 <= i32::MAX
}

/// Without a key and under a condition that is always true, a left row
/// gives a row with each right row, and their frequencies add up to its
/// own frequency times the sum of the frequencies of the right rows.
pub proof fn lemma_matches_all(
    left: (Seq<Value>, i32),
    right: Rows,
    condition: Expression,
    n: int,
)
    requires
        0 <= n <= right.len(),
        condition matches Expression::Constant(d, _) && d@ == Value::Boolean(true),
        forall|j: int| 0 <= j < right.len() ==> i32::MIN <= left.1 * (#[trigger] right[j]).1
            <= i32::MAX,
    ensures
        matches_of(left, right, 0, condition, n).len() == n,
        frequency_sum(matches_of(left, right, 0, condition, n), n) == left.1 * frequency_sum(
            right,
            n,
        ),
    decreases n,
{
    if n > 0 {
        lemma_matches_all(left, right, condition, n - 1);
        let before = matches_of(left, right, 0, condition, n - 1);
        let r = right[n - 1];
        assert(keys_match(left.0, r.0, 0));
        assert(rows_match(left.0, r.0, 0, condition));
        let product = left.1 * r.1;
        assert(left.1.wrapping_mul(r.1) == product) by {
            assert(i32::MIN <= product <= i32::MAX);
            if product >= 0 {
                assert(product % 0x1_0000_0000 == product);
            } else {
                assert(product % 0x1_0000_0000 == product + 0x1_0000_0000);
            }
        }
        let after = matches_of(left, right, 0, condition, n);
        assert(after == before.push((joined(left.0, r.0), left.1.wrapping_mul(r.1))));
        lemma_frequency_sum_prefix(before, seq![after[n - 1]], n - 1);
        assert(after =~= before + seq![after[n - 1]]);
        assert(left.1 * (frequency_sum(right, n - 1) + r.1) == left.1 * frequency_sum(
            right,
            n - 1,
        ) + left.1 * r.1) by (nonlinear_arith);
    }
}

/// The cardinality of an inner join without a key under a condition that
/// is always true: the frequencies of its rows add up to the sum of the
/// frequencies of the left rows times that of the right rows, as long as
/// no product of two frequencies is too large to be held.
pub proof fn lemma_join_cardinality(
    left: Rows,
    right: Rows,
    condition: Expression,
    right_width: int,
    n: int,
)
    requires
        0 <= n <= left.len(),
        condition matches Expression::Constant(d, _) && d@ == Value::Boolean(true),
        products_fit(left, right),
    ensures
        frequency_sum(
            join_rows(left, right, 0, condition, JoinType::Inner, right_width, n),
            join_rows(left, right, 0, condition, JoinType::Inner, right_width, n).len() as int,
        ) == frequency_sum(left, n) * frequency_sum(right, right.len() as int),
    decreases n,
{
    if n > 0 {
        lemma_join_cardinality(left, right, condition, right_width, n - 1);
        let before = join_rows(left, right, 0, condition, JoinType::Inner, right_width, n - 1);
        let l = left[n - 1];
        assert forall|j: int| 0 <= j < right.len() implies i32::MIN <= l.1 * (
        #[trigger] right[j]).1 <= i32::MAX by {
            assert(i32::MIN <= left[n - 1].1 * right[j].1 <= i32::MAX);
        }
        lemma_matches_all(l, right, condition, right.len() as int);
        let found = matches_of(l, right, 0, condition, right.len() as int);
        assert(joined_rows_of(l, right, 0, condition, JoinType::Inner, right_width) == found);
        lemma_frequency_sum_concat(before, found, found.len() as int);
        let total = frequency_sum(right, right.len() as int);
        assert((frequency_sum(left, n - 1) + l.1) * total == frequency_sum(left, n - 1) * total
            + l.1 * total) by (nonlinear_arith);
    } else {
        assert(0 * frequency_sum(right, right.len() as int) == 0);
    }
}

} // verus!
