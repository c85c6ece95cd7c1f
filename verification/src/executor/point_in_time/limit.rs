use vstd::prelude::*;
use crate::data::tuple_iter::{lemma_rows_view_push, rows_view, Row};
use crate::executor::point_in_time::Rows;
use crate::executor::point_in_time::values::clone_tuple;

verus! {

/// The smaller of two numbers.
pub open spec fn least(a: int, b: int) -> int {
    if a <= b {
        a
    } else {
        b
    }
}

/// The rows that a limit lets through from row `i` on, added to `acc`.
///
/// Rows count by their frequency: a row of frequency three is three rows.
/// Of each row as many as are still to be skipped are skipped, and of the
/// rest as many handed out as the limit still has room for. A row whose
/// frequency is not above zero passes as it is.
pub open spec fn limit_rows(source: Rows, i: int, skip: int, room: int, acc: Rows) -> Rows
    decreases source.len() - i,
{
    if i < 0 || i >= source.len() {
        acc
    } else {
        let freq = source[i].1 as int;
        if freq <= 0 {
            limit_rows(source, i + 1, skip, room, acc.push(source[i]))
        } else {
            let skipped = least(freq, skip);
            let given = least(freq - skipped, room);
            limit_rows(
                source,
                i + 1,
                skip - skipped,
                room - given,
                if given > 0 {
                    acc.push((source[i].0, given as i32))
                } else {
                    acc
                },
            )
        }
    }
}

/// A number of rows that is not below zero.
pub open spec fn at_least_zero(n: i64) -> int {
    if n < 0 {
        0
    } else {
        n as int
    }
}

/// Skips `offset` rows by frequency-weighted count, then emits until the
/// cumulative positive freq reaches `limit`.
pub fn limit(source: &Vec<Row>, offset: i64, count: i64) -> (rows: Vec<Row>)
    ensures
        rows_view(rows@) == limit_rows(
            rows_view(source@),
            0,
            at_least_zero(offset),
            at_least_zero(count),
            Seq::empty(),
        ),
{
    let mut skip: i64 = if offset < 0 {
        0
    } else {
        offset
    };
    let mut room: i64 = if count < 0 {
        0
    } else {
        count
    };
    let mut rows: Vec<Row> = Vec::new();
    let mut i: usize = 0;
    assert(rows_view(rows@) =~= Seq::empty());
    while i < source.len()
        invariant
            i <= source@.len(),
            skip >= 0,
            room >= 0,
            limit_rows(
                rows_view(source@),
                0,
                at_least_zero(offset),
                at_least_zero(count),
                Seq::empty(),
            ) == limit_rows(rows_view(source@), i as int, skip as int, room as int, rows_view(rows@)),
        decreases source@.len() - i,
    {
        let freq = source[i].1 as i64;
        if freq <= 0 {
            let row: Row = (clone_tuple(source[i].0.as_slice()), source[i].1);
            proof {
                lemma_rows_view_push(rows@, row);
            }
            rows.push(row);
        } else {
            let skipped = if freq <= skip {
                freq
            } else {
                skip
            };
            let left = freq - skipped;
            let given = if left <= room {
                left
            } else {
                room
            };
            skip = skip - skipped;
            room = room - given;
            if given > 0 {
                let row: Row = (clone_tuple(source[i].0.as_slice()), given as i32);
                proof {
                    lemma_rows_view_push(rows@, row);
                }
                rows.push(row);
            }
        }
        i += 1;
    }
    rows
}

} // verus!
