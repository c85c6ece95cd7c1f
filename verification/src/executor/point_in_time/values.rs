use vstd::prelude::*;
use crate::data::{Datum};
use crate::data::tuple_iter::{lemma_rows_view_push, rows_view, tuple_view, Row};
use crate::executor::point_in_time::Rows;

verus! {

/// The rows of a list of constant rows: each of them once.
pub open spec fn values_rows(data: Seq<Vec<Datum<'static>>>) -> Rows {
    Seq::new(data.len(), |i: int| (tuple_view(data[i]@), 1i32))
}

/// A copy of a row that owns its bytes.
pub fn clone_tuple(tuple: &[Datum]) -> (r: Vec<Datum<'static>>)
    ensures
        tuple_view(r@) == tuple_view(tuple@),
        r@.len() == tuple@.len(),
{
    let mut r: Vec<Datum<'static>> = Vec::new();
    let mut i: usize = 0;
    while i < tuple.len()
        invariant
            i <= tuple@.len(),
            r@.len() == i,
            forall|k: int| 0 <= k < i ==> (#[trigger] r@[k])@ == tuple@[k]@,
        decreases tuple@.len() - i,
    {
        r.push(tuple[i].as_static());
        i += 1;
    }
    assert(tuple_view(r@) =~= tuple_view(tuple@));
    r
}

/// Yields each provided constant row.
pub fn values(data: &Vec<Vec<Datum<'static>>>) -> (rows: Vec<Row>)
    ensures
        rows_view(rows@) == values_rows(data@),
{
    let mut rows: Vec<Row> = Vec::new();
    let mut i: usize = 0;
    assert(rows_view(rows@) =~= values_rows(data@).subrange(0, 0));
    while i < data.len()
        invariant
            i <= data@.len(),
            rows_view(rows@) == values_rows(data@).subrange(0, i as int),
        decreases data@.len() - i,
    {
        let row: Row = (clone_tuple(data[i].as_slice()), 1);
        proof {
            lemma_rows_view_push(rows@, row);
            assert(values_rows(data@).subrange(0, i + 1) =~= values_rows(data@).subrange(
                0,
                i as int,
            ).push(values_rows(data@)[i as int]));
        }
        rows.push(row);
        i += 1;
    }
    assert(values_rows(data@).subrange(0, i as int) =~= values_rows(data@));
    rows
}

} // verus!
