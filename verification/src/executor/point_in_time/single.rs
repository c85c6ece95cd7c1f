use vstd::prelude::*;
use crate::data::{Datum, Value};
use crate::data::tuple_iter::{rows_view, Row};
use crate::executor::point_in_time::Rows;

verus! {

/// The rows of a query without a source: one empty row, once.
pub open spec fn single_rows() -> Rows {
    seq![(Seq::<Value>::empty(), 1i32)]
}

/// One row `[]` with freq 1.
pub fn single() -> (rows: Vec<Row>)
    ensures
        rows_view(rows@) == single_rows(),
{
    let mut rows: Vec<Row> = Vec::new();
    let tuple: Vec<Datum<'static>> = Vec::new();
    rows.push((tuple, 1));
    assert(rows_view(rows@) =~~= single_rows());
    rows
}

} // verus!
