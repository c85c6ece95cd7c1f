use vstd::prelude::*;
use crate::data::tuple_iter::{rows_view, Row};

verus! {

/// Adds the rows of one more source to those of the sources before it.
pub fn append_rows(rows: &mut Vec<Row>, next: Vec<Row>)
    ensures
        rows_view(final(rows)@) == rows_view(old(rows)@) + rows_view(next@),
{
    let mut next = next;
    let ghost a = rows@;
    let ghost b = next@;
    rows.append(&mut next);
    assert(rows_view(rows@) =~= rows_view(a) + rows_view(b));
}

} // verus!
