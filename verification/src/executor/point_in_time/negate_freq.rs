use vstd::prelude::*;
use crate::data::tuple_iter::{lemma_rows_view_push, rows_view, Row};
use crate::executor::point_in_time::Rows;
use crate::executor::point_in_time::values::clone_tuple;

verus! {

/// The rows of a source with the sign of each frequency flipped.
pub open spec fn negated_rows(source: Rows) -> Rows {
    Seq::new(source.len(), |i: int| (source[i].0, 0i32.wrapping_sub(source[i].1)))
}

/// Passes rows with sign-flipped frequency; used to implement retraction feeds.
pub fn negate_freq(source: &Vec<Row>) -> (rows: Vec<Row>)
    ensures
        rows_view(rows@) == negated_rows(rows_view(source@)),
{
    let ghost target = negated_rows(rows_view(source@));
    let mut rows: Vec<Row> = Vec::new();
    let mut i: usize = 0;
    assert(rows_view(rows@) =~= target.subrange(0, 0));
    while i < source.len()
        invariant
            i <= source@.len(),
            target == negated_rows(rows_view(source@)),
            rows_view(rows@) == target.subrange(0, i as int),
        decreases source@.len() - i,
    {
        let row: Row = (clone_tuple(source[i].0.as_slice()), 0i32.wrapping_sub(source[i].1));
        proof {
            lemma_rows_view_push(rows@, row);
            assert(target.subrange(0, i + 1) =~= target.subrange(0, i as int).push(
                target[i as int],
            ));
        }
        rows.push(row);
        i += 1;
    }
    assert(target.subrange(0, i as int) =~= target);
    rows
}

} // verus!
