//! Rows and the iterator that hands them out.

use vstd::prelude::*;
use crate::data::{Datum, Value};

verus! {

/// A row with its frequency: above zero it is inserted that many times,
/// below zero taken back.
pub type Row = (Vec<Datum<'static>>, i32);

/// The values of a tuple of datums.
pub open spec fn tuple_view<'a>(tuple: Seq<Datum<'a>>) -> Seq<Value> {
    Seq::new(tuple.len(), |i: int| tuple[i]@)
}

/// The values and frequencies of rows.
pub open spec fn rows_view(rows: Seq<Row>) -> Seq<(Seq<Value>, i32)> {
    Seq::new(rows.len(), |i: int| (tuple_view(rows[i].0@), rows[i].1))
}

pub proof fn lemma_rows_view_push(rows: Seq<Row>, row: Row)
    ensures
        rows_view(rows.push(row)) == rows_view(rows).push((tuple_view(row.0@), row.1)),
{
    assert(rows_view(rows.push(row)) =~= rows_view(rows).push((tuple_view(row.0@), row.1)));
}

pub proof fn lemma_tuple_view_push<'a>(tuple: Seq<Datum<'a>>, d: Datum<'a>)
    ensures
        tuple_view(tuple.push(d)) == tuple_view(tuple).push(d@),
{
    assert(tuple_view(tuple.push(d)) =~= tuple_view(tuple).push(d@));
}

/// Hands out the rows of a result one at a time. `advance` moves to the
/// next row and `get` shows it; the row shown is borrowed until the next
/// `advance`.
#[derive(Debug)]
pub struct TupleIter {
    rows: Vec<Row>,
    /// The index of the next row to move onto.
    position: usize,
    /// Whether a row is shown: it is the one before `position`.
    shown: bool,
    columns: usize,
}

impl TupleIter {
    /// The rows that the iterator has not moved onto yet.
    pub closed spec fn remaining(self) -> Seq<(Seq<Value>, i32)> {
        if self.position <= self.rows@.len() {
            rows_view(self.rows@).subrange(self.position as int, self.rows@.len() as int)
        } else {
            Seq::empty()
        }
    }

    /// The row that `get` shows.
    pub closed spec fn current(self) -> Option<(Seq<Value>, i32)> {
        if self.shown && 1 <= self.position <= self.rows@.len() {
            Some(rows_view(self.rows@)[self.position - 1])
        } else {
            None
        }
    }

    pub closed spec fn spec_column_count(self) -> usize {
        self.columns
    }

    /// An iterator over `rows` that stands before the first of them.
    pub fn new(rows: Vec<Row>, column_count: usize) -> (iter: TupleIter)
        ensures
            iter.remaining() == rows_view(rows@),
            iter.current() is None,
            iter.spec_column_count() == column_count,
    {
        let iter = TupleIter { rows, position: 0, shown: false, columns: column_count };
        assert(iter.remaining() =~= rows_view(rows@));
        iter
    }

    /// Moves to the next row; past the last one there is no current row.
    pub fn advance(&mut self)
        ensures
            final(self).spec_column_count() == old(self).spec_column_count(),
            old(self).remaining().len() > 0 ==> final(self).current() == Some(
                old(self).remaining()[0],
            ) && final(self).remaining() == old(self).remaining().drop_first(),
            old(self).remaining().len() == 0 ==> final(self).current() is None,
            old(self).remaining().len() == 0 ==> final(self).remaining().len() == 0,
    {
        if self.position < self.rows.len() {
            self.position += 1;
            self.shown = true;
        } else {
            self.shown = false;
        }
        let ghost before = old(self).remaining();
        assert(before.len() > 0 ==> self.remaining() =~= before.drop_first());
    }

    /// The current row and its frequency.
    pub fn get(&self) -> (r: Option<(&[Datum<'static>], i32)>)
        ensures
            r is Some <==> self.current() is Some,
            r matches Some((tuple, freq)) ==> self.current() == Some((tuple_view(tuple@), freq)),
    {
        if self.shown && 1 <= self.position && self.position <= self.rows.len() {
            let row = &self.rows[self.position - 1];
            Some((row.0.as_slice(), row.1))
        } else {
            None
        }
    }

    /// Moves to the next row and shows it.
    pub fn next(&mut self) -> (r: Option<(&[Datum<'static>], i32)>)
        ensures
            final(self).spec_column_count() == old(self).spec_column_count(),
            old(self).remaining().len() > 0 ==> (r matches Some((tuple, freq)) && (
                tuple_view(tuple@),
                freq,
            ) == old(self).remaining()[0]),
            old(self).remaining().len() > 0 ==> final(self).remaining() == old(self).remaining().drop_first(),
            old(self).remaining().len() == 0 ==> r is None && final(self).remaining().len() == 0,
    {
        self.advance();
        self.get()
    }

    pub fn column_count(&self) -> (n: usize)
        ensures
            n == self.spec_column_count(),
    {
        self.columns
    }

    /// Takes the rows that have not been moved onto yet out of the iterator.
    pub fn into_rows(self) -> (rows: Vec<Row>)
        ensures
            rows_view(rows@) == self.remaining(),
    {
        let mut rows = self.rows;
        if self.position >= rows.len() {
            let empty: Vec<Row> = Vec::new();
            assert(rows_view(empty@) =~= self.remaining());
            return empty;
        }
        let rest = rows.split_off(self.position);
        assert(rows_view(rest@) =~= self.remaining());
        rest
    }
}

} // verus!
