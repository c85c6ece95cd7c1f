use vstd::prelude::*;
use crate::ast::expr::Expression;
use crate::data::{Datum, Session};
use crate::data::tuple_iter::{lemma_rows_view_push, rows_view, tuple_view, Row, TupleIter};
use crate::executor::expression::{eval_expressions, eval_list};
use crate::executor::point_in_time::Rows;

verus! {

/// The rows of a projection: for each row of the source the values of the
/// expressions over it, with the frequency of the row.
pub open spec fn project_rows(expressions: Seq<Expression>, source: Rows) -> Rows {
    Seq::new(
        source.len(),
        |i: int|
            (eval_expressions(expressions, source[i].0, expressions.len() as int), source[i].1),
    )
}

/// Evaluates the expressions over each row of the source.
pub fn project(expressions: &Vec<Expression>, source: &Vec<Row>, session: &Session) -> (rows: Vec<
    Row,
>)
    ensures
        rows_view(rows@) == project_rows(expressions@, rows_view(source@)),
{
    let ghost target = project_rows(expressions@, rows_view(source@));
    let mut rows: Vec<Row> = Vec::new();
    let mut i: usize = 0;
    assert(rows_view(rows@) =~= target.subrange(0, 0));
    while i < source.len()
        invariant
            i <= source@.len(),
            target == project_rows(expressions@, rows_view(source@)),
            rows_view(rows@) == target.subrange(0, i as int),
        decreases source@.len() - i,
    {
        let tuple = eval_list(expressions, session, source[i].0.as_slice());
        let row: Row = (tuple, source[i].1);
        proof {
            lemma_rows_view_push(rows@, row);
            assert(target.subrange(0, i + 1) =~= target.subrange(0, i as int).push(
                target[i as int],
            ));
        }
        rows.push(row);
        i += 1;
    }
    assert(target.subrange(0, i as int) =~= target);
    rows
}

/// Evaluates a projection row by row as the rows are asked for: each
/// `advance` pulls one row from the source and evaluates the expressions
/// over it into a buffer of its own.
#[derive(Debug)]
pub struct ProjectExecutor {
    source: TupleIter,
    expressions: Vec<Expression>,
    tuple_buffer: Vec<Datum<'static>>,
    freq: Option<i32>,
}

impl ProjectExecutor {
    /// The rows still to come.
    pub closed spec fn remaining(self) -> Rows {
        project_rows(self.expressions@, self.source.remaining())
    }

    /// The row that `get` shows.
    pub closed spec fn current(self) -> Option<(Seq<crate::data::Value>, i32)> {
        match self.freq {
            Some(freq) => Some((tuple_view(self.tuple_buffer@), freq)),
            None => None,
        }
    }

    pub closed spec fn spec_column_count(self) -> nat {
        self.expressions@.len()
    }

    pub fn new(source: TupleIter, expressions: Vec<Expression>) -> (e: Self)
        ensures
            e.remaining() == project_rows(expressions@, source.remaining()),
            e.current() is None,
            e.spec_column_count() == expressions@.len(),
    {
        ProjectExecutor { source, expressions, tuple_buffer: Vec::new(), freq: None }
    }

    /// Moves to the next row.
    pub fn advance(&mut self, session: &Session)
        ensures
            final(self).spec_column_count() == old(self).spec_column_count(),
            old(self).remaining().len() > 0 ==> final(self).current() == Some(
                old(self).remaining()[0],
            ) && final(self).remaining() == old(self).remaining().drop_first(),
            old(self).remaining().len() == 0 ==> final(self).current() is None,
            old(self).remaining().len() == 0 ==> final(self).remaining().len() == 0,
    {
        let ghost before = self.source.remaining();
        match self.source.next() {
            Some((tuple, freq)) => {
                let evaluated = eval_list(&self.expressions, session, tuple);
                self.tuple_buffer = evaluated;
                self.freq = Some(freq);
                assert(self.remaining() =~= old(self).remaining().drop_first());
            },
            None => {
                self.freq = None;
            },
        }
    }

    /// The current row and its frequency.
    pub fn get(&self) -> (r: Option<(&[Datum<'static>], i32)>)
        ensures
            r is Some <==> self.current() is Some,
            r matches Some((tuple, freq)) ==> self.current() == Some((tuple_view(tuple@), freq)),
    {
        match self.freq {
            Some(freq) => Some((self.tuple_buffer.as_slice(), freq)),
            None => None,
        }
    }

    /// Moves to the next row and shows it.
    pub fn next(&mut self, session: &Session) -> (r: Option<(&[Datum<'static>], i32)>)
        ensures
            old(self).remaining().len() > 0 ==> (r matches Some((tuple, freq)) && (
                tuple_view(tuple@),
                freq,
            ) == old(self).remaining()[0]),
            old(self).remaining().len() > 0 ==> final(self).remaining() == old(
                self,
            ).remaining().drop_first(),
            old(self).remaining().len() == 0 ==> r is None,
    {
        self.advance(session);
        self.get()
    }

    pub fn column_count(&self) -> (n: usize)
        ensures
            n == self.spec_column_count(),
    {
        self.expressions.len()
    }
}

} // verus!
