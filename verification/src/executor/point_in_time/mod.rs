//! The operators of a point-in-time plan.
//!
//! Each operator is a function from the rows of its sources to its own
//! rows. A plan is run from its leaves up, and the rows of its root are
//! handed out one at a time.

use vstd::prelude::*;
use crate::ast::rel::point_in_time::PointInTimeOperator;
use crate::catalog::Catalog;
use crate::data::{LogicalTimestamp, Session, Value};
use crate::data::tuple_iter::{rows_view, tuple_view, Row, TupleIter};
use crate::executor::ExecutionError;
use crate::storage::{StorageError, Table, WriteBatch};
use crate::storage::table::{apply_writes, row_write, scan, PendingWriteView, ScanRange};

pub mod file_scan;
pub mod filter;
pub mod group;
pub mod hash_join;
pub mod limit;
pub mod negate_freq;
pub mod project;
pub mod single;
pub mod sort;
pub mod union_all;
pub mod values;

verus! {

/// Rows with their frequencies, as values.
pub type Rows = Seq<(Seq<Value>, i32)>;

/// The entries of a store.
pub type Store = Seq<(Seq<u8>, Seq<u8>)>;

/// The number of columns of the rows of a plan, or the largest number
/// there is where a join would have more.
pub open spec fn spec_column_count(plan: PointInTimeOperator) -> usize
    decreases plan,
{
    match plan {
        PointInTimeOperator::Single => 0,
        PointInTimeOperator::Project(p) => p.expressions@.len() as usize,
        PointInTimeOperator::Values(v) => v.column_count,
        PointInTimeOperator::Filter(f) => spec_column_count(*f.source),
        PointInTimeOperator::Limit(l) => spec_column_count(*l.source),
        PointInTimeOperator::Sort(s) => spec_column_count(*s.source),
        PointInTimeOperator::UnionAll(u) => if u.sources@.len() > 0 {
            spec_column_count(u.sources@[0])
        } else {
            0
        },
        PointInTimeOperator::TableScan(t) => t.table.spec_columns().len() as usize,
        PointInTimeOperator::TableInsert(_) => 0,
        PointInTimeOperator::NegateFreq(s) => spec_column_count(*s),
        PointInTimeOperator::SortedGroup(g) => g.expressions@.len() as usize,
        PointInTimeOperator::HashGroup(g) => g.expressions@.len() as usize,
        PointInTimeOperator::FileScan(_) => 1,
        PointInTimeOperator::HashJoin(j) => {
            let lw = spec_column_count(*j.left);
            let rw = spec_column_count(*j.right);
            if lw + rw > usize::MAX {
                usize::MAX
            } else {
                (lw + rw) as usize
            }
        },
    }
}

/// The number of columns of the rows of a plan.
pub fn column_count(plan: &PointInTimeOperator) -> (n: usize)
    ensures
        n == spec_column_count(*plan),
    decreases plan,
{
    match plan {
        PointInTimeOperator::Single => 0,
        PointInTimeOperator::Project(p) => p.expressions.len(),
        PointInTimeOperator::Values(v) => v.column_count,
        PointInTimeOperator::Filter(f) => column_count(&*f.source),
        PointInTimeOperator::Limit(l) => column_count(&*l.source),
        PointInTimeOperator::Sort(s) => column_count(&*s.source),
        PointInTimeOperator::UnionAll(u) => {
            if u.sources.len() > 0 {
                proof {
                    vstd::std_specs::vec::axiom_vec_index_decreases(u.sources, 0);
                }
                column_count(&u.sources[0])
            } else {
                0
            }
        },
        PointInTimeOperator::TableScan(t) => t.table.columns().len(),
        PointInTimeOperator::TableInsert(_) => 0,
        PointInTimeOperator::NegateFreq(s) => column_count(&**s),
        PointInTimeOperator::SortedGroup(g) => g.expressions.len(),
        PointInTimeOperator::HashGroup(g) => g.expressions.len(),
        PointInTimeOperator::FileScan(_) => 1,
        PointInTimeOperator::HashJoin(j) => {
            let lw = column_count(&*j.left);
            let rw = column_count(&*j.right);
            if lw > usize::MAX - rw {
                usize::MAX
            } else {
                lw + rw
            }
        },
    }
}

/// Whether each of the first `n` rows has `width` columns.
pub open spec fn all_fit(rows: Rows, width: nat, n: int) -> bool
    decreases n,
{
    if n <= 0 || n > rows.len() {
        true
    } else {
        all_fit(rows, width, n - 1) && rows[n - 1].0.len() == width
    }
}

/// The writes that put the first `n` rows into a table at a time.
pub open spec fn insert_writes(table: Table, rows: Rows, now: u64, n: int) -> Seq<PendingWriteView>
    decreases n,
{
    if n <= 0 || n > rows.len() {
        Seq::empty()
    } else {
        insert_writes(table, rows, now, n - 1).push(
            row_write(table, rows[n - 1].0, now, rows[n - 1].1),
        )
    }
}

/// What running a plan against a store gives: the rows of the plan and
/// the store afterwards. Nothing where the store does not read or a row
/// does not fit the table that it is to go into.
///
/// The sources of an operator are run in their order, each against the
/// store as the one before left it. Only an insert changes the store: it
/// writes the rows of its source at the time `now` as one batch and has no
/// rows of its own. The files of a scan are read outside the library, which
/// puts their rows in the place of the scan before the plan is run; a plan
/// in which a scan is left cannot be run.
pub open spec fn run(plan: PointInTimeOperator, store: Store, now: u64) -> Option<(Rows, Store)>
    decreases plan, 0int,
{
    match plan {
        PointInTimeOperator::Single => Some((single::single_rows(), store)),
        PointInTimeOperator::FileScan(_) => None,
        PointInTimeOperator::Values(v) => Some((values::values_rows(v.data@), store)),
        PointInTimeOperator::Project(p) => match run(*p.source, store, now) {
            Some((rows, after)) => Some((project::project_rows(p.expressions@, rows), after)),
            None => None,
        },
        PointInTimeOperator::Filter(f) => match run(*f.source, store, now) {
            Some((rows, after)) => Some(
                (filter::filter_rows(f.predicate, rows, rows.len() as int), after),
            ),
            None => None,
        },
        PointInTimeOperator::Limit(l) => match run(*l.source, store, now) {
            Some((rows, after)) => Some(
                (
                    limit::limit_rows(
                        rows,
                        0,
                        limit::at_least_zero(l.offset),
                        limit::at_least_zero(l.limit),
                        Seq::empty(),
                    ),
                    after,
                ),
            ),
            None => None,
        },
        PointInTimeOperator::Sort(s) => match run(*s.source, store, now) {
            Some((rows, after)) => Some((sort::sort_rows(s.sort_expressions@, rows), after)),
            None => None,
        },
        PointInTimeOperator::UnionAll(u) => run_all(u.sources@, u.sources@.len() as int, store, now),
        PointInTimeOperator::TableScan(t) => match scan(
            store,
            ScanRange { table: t.table.spec_id(), lower: None, upper: None, at: t.timestamp.ms },
            t.table.key_count(),
            t.table.spec_columns().len(),
        ) {
            Some(rows) => Some((rows, store)),
            None => None,
        },
        PointInTimeOperator::TableInsert(t) => match run(*t.source, store, now) {
            Some((rows, after)) => if all_fit(
                rows,
                t.table.spec_columns().len(),
                rows.len() as int,
            ) {
                Some(
                    (
                        Seq::empty(),
                        apply_writes(after, insert_writes(t.table, rows, now, rows.len() as int), 0),
                    ),
                )
            } else {
                None
            },
            None => None,
        },
        PointInTimeOperator::NegateFreq(s) => match run(*s, store, now) {
            Some((rows, after)) => Some((negate_freq::negated_rows(rows), after)),
            None => None,
        },
        PointInTimeOperator::SortedGroup(g) => match run(*g.source, store, now) {
            Some((rows, after)) => Some(
                (
                    group::group_output(
                        g.expressions@,
                        group::sorted_groups(rows, g.key_len as int, rows.len() as int),
                    ),
                    after,
                ),
            ),
            None => None,
        },
        PointInTimeOperator::HashGroup(g) => match run(*g.source, store, now) {
            Some((rows, after)) => Some(
                (
                    group::group_output(
                        g.expressions@,
                        group::hash_groups(rows, g.key_len as int, rows.len() as int),
                    ),
                    after,
                ),
            ),
            None => None,
        },
        PointInTimeOperator::HashJoin(j) => match run(*j.left, store, now) {
            Some((left, middle)) => match run(*j.right, middle, now) {
                Some((right, after)) => Some(
                    (
                        hash_join::join_rows(
                            left,
                            right,
                            j.key_len as int,
                            j.non_equi_condition,
                            j.join_type,
                            spec_column_count(*j.right) as int,
                            left.len() as int,
                        ),
                        after,
                    ),
                ),
                None => None,
            },
            None => None,
        },
    }
}

/// What running the first `n` plans of a list gives: their rows one
/// after the other, and the store afterwards.
pub open spec fn run_all(list: Seq<PointInTimeOperator>, n: int, store: Store, now: u64) -> Option<
    (Rows, Store),
>
    decreases list, n,
{
    if n <= 0 || n > list.len() {
        Some((Seq::empty(), store))
    } else {
        match run_all(list, n - 1, store, now) {
            Some((rows, middle)) => match run(list[n - 1], middle, now) {
                Some((more, after)) => Some((rows + more, after)),
                None => None,
            },
            None => None,
        }
    }
}

fn check_killed(session: &Session) -> (r: Result<(), ExecutionError>)
    ensures
        r is Ok <==> !session.kill_flag,
        r matches Err(e) ==> e is Killed,
{
    if session.kill_flag {
        Err(ExecutionError::Killed)
    } else {
        Ok(())
    }
}

/// Writes rows into a table as one batch.
fn insert_rows(
    table: &Table,
    rows: &Vec<Row>,
    catalog: &mut Catalog,
    now: LogicalTimestamp,
) -> (r: Result<(), ExecutionError>)
    ensures
        final(catalog).same_tables(*old(catalog)),
        match r {
            Ok(_) => all_fit(rows_view(rows@), table.spec_columns().len(), rows@.len() as int)
                && final(catalog).storage_view() == apply_writes(
                old(catalog).storage_view(),
                insert_writes(*table, rows_view(rows@), now.ms, rows@.len() as int),
                0,
            ),
            Err(e) => e is StorageError && !all_fit(
                rows_view(rows@),
                table.spec_columns().len(),
                rows@.len() as int,
            ) && final(catalog).storage_view() == old(catalog).storage_view(),
        },
{
    proof {
        catalog.lemma_same_tables_reflexive();
    }
    let mut batch = WriteBatch::new();
    let mut i: usize = 0;
    while i < rows.len()
        invariant
            i <= rows@.len(),
            *catalog == *old(catalog),
            catalog.same_tables(*old(catalog)),
            all_fit(rows_view(rows@), table.spec_columns().len(), i as int),
            batch@ == insert_writes(*table, rows_view(rows@), now.ms, i as int),
        decreases rows@.len() - i,
    {
        let ghost values = tuple_view(rows@[i as int].0@);
        assert(Seq::new(rows@[i as int].0@.len(), |k: int| rows@[i as int].0@[k]@) =~= values);
        match batch.write_tuple(table, rows[i].0.as_slice(), now, rows[i].1) {
            Ok(_) => {},
            Err(e) => {
                proof {
                    lemma_not_all_fit(
                        rows_view(rows@),
                        table.spec_columns().len(),
                        rows@.len() as int,
                        i as int,
                    );
                }
                return Err(ExecutionError::StorageError(e));
            },
        }
        i += 1;
    }
    catalog.atomic_write(batch);
    Ok(())
}

/// Where one row does not fit, the rows do not all fit.
pub proof fn lemma_not_all_fit(rows: Rows, width: nat, n: int, bad: int)
    requires
        0 <= bad < n <= rows.len(),
        rows[bad].0.len() != width,
    ensures
        !all_fit(rows, width, n),
    decreases n,
{
    if bad < n - 1 {
        lemma_not_all_fit(rows, width, n - 1, bad);
    }
}

fn run_list(
    session: &Session,
    list: &Vec<PointInTimeOperator>,
    catalog: &mut Catalog,
    now: LogicalTimestamp,
) -> (r: Result<Vec<Row>, ExecutionError>)
    ensures
        final(catalog).same_tables(*old(catalog)),
        match r {
            Ok(rows) => !session.kill_flag && run_all(
                list@,
                list@.len() as int,
                old(catalog).storage_view(),
                now.ms,
            ) == Some((rows_view(rows@), final(catalog).storage_view())),
            Err(ExecutionError::Killed) => session.kill_flag,
            Err(ExecutionError::StorageError(_)) => !session.kill_flag && run_all(
                list@,
                list@.len() as int,
                old(catalog).storage_view(),
                now.ms,
            ) is None,
        },
    decreases list,
{
    proof {
        catalog.lemma_same_tables_reflexive();
    }
    match check_killed(session) {
        Ok(_) => {},
        Err(e) => {
            return Err(e);
        },
    }
    let mut rows: Vec<Row> = Vec::new();
    let mut i: usize = 0;
    assert(rows_view(rows@) =~= Seq::empty());
    while i < list.len()
        invariant
            i <= list@.len(),
            !session.kill_flag,
            catalog.same_tables(*old(catalog)),
            run_all(list@, i as int, old(catalog).storage_view(), now.ms) == Some(
                (rows_view(rows@), catalog.storage_view()),
            ),
        decreases list@.len() - i,
    {
        proof {
            vstd::std_specs::vec::axiom_vec_index_decreases(*list, i as int);
        }
        let ghost before = *catalog;
        match run_plan(session, &list[i], catalog, now) {
            Ok(more) => {
                proof {
                    catalog.lemma_same_tables_transitive(before, *old(catalog));
                }
                union_all::append_rows(&mut rows, more);
            },
            Err(e) => {
                proof {
                    catalog.lemma_same_tables_transitive(before, *old(catalog));
                    lemma_run_all_fails(
                        list@,
                        list@.len() as int,
                        i as int,
                        old(catalog).storage_view(),
                        now.ms,
                    );
                }
                return Err(e);
            },
        }
        i += 1;
    }
    Ok(rows)
}

/// Where running the plans up to one of them fails, running more fails too.
pub proof fn lemma_run_all_fails(
    list: Seq<PointInTimeOperator>,
    n: int,
    bad: int,
    store: Store,
    now: u64,
)
    requires
        0 <= bad < n <= list.len(),
        run_all(list, bad + 1, store, now) is None,
    ensures
        run_all(list, n, store, now) is None,
    decreases n,
{
    if bad + 1 < n {
        lemma_run_all_fails(list, n - 1, bad, store, now);
    }
}

/// Runs a plan: its rows, with the store changed as the plan asks.
///
/// The kill flag of the session is looked at before each operator: where
/// it is set the plan stops with `Killed`. Where the plan fails the store
/// may hold what the inserts before the failure wrote.
pub fn run_plan(
    session: &Session,
    plan: &PointInTimeOperator,
    catalog: &mut Catalog,
    now: LogicalTimestamp,
) -> (r: Result<Vec<Row>, ExecutionError>)
    ensures
        final(catalog).same_tables(*old(catalog)),
        match r {
            Ok(rows) => !session.kill_flag && run(*plan, old(catalog).storage_view(), now.ms)
                == Some((rows_view(rows@), final(catalog).storage_view())),
            Err(ExecutionError::Killed) => session.kill_flag,
            Err(ExecutionError::StorageError(_)) => !session.kill_flag && run(
                *plan,
                old(catalog).storage_view(),
                now.ms,
            ) is None,
        },
    decreases plan,
{
    proof {
        catalog.lemma_same_tables_reflexive();
    }
    match check_killed(session) {
        Ok(_) => {},
        Err(e) => {
            return Err(e);
        },
    }
    match plan {
        PointInTimeOperator::Single => Ok(single::single()),
        PointInTimeOperator::FileScan(_) => Err(
            ExecutionError::StorageError(
                StorageError::KeyValue("the files of a scan have to be read first".to_owned()),
            ),
        ),
        PointInTimeOperator::Values(v) => Ok(values::values(&v.data)),
        PointInTimeOperator::Project(p) => {
            match run_plan(session, &*p.source, catalog, now) {
                Ok(rows) => Ok(project::project(&p.expressions, &rows, session)),
                Err(e) => Err(e),
            }
        },
        PointInTimeOperator::Filter(f) => {
            match run_plan(session, &*f.source, catalog, now) {
                Ok(rows) => Ok(filter::filter(&f.predicate, &rows, session)),
                Err(e) => Err(e),
            }
        },
        PointInTimeOperator::Limit(l) => {
            match run_plan(session, &*l.source, catalog, now) {
                Ok(rows) => Ok(limit::limit(&rows, l.offset, l.limit)),
                Err(e) => Err(e),
            }
        },
        PointInTimeOperator::Sort(s) => {
            match run_plan(session, &*s.source, catalog, now) {
                Ok(rows) => Ok(sort::sort(&s.sort_expressions, &rows, session)),
                Err(e) => Err(e),
            }
        },
        PointInTimeOperator::UnionAll(u) => run_list(session, &u.sources, catalog, now),
        PointInTimeOperator::TableScan(t) => {
            match t.table.full_scan(catalog.storage(), t.timestamp) {
                Ok(iter) => Ok(iter.into_rows()),
                Err(e) => Err(ExecutionError::StorageError(e)),
            }
        },
        PointInTimeOperator::TableInsert(t) => {
            let rows = match run_plan(session, &*t.source, catalog, now) {
                Ok(rows) => rows,
                Err(e) => {
                    return Err(e);
                },
            };
            let ghost middle = *catalog;
            match insert_rows(&t.table, &rows, catalog, now) {
                Ok(_) => {
                    proof {
                        catalog.lemma_same_tables_transitive(middle, *old(catalog));
                    }
                    let none: Vec<Row> = Vec::new();
                    assert(rows_view(none@) =~= Seq::empty());
                    Ok(none)
                },
                Err(e) => {
                    proof {
                        catalog.lemma_same_tables_transitive(middle, *old(catalog));
                    }
                    Err(e)
                },
            }
        },
        PointInTimeOperator::NegateFreq(s) => {
            match run_plan(session, &**s, catalog, now) {
                Ok(rows) => Ok(negate_freq::negate_freq(&rows)),
                Err(e) => Err(e),
            }
        },
        PointInTimeOperator::SortedGroup(g) => {
            match run_plan(session, &*g.source, catalog, now) {
                Ok(rows) => Ok(group::sorted_group(&g.expressions, g.key_len, &rows, session)),
                Err(e) => Err(e),
            }
        },
        PointInTimeOperator::HashGroup(g) => {
            match run_plan(session, &*g.source, catalog, now) {
                Ok(rows) => Ok(group::hash_group(&g.expressions, g.key_len, &rows, session)),
                Err(e) => Err(e),
            }
        },
        PointInTimeOperator::HashJoin(j) => {
            let left = match run_plan(session, &*j.left, catalog, now) {
                Ok(rows) => rows,
                Err(e) => {
                    return Err(e);
                },
            };
            let ghost middle = *catalog;
            let right = match run_plan(session, &*j.right, catalog, now) {
                Ok(rows) => rows,
                Err(e) => {
                    proof {
                        catalog.lemma_same_tables_transitive(middle, *old(catalog));
                    }
                    return Err(e);
                },
            };
            proof {
                catalog.lemma_same_tables_transitive(middle, *old(catalog));
            }
            Ok(
                hash_join::hash_join(
                    &left,
                    &right,
                    j.key_len,
                    &j.non_equi_condition,
                    j.join_type,
                    column_count(&*j.right),
                    session,
                ),
            )
        },
    }
}

/// Builds the executor of a plan: the plan is run against the store under
/// the catalog, and the iterator hands its rows out one at a time.
pub fn build_executor(
    session: &Session,
    plan: &PointInTimeOperator,
    catalog: &mut Catalog,
    now: LogicalTimestamp,
) -> (r: Result<TupleIter, ExecutionError>)
    ensures
        final(catalog).same_tables(*old(catalog)),
        match r {
            Ok(iter) => !session.kill_flag && run(*plan, old(catalog).storage_view(), now.ms)
                == Some((iter.remaining(), final(catalog).storage_view())) && iter.current()
                is None,
            Err(ExecutionError::Killed) => session.kill_flag,
            Err(ExecutionError::StorageError(_)) => !session.kill_flag && run(
                *plan,
                old(catalog).storage_view(),
                now.ms,
            ) is None,
        },
{
    match run_plan(session, plan, catalog, now) {
        Ok(rows) => Ok(TupleIter::new(rows, column_count(plan))),
        Err(e) => Err(e),
    }
}

} // verus!
