//! Scans of files. The files are read outside the library; their rows
//! are put in the place of the scans before a plan is run.

use vstd::prelude::*;
use crate::ast::rel::logical::SerdeOptions;
use crate::ast::rel::point_in_time::{
    Filter,
    Group,
    Join,
    Limit,
    PointInTimeOperator,
    Project,
    Sort,
    TableInsert,
    UnionAll,
    Values,
};
use crate::data::{Datum, Value};
use crate::data::tuple_iter::tuple_view;

verus! {

/// Whether a plan is the literal rows that were read for a scan of files:
/// one column, and the given rows in their order.
pub open spec fn is_file_rows(rows: Seq<Seq<Value>>, out: PointInTimeOperator) -> bool {
    out matches PointInTimeOperator::Values(v) && v.column_count == 1 && v.data@.len() == rows.len()
        && forall|i: int| 0 <= i < rows.len() ==> tuple_view((#[trigger] v.data@[i])@) == rows[i]
}

/// Whether `out` is `plan` with the given rows in the place of each scan
/// of the files of `directory` that are read as `options` say. Every
/// other operator, and every other scan, is as it was.
pub open spec fn filled(
    plan: PointInTimeOperator,
    directory: Seq<char>,
    options: SerdeOptions,
    rows: Seq<Seq<Value>>,
    out: PointInTimeOperator,
) -> bool
    decreases plan, 0int,
{
    match plan {
        PointInTimeOperator::FileScan(f) => if f.directory@ == directory && f.serde_options
            == options {
            is_file_rows(rows, out)
        } else {
            out == plan
        },
        PointInTimeOperator::Project(p) => out matches PointInTimeOperator::Project(q)
            && q.expressions == p.expressions && filled(
            *p.source,
            directory,
            options,
            rows,
            *q.source,
        ),
        PointInTimeOperator::Filter(p) => out matches PointInTimeOperator::Filter(q) && q.predicate
            == p.predicate && filled(*p.source, directory, options, rows, *q.source),
        PointInTimeOperator::Limit(p) => out matches PointInTimeOperator::Limit(q) && q.offset
            == p.offset && q.limit == p.limit && filled(
            *p.source,
            directory,
            options,
            rows,
            *q.source,
        ),
        PointInTimeOperator::Sort(p) => out matches PointInTimeOperator::Sort(q)
            && q.sort_expressions == p.sort_expressions && filled(
            *p.source,
            directory,
            options,
            rows,
            *q.source,
        ),
        PointInTimeOperator::UnionAll(p) => out matches PointInTimeOperator::UnionAll(q)
            && filled_all(p.sources@, directory, options, rows, q.sources@, p.sources@.len() as int),
        PointInTimeOperator::TableInsert(p) => out matches PointInTimeOperator::TableInsert(q)
            && q.table == p.table && filled(*p.source, directory, options, rows, *q.source),
        PointInTimeOperator::NegateFreq(p) => out matches PointInTimeOperator::NegateFreq(q)
            && filled(*p, directory, options, rows, *q),
        PointInTimeOperator::SortedGroup(p) => out matches PointInTimeOperator::SortedGroup(q)
            && q.expressions == p.expressions && q.key_len == p.key_len && filled(
            *p.source,
            directory,
            options,
            rows,
            *q.source,
        ),
        PointInTimeOperator::HashGroup(p) => out matches PointInTimeOperator::HashGroup(q)
            && q.expressions == p.expressions && q.key_len == p.key_len && filled(
            *p.source,
            directory,
            options,
            rows,
            *q.source,
        ),
        PointInTimeOperator::HashJoin(p) => out matches PointInTimeOperator::HashJoin(q)
            && q.key_len == p.key_len && q.non_equi_condition == p.non_equi_condition
            && q.join_type == p.join_type && filled(*p.left, directory, options, rows, *q.left)
            && filled(*p.right, directory, options, rows, *q.right),
        PointInTimeOperator::Single
        | PointInTimeOperator::Values(_)
        | PointInTimeOperator::TableScan(_) => out == plan,
    }
}

/// Whether two lists are of one length and each of the first `n` plans of
/// `out` is that of `list` with the rows in the place of its scans.
pub open spec fn filled_all(
    list: Seq<PointInTimeOperator>,
    directory: Seq<char>,
    options: SerdeOptions,
    rows: Seq<Seq<Value>>,
    out: Seq<PointInTimeOperator>,
    n: int,
) -> bool
    decreases list, n,
{
    if list.len() != out.len() {
        false
    } else if n <= 0 || n > list.len() {
        true
    } else {
        filled_all(list, directory, options, rows, out, n - 1) && filled(
            list[n - 1],
            directory,
            options,
            rows,
            out[n - 1],
        )
    }
}

/// Lists that are filled plan by plan are filled.
proof fn lemma_filled_all(
    list: Seq<PointInTimeOperator>,
    directory: Seq<char>,
    options: SerdeOptions,
    rows: Seq<Seq<Value>>,
    out: Seq<PointInTimeOperator>,
    n: int,
)
    requires
        list.len() == out.len(),
        0 <= n <= list.len(),
        forall|k: int| 0 <= k < n ==> filled(#[trigger] list[k], directory, options, rows, out[k]),
    ensures
        filled_all(list, directory, options, rows, out, n),
    decreases n,
{
    if n > 0 {
        lemma_filled_all(list, directory, options, rows, out, n - 1);
    }
}

/// The views of rows of one document each.
pub open spec fn documents_view(rows: Seq<Vec<Datum<'static>>>) -> Seq<Seq<Value>> {
    Seq::new(rows.len(), |i: int| tuple_view(rows[i]@))
}

/// The literal rows that were read for a scan.
fn file_rows(rows: &Vec<Vec<Datum<'static>>>) -> (r: PointInTimeOperator)
    ensures
        is_file_rows(documents_view(rows@), r),
{
    let mut data: Vec<Vec<Datum<'static>>> = Vec::new();
    let mut i: usize = 0;
    while i < rows.len()
        invariant
            i <= rows@.len(),
            data@.len() == i,
            forall|k: int| 0 <= k < i ==> tuple_view((#[trigger] data@[k])@) == tuple_view(rows@[k]@),
        decreases rows@.len() - i,
    {
        let mut row: Vec<Datum<'static>> = Vec::new();
        let mut j: usize = 0;
        while j < rows[i].len()
            invariant
                i < rows@.len(),
                j <= rows@[i as int]@.len(),
                row@.len() == j,
                forall|k: int| 0 <= k < j ==> (#[trigger] row@[k])@ == rows@[i as int]@[k]@,
            decreases rows@[i as int]@.len() - j,
        {
            row.push(rows[i][j].as_static());
            j += 1;
        }
        assert(tuple_view(row@) =~= tuple_view(rows@[i as int]@));
        data.push(row);
        i += 1;
    }
    PointInTimeOperator::Values(Values { data, column_count: 1 })
}

/// Puts the rows in the place of the scans of each plan of a list.
fn fill_all(
    list: Vec<PointInTimeOperator>,
    directory: &str,
    serde_options: SerdeOptions,
    rows: &Vec<Vec<Datum<'static>>>,
) -> (r: Vec<PointInTimeOperator>)
    ensures
        filled_all(
            list@,
            directory@,
            serde_options,
            documents_view(rows@),
            r@,
            list@.len() as int,
        ),
    decreases list,
{
    let mut rest = list;
    let ghost all = rest@;
    let ghost given = documents_view(rows@);
    let mut reversed: Vec<PointInTimeOperator> = Vec::new();
    while rest.len() > 0
        invariant
            rest@.len() <= all.len(),
            rest@ == all.subrange(0, rest@.len() as int),
            reversed@.len() + rest@.len() == all.len(),
            all == list@,
            given == documents_view(rows@),
            forall|k: int|
                0 <= k < reversed@.len() ==> filled(
                    all[all.len() - 1 - k],
                    directory@,
                    serde_options,
                    given,
                    #[trigger] reversed@[k],
                ),
        decreases rest@.len(),
    {
        proof {
            vstd::seq::axiom_seq_index_decreases(all, rest@.len() - 1);
        }
        let source = rest.pop().unwrap();
        assert(source == all[rest@.len() as int]);
        assert(rest@ =~= all.subrange(0, rest@.len() as int));
        let out = with_file_rows(source, directory, serde_options, rows);
        reversed.push(out);
    }
    let mut result: Vec<PointInTimeOperator> = Vec::new();
    while reversed.len() > 0
        invariant
            result@.len() + reversed@.len() == all.len(),
            forall|k: int|
                0 <= k < reversed@.len() ==> filled(
                    all[all.len() - 1 - k],
                    directory@,
                    serde_options,
                    given,
                    #[trigger] reversed@[k],
                ),
            forall|k: int|
                0 <= k < result@.len() ==> filled(
                    all[k],
                    directory@,
                    serde_options,
                    given,
                    #[trigger] result@[k],
                ),
        decreases reversed@.len(),
    {
        let out = reversed.pop().unwrap();
        result.push(out);
    }
    proof {
        assert forall|k: int| 0 <= k < all.len() implies filled(
            #[trigger] all[k],
            directory@,
            serde_options,
            given,
            result@[k],
        ) by {
            assert(filled(all[k], directory@, serde_options, given, result@[k]));
        }
        lemma_filled_all(all, directory@, serde_options, given, result@, all.len() as int);
    }
    result
}

/// Puts the rows that were read from the files of a directory in the place
/// of each scan of those files in a plan: the scan becomes literal rows of
/// one column. The rest of the plan is as it was.
pub fn with_file_rows(
    plan: PointInTimeOperator,
    directory: &str,
    serde_options: SerdeOptions,
    rows: &Vec<Vec<Datum<'static>>>,
) -> (r: PointInTimeOperator)
    ensures
        filled(plan, directory@, serde_options, documents_view(rows@), r),
    decreases plan,
{
    match plan {
        PointInTimeOperator::FileScan(f) => {
            if crate::functions::registry::str_eq(f.directory.as_str(), directory)
                && f.serde_options == serde_options {
                file_rows(rows)
            } else {
                PointInTimeOperator::FileScan(f)
            }
        },
        PointInTimeOperator::Project(p) => PointInTimeOperator::Project(
            Project {
                expressions: p.expressions,
                source: Box::new(with_file_rows(*p.source, directory, serde_options, rows)),
            },
        ),
        PointInTimeOperator::Filter(p) => PointInTimeOperator::Filter(
            Filter {
                predicate: p.predicate,
                source: Box::new(with_file_rows(*p.source, directory, serde_options, rows)),
            },
        ),
        PointInTimeOperator::Limit(p) => PointInTimeOperator::Limit(
            Limit {
                offset: p.offset,
                limit: p.limit,
                source: Box::new(with_file_rows(*p.source, directory, serde_options, rows)),
            },
        ),
        PointInTimeOperator::Sort(p) => PointInTimeOperator::Sort(
            Sort {
                sort_expressions: p.sort_expressions,
                source: Box::new(with_file_rows(*p.source, directory, serde_options, rows)),
            },
        ),
        PointInTimeOperator::UnionAll(p) => PointInTimeOperator::UnionAll(
            UnionAll { sources: fill_all(p.sources, directory, serde_options, rows) },
        ),
        PointInTimeOperator::TableInsert(p) => PointInTimeOperator::TableInsert(
            TableInsert {
                table: p.table,
                source: Box::new(with_file_rows(*p.source, directory, serde_options, rows)),
            },
        ),
        PointInTimeOperator::NegateFreq(p) => PointInTimeOperator::NegateFreq(
            Box::new(with_file_rows(*p, directory, serde_options, rows)),
        ),
        PointInTimeOperator::SortedGroup(p) => PointInTimeOperator::SortedGroup(
            Group {
                source: Box::new(with_file_rows(*p.source, directory, serde_options, rows)),
                expressions: p.expressions,
                key_len: p.key_len,
            },
        ),
        PointInTimeOperator::HashGroup(p) => PointInTimeOperator::HashGroup(
            Group {
                source: Box::new(with_file_rows(*p.source, directory, serde_options, rows)),
                expressions: p.expressions,
                key_len: p.key_len,
            },
        ),
        PointInTimeOperator::HashJoin(p) => {
            let left = with_file_rows(*p.left, directory, serde_options, rows);
            let right = with_file_rows(*p.right, directory, serde_options, rows);
            PointInTimeOperator::HashJoin(
                Join {
                    left: Box::new(left),
                    right: Box::new(right),
                    key_len: p.key_len,
                    non_equi_condition: p.non_equi_condition,
                    join_type: p.join_type,
                },
            )
        },
        PointInTimeOperator::Single => PointInTimeOperator::Single,
        PointInTimeOperator::Values(v) => PointInTimeOperator::Values(v),
        PointInTimeOperator::TableScan(t) => PointInTimeOperator::TableScan(t),
    }
}

/// The first scan of files in a plan, going through its sources in their
/// order: the directory and how its files are read. Nothing where the
/// plan has no scan.
pub open spec fn spec_first_scan(plan: PointInTimeOperator) -> Option<(Seq<char>, SerdeOptions)>
    decreases plan, 0int,
{
    match plan {
        PointInTimeOperator::FileScan(f) => Some((f.directory@, f.serde_options)),
        PointInTimeOperator::Project(p) => spec_first_scan(*p.source),
        PointInTimeOperator::Filter(p) => spec_first_scan(*p.source),
        PointInTimeOperator::Limit(p) => spec_first_scan(*p.source),
        PointInTimeOperator::Sort(p) => spec_first_scan(*p.source),
        PointInTimeOperator::UnionAll(p) => first_scan_among(p.sources@, p.sources@.len() as int),
        PointInTimeOperator::TableInsert(p) => spec_first_scan(*p.source),
        PointInTimeOperator::NegateFreq(p) => spec_first_scan(*p),
        PointInTimeOperator::SortedGroup(p) => spec_first_scan(*p.source),
        PointInTimeOperator::HashGroup(p) => spec_first_scan(*p.source),
        PointInTimeOperator::HashJoin(p) => match spec_first_scan(*p.left) {
            Some(found) => Some(found),
            None => spec_first_scan(*p.right),
        },
        PointInTimeOperator::Single
        | PointInTimeOperator::Values(_)
        | PointInTimeOperator::TableScan(_) => None,
    }
}

/// The first scan of files among the first `n` plans of a list.
pub open spec fn first_scan_among(list: Seq<PointInTimeOperator>, n: int) -> Option<
    (Seq<char>, SerdeOptions),
>
    decreases list, n,
{
    if n <= 0 || n > list.len() {
        None
    } else {
        match first_scan_among(list, n - 1) {
            Some(found) => Some(found),
            None => spec_first_scan(list[n - 1]),
        }
    }
}

/// What was found, as a value.
pub open spec fn scan_view(found: Option<(String, SerdeOptions)>) -> Option<
    (Seq<char>, SerdeOptions),
> {
    match found {
        Some((directory, options)) => Some((directory@, options)),
        None => None,
    }
}

/// The first scan of files in the plans of a list.
fn first_scan_in(list: &Vec<PointInTimeOperator>) -> (r: Option<(String, SerdeOptions)>)
    ensures
        scan_view(r) == first_scan_among(list@, list@.len() as int),
    decreases list,
{
    let mut found: Option<(String, SerdeOptions)> = None;
    let mut i: usize = 0;
    while i < list.len()
        invariant
            i <= list@.len(),
            scan_view(found) == first_scan_among(list@, i as int),
        decreases list@.len() - i,
    {
        if found.is_none() {
            proof {
                vstd::std_specs::vec::axiom_vec_index_decreases(*list, i as int);
            }
            found = first_file_scan(&list[i]);
        }
        i += 1;
    }
    found
}

/// The first scan of files in a plan, whose rows have to be read before
/// the plan is run.
pub fn first_file_scan(plan: &PointInTimeOperator) -> (r: Option<(String, SerdeOptions)>)
    ensures
        scan_view(r) == spec_first_scan(*plan),
    decreases plan,
{
    match plan {
        PointInTimeOperator::FileScan(f) => Some((f.directory.clone(), f.serde_options)),
        PointInTimeOperator::Project(p) => first_file_scan(&*p.source),
        PointInTimeOperator::Filter(p) => first_file_scan(&*p.source),
        PointInTimeOperator::Limit(p) => first_file_scan(&*p.source),
        PointInTimeOperator::Sort(p) => first_file_scan(&*p.source),
        PointInTimeOperator::UnionAll(p) => first_scan_in(&p.sources),
        PointInTimeOperator::TableInsert(p) => first_file_scan(&*p.source),
        PointInTimeOperator::NegateFreq(p) => first_file_scan(&**p),
        PointInTimeOperator::SortedGroup(p) => first_file_scan(&*p.source),
        PointInTimeOperator::HashGroup(p) => first_file_scan(&*p.source),
        PointInTimeOperator::HashJoin(p) => match first_file_scan(&*p.left) {
            Some(found) => Some(found),
            None => first_file_scan(&*p.right),
        },
        PointInTimeOperator::Single
        | PointInTimeOperator::Values(_)
        | PointInTimeOperator::TableScan(_) => None,
    }
}

/// Once the rows of a scan are put in its place the plan has no scan of
/// those files left: its first scan, if it has one, is another.
pub proof fn lemma_filled_scans_are_gone(
    plan: PointInTimeOperator,
    directory: Seq<char>,
    options: SerdeOptions,
    rows: Seq<Seq<Value>>,
    out: PointInTimeOperator,
)
    requires
        filled(plan, directory, options, rows, out),
    ensures
        spec_first_scan(out) != Some((directory, options)),
    decreases plan, 0int,
{
    match plan {
        PointInTimeOperator::Project(p) => {
            lemma_filled_scans_are_gone(
                *p.source,
                directory,
                options,
                rows,
                *out->Project_0.source,
            );
            assert(spec_first_scan(out) != Some((directory, options)));
        },
        PointInTimeOperator::Filter(p) => {
            lemma_filled_scans_are_gone(*p.source, directory, options, rows, *out->Filter_0.source);
            assert(spec_first_scan(out) != Some((directory, options)));
        },
        PointInTimeOperator::Limit(p) => {
            lemma_filled_scans_are_gone(*p.source, directory, options, rows, *out->Limit_0.source);
            assert(spec_first_scan(out) != Some((directory, options)));
        },
        PointInTimeOperator::Sort(p) => {
            lemma_filled_scans_are_gone(*p.source, directory, options, rows, *out->Sort_0.source);
            assert(spec_first_scan(out) != Some((directory, options)));
        },
        PointInTimeOperator::UnionAll(p) => {
            lemma_filled_lists_have_none(
                p.sources@,
                directory,
                options,
                rows,
                out->UnionAll_0.sources@,
                p.sources@.len() as int,
            );
            assert(spec_first_scan(out) != Some((directory, options)));
        },
        PointInTimeOperator::TableInsert(p) => {
            lemma_filled_scans_are_gone(
                *p.source,
                directory,
                options,
                rows,
                *out->TableInsert_0.source,
            );
            assert(spec_first_scan(out) != Some((directory, options)));
        },
        PointInTimeOperator::NegateFreq(p) => {
            lemma_filled_scans_are_gone(*p, directory, options, rows, *out->NegateFreq_0);
            assert(spec_first_scan(out) != Some((directory, options)));
        },
        PointInTimeOperator::SortedGroup(p) => {
            lemma_filled_scans_are_gone(
                *p.source,
                directory,
                options,
                rows,
                *out->SortedGroup_0.source,
            );
            assert(spec_first_scan(out) != Some((directory, options)));
        },
        PointInTimeOperator::HashGroup(p) => {
            lemma_filled_scans_are_gone(
                *p.source,
                directory,
                options,
                rows,
                *out->HashGroup_0.source,
            );
            assert(spec_first_scan(out) != Some((directory, options)));
        },
        PointInTimeOperator::HashJoin(p) => {
            lemma_filled_scans_are_gone(*p.left, directory, options, rows, *out->HashJoin_0.left);
            lemma_filled_scans_are_gone(*p.right, directory, options, rows, *out->HashJoin_0.right);
            assert(spec_first_scan(out) != Some((directory, options)));
        },
        PointInTimeOperator::FileScan(f) => {
            assert(spec_first_scan(out) != Some((directory, options)));
            assert(spec_first_scan(out) != Some((directory, options)));
        },
        _ => {
            assert(out == plan);
            assert(spec_first_scan(out) != Some((directory, options)));
        },
    }
}

/// The plans of a list that was filled have no scan of those files left.
pub proof fn lemma_filled_lists_have_none(
    list: Seq<PointInTimeOperator>,
    directory: Seq<char>,
    options: SerdeOptions,
    rows: Seq<Seq<Value>>,
    out: Seq<PointInTimeOperator>,
    n: int,
)
    requires
        0 <= n <= list.len(),
        filled_all(list, directory, options, rows, out, n),
    ensures
        first_scan_among(out, n) != Some((directory, options)),
    decreases list, n,
{
    if n > 0 {
        lemma_filled_lists_have_none(list, directory, options, rows, out, n - 1);
        vstd::seq::axiom_seq_index_decreases(list, n - 1);
        lemma_filled_scans_are_gone(list[n - 1], directory, options, rows, out[n - 1]);
    }
}

} // verus!
