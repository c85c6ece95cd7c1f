use incresql::ast::expr::{CompiledColumnReference, CompiledFunctionCall, Expression, SortExpression};
use incresql::ast::rel::logical::{FileScan, JoinType, LogicalOperator, SerdeOptions};
use incresql::ast::rel::point_in_time;
use incresql::ast::rel::point_in_time::PointInTimeOperator;
use incresql::catalog::Catalog;
use incresql::data::{DataType, Datum, LogicalTimestamp, Session, SortOrder, TupleIter};
use incresql::executor::point_in_time::file_scan::{first_file_scan, with_file_rows};
use incresql::executor::point_in_time::project::ProjectExecutor;
use incresql::executor::point_in_time::{build_executor, column_count};
use incresql::executor::{EvalScalar, EvalScalarRow, ExecutionError};
use incresql::functions::registry::Registry;
use incresql::functions::FunctionType;
use incresql::planner::Planner;

fn run(plan: &PointInTimeOperator) -> Vec<(Vec<Datum<'static>>, i32)> {
    let mut catalog = Catalog::new_for_test().unwrap();
    let session = Session::new(1);
    let mut executor = build_executor(&session, plan, &mut catalog, LogicalTimestamp::new(5)).unwrap();
    let mut rows = vec![];
    while let Some((tuple, freq)) = executor.next() {
        rows.push((tuple.iter().map(|d| d.as_static()).collect(), freq));
    }
    rows
}

fn column(offset: usize) -> Expression {
    Expression::CompiledColumnReference(CompiledColumnReference {
        offset,
        datatype: DataType::Integer,
    })
}

fn call(name: &str, args: Vec<Expression>) -> Expression {
    let types: Vec<DataType> = args.iter().map(|_| DataType::Integer).collect();
    let (signature, function) = Registry::new(true).resolve_function(name, &types).unwrap();
    match function {
        FunctionType::Scalar(function) => Expression::CompiledFunctionCall(CompiledFunctionCall {
            function,
            args,
            signature: Box::from(signature),
        }),
        _ => panic!(),
    }
}

fn values(rows: Vec<Vec<i32>>) -> PointInTimeOperator {
    let column_count = rows.first().map(|r| r.len()).unwrap_or(0);
    PointInTimeOperator::Values(point_in_time::Values {
        data: rows.into_iter().map(|r| r.into_iter().map(Datum::from).collect()).collect(),
        column_count,
    })
}

fn ints(rows: Vec<(Vec<i32>, i32)>) -> Vec<(Vec<Datum<'static>>, i32)> {
    rows.into_iter().map(|(r, f)| (r.into_iter().map(Datum::from).collect(), f)).collect()
}

#[test]
fn test_eval_scalar_literal() {
    let expression = Expression::from(1234);
    let session = Session::new(1);
    assert_eq!(expression.eval_scalar(&session, &[]), Datum::from(1234));
}

#[test]
fn test_eval_scalar_function() {
    let expression = call("+", vec![Expression::from(3), Expression::from(4)]);

    let session = Session::new(1);
    assert_eq!(expression.eval_scalar(&session, &[]), Datum::from(7));
}

#[test]
fn test_eval_scalar_row() {
    let expressions = vec![Expression::from(1234), Expression::from(5678)];
    let session = Session::new(1);
    let mut target = vec![Datum::Null, Datum::Null];
    expressions.eval_scalar(&session, &[], &mut target);

    assert_eq!(target, vec![Datum::from(1234), Datum::from(5678)]);
}

#[test]
fn test_build_executor() {
    let session = Session::new(1);
    let mut catalog = Catalog::new_for_test().unwrap();
    let plan = PointInTimeOperator::Project(point_in_time::Project {
        expressions: vec![Expression::from(1)],
        source: Box::new(PointInTimeOperator::Single),
    });

    let mut executor =
        build_executor(&session, &plan, &mut catalog, LogicalTimestamp::new(1)).unwrap();
    // The plan is run as a whole; what comes out of it shows what was built.
    assert_eq!(executor.next(), Some(([Datum::from(1)].as_ref(), 1)));

    assert_eq!(executor.next(), None);
}

#[test]
fn test_project_executor() {
    let session = Session::new(1);
    let mut executor = ProjectExecutor::new(
        TupleIter::new(vec![(vec![], 1)], 0),
        vec![Expression::from(1), Expression::from(2)],
    );

    assert_eq!(executor.column_count(), 2);

    assert_eq!(executor.next(&session), Some(([Datum::from(1), Datum::from(2)].as_ref(), 1)));
    assert_eq!(executor.next(&session), None);
}

#[test]
fn columns_out_of_a_row_are_null() {
    let session = Session::new(1);
    assert_eq!(column(3).eval_scalar(&session, &[Datum::from(1)]), Datum::Null);
    assert_eq!(column(0).eval_scalar(&session, &[Datum::from(1)]), Datum::from(1));
}

#[test]
fn filter_keeps_what_is_true() {
    let plan = PointInTimeOperator::Filter(point_in_time::Filter {
        predicate: call(">", vec![column(0), Expression::from(1)]),
        source: Box::new(values(vec![vec![1], vec![2], vec![3]])),
    });
    assert_eq!(run(&plan), ints(vec![(vec![2], 1), (vec![3], 1)]));
    let null_predicate = PointInTimeOperator::Filter(point_in_time::Filter {
        predicate: Expression::Constant(Datum::Null, DataType::Boolean),
        source: Box::new(values(vec![vec![1]])),
    });
    assert_eq!(run(&null_predicate), vec![]);
}

#[test]
fn limit_counts_by_frequency() {
    let doubled = PointInTimeOperator::UnionAll(point_in_time::UnionAll {
        sources: vec![values(vec![vec![1], vec![2]])],
    });
    let plan = PointInTimeOperator::Limit(point_in_time::Limit {
        offset: 1,
        limit: 1,
        source: Box::new(doubled),
    });
    assert_eq!(run(&plan), ints(vec![(vec![2], 1)]));
    let none = PointInTimeOperator::Limit(point_in_time::Limit {
        offset: 0,
        limit: 0,
        source: Box::new(values(vec![vec![1]])),
    });
    assert_eq!(run(&none), vec![]);
    let rows = vec![(vec![Datum::from(1)], 3), (vec![Datum::from(2)], 2)];
    let limited = incresql::executor::point_in_time::limit::limit(&rows, 2, 2);
    assert_eq!(limited, ints(vec![(vec![1], 1), (vec![2], 1)]));
}

#[test]
fn union_all_goes_through_its_sources_in_order() {
    let plan = PointInTimeOperator::UnionAll(point_in_time::UnionAll {
        sources: vec![values(vec![vec![3]]), PointInTimeOperator::Single, values(vec![vec![1]])],
    });
    assert_eq!(run(&plan), vec![(vec![Datum::from(3)], 1), (vec![], 1), (vec![Datum::from(1)], 1)]);
}

#[test]
fn negate_flips_the_sign() {
    let plan = PointInTimeOperator::NegateFreq(Box::new(values(vec![vec![1]])));
    assert_eq!(run(&plan), ints(vec![(vec![1], -1)]));
}

#[test]
fn sort_is_stable_and_honours_the_order() {
    let source = values(vec![vec![2, 1], vec![1, 2], vec![2, 3], vec![1, 4]]);
    let plan = PointInTimeOperator::Sort(point_in_time::Sort {
        sort_expressions: vec![SortExpression { ordering: SortOrder::Desc, expression: column(0) }],
        source: Box::new(source),
    });
    assert_eq!(
        run(&plan),
        ints(vec![(vec![2, 1], 1), (vec![2, 3], 1), (vec![1, 2], 1), (vec![1, 4], 1)])
    );
}

fn count_star() -> Expression {
    let (signature, function) = Registry::new(true).resolve_function("count", &[]).unwrap();
    match function {
        FunctionType::Aggregate(function) => {
            Expression::CompiledAggregate(incresql::ast::expr::CompiledAggregate {
                function,
                args: vec![],
                signature: Box::from(signature),
            })
        }
        _ => panic!(),
    }
}

#[test]
fn a_group_without_keys_gives_one_row_even_of_nothing() {
    let plan = PointInTimeOperator::SortedGroup(point_in_time::Group {
        source: Box::new(values(vec![])),
        expressions: vec![count_star()],
        key_len: 0,
    });
    assert_eq!(run(&plan), vec![(vec![Datum::from(0_i64)], 1)]);
    let plan = PointInTimeOperator::SortedGroup(point_in_time::Group {
        source: Box::new(values(vec![vec![1], vec![1], vec![5]])),
        expressions: vec![count_star()],
        key_len: 0,
    });
    assert_eq!(run(&plan), vec![(vec![Datum::from(3_i64)], 1)]);
}

#[test]
fn groups_are_formed_by_key() {
    let hashed = PointInTimeOperator::HashGroup(point_in_time::Group {
        source: Box::new(values(vec![vec![2], vec![1], vec![2]])),
        expressions: vec![column(0), count_star()],
        key_len: 1,
    });
    assert_eq!(
        run(&hashed),
        vec![
            (vec![Datum::from(2), Datum::from(2_i64)], 1),
            (vec![Datum::from(1), Datum::from(1_i64)], 1)
        ]
    );
    let sorted = PointInTimeOperator::SortedGroup(point_in_time::Group {
        source: Box::new(values(vec![vec![1], vec![2], vec![2], vec![1]])),
        expressions: vec![column(0), count_star()],
        key_len: 1,
    });
    assert_eq!(
        run(&sorted),
        vec![
            (vec![Datum::from(1), Datum::from(1_i64)], 1),
            (vec![Datum::from(2), Datum::from(2_i64)], 1),
            (vec![Datum::from(1), Datum::from(1_i64)], 1)
        ]
    );
}

fn join(key_len: usize, join_type: JoinType, condition: Expression) -> PointInTimeOperator {
    // The key of each side is its last column.
    let left = values(vec![vec![10, 1], vec![20, 2], vec![30, 3]]);
    let right = values(vec![vec![100, 1], vec![200, 2], vec![201, 2]]);
    let (left, right) = if key_len == 0 {
        (values(vec![vec![10], vec![20]]), values(vec![vec![100], vec![200], vec![300]]))
    } else {
        (left, right)
    };
    PointInTimeOperator::HashJoin(point_in_time::Join {
        left: Box::new(left),
        right: Box::new(right),
        key_len,
        non_equi_condition: condition,
        join_type,
    })
}

#[test]
fn joins_match_on_their_keys() {
    let inner = join(1, JoinType::Inner, Expression::from(true));
    assert_eq!(column_count(&inner), 4);
    assert_eq!(
        run(&inner),
        ints(vec![
            (vec![10, 1, 100, 1], 1),
            (vec![20, 2, 200, 2], 1),
            (vec![20, 2, 201, 2], 1)
        ])
    );
    let outer = join(1, JoinType::LeftOuter, Expression::from(true));
    assert_eq!(
        run(&outer),
        vec![
            (vec![Datum::from(10), Datum::from(1), Datum::from(100), Datum::from(1)], 1),
            (vec![Datum::from(20), Datum::from(2), Datum::from(200), Datum::from(2)], 1),
            (vec![Datum::from(20), Datum::from(2), Datum::from(201), Datum::from(2)], 1),
            (vec![Datum::from(30), Datum::from(3), Datum::Null, Datum::Null], 1)
        ]
    );
    let residual =
        join(1, JoinType::Inner, call(">", vec![column(2), Expression::from(200)]));
    assert_eq!(run(&residual), ints(vec![(vec![20, 2, 201, 2], 1)]));
}

#[test]
fn a_join_on_nothing_has_the_product_of_the_frequencies() {
    let session = Session::new(1);
    let left = vec![(vec![Datum::from(1)], 2), (vec![Datum::from(2)], 3), (vec![Datum::from(3)], -1)];
    let right = vec![(vec![Datum::from(7)], 5), (vec![Datum::from(8)], -2)];
    let rows = incresql::executor::point_in_time::hash_join::hash_join(
        &left,
        &right,
        0,
        &Expression::from(true),
        JoinType::Inner,
        1,
        &session,
    );
    assert_eq!(rows.len(), 6);
    let total: i32 = rows.iter().map(|(_, f)| *f).sum();
    assert_eq!(total, (2 + 3 - 1) * (5 - 2));
    assert_eq!(rows[0], (vec![Datum::from(1), Datum::from(7)], 10));
}

#[test]
fn a_killed_session_runs_nothing() {
    let mut catalog = Catalog::new_for_test().unwrap();
    let mut session = Session::new(1);
    session.kill_flag = true;
    let result =
        build_executor(&session, &PointInTimeOperator::Single, &mut catalog, LogicalTimestamp::new(1));
    assert_eq!(result.err(), Some(ExecutionError::Killed));
}

#[test]
fn rows_that_do_not_fit_a_table_are_refused() {
    let mut catalog = Catalog::new_for_test().unwrap();
    catalog.create_table("default", "t", &[("a".to_string(), DataType::Integer)]).unwrap();
    let table = catalog.table("default", "t").unwrap();
    let session = Session::new(1);
    let insert = PointInTimeOperator::TableInsert(point_in_time::TableInsert {
        table,
        source: Box::new(values(vec![vec![1, 2]])),
    });
    let result = build_executor(&session, &insert, &mut catalog, LogicalTimestamp::new(1));
    assert!(matches!(result, Err(ExecutionError::StorageError(_))));
}

fn planned_scan(directory: &str) -> PointInTimeOperator {
    let planner = Planner::new_for_test().unwrap();
    let session = Session::new(1);
    let scan = LogicalOperator::FileScan(FileScan {
        directory: directory.to_string(),
        serde_options: SerdeOptions::Json,
    });
    let plan = planner.plan_for_point_in_time(scan, &session).unwrap();
    assert_eq!(plan.fields.len(), 1);
    assert_eq!(plan.fields[0].alias, "data");
    assert_eq!(plan.fields[0].data_type, DataType::Json);
    plan.operator
}

#[test]
fn a_scan_of_files_runs_over_the_rows_that_were_read() {
    assert_eq!(
        planned_scan("dir"),
        PointInTimeOperator::FileScan(point_in_time::FileScan {
            directory: "dir".to_string(),
            serde_options: SerdeOptions::Json,
        })
    );
    assert_eq!(column_count(&planned_scan("dir")), 1);
    assert_eq!(
        first_file_scan(&planned_scan("dir")),
        Some(("dir".to_string(), SerdeOptions::Json))
    );
    // A scan that was not given its rows cannot be run.
    let mut catalog = Catalog::new_for_test().unwrap();
    let session = Session::new(1);
    assert!(matches!(
        build_executor(&session, &planned_scan("dir"), &mut catalog, LogicalTimestamp::new(5))
            .err(),
        Some(ExecutionError::StorageError(_))
    ));
    let rows = vec![vec![Datum::from(7)], vec![Datum::Null]];
    let other = with_file_rows(planned_scan("dir"), "elsewhere", SerdeOptions::Json, &rows);
    assert_eq!(other, planned_scan("dir"));
    let csv = with_file_rows(planned_scan("dir"), "dir", SerdeOptions::Csv, &rows);
    assert_eq!(csv, planned_scan("dir"));
    let wrapped = PointInTimeOperator::UnionAll(point_in_time::UnionAll {
        sources: vec![values(vec![vec![1]]), planned_scan("dir"), planned_scan("dir")],
    });
    let filled = with_file_rows(wrapped, "dir", SerdeOptions::Json, &rows);
    assert_eq!(first_file_scan(&filled), None);
    assert_eq!(
        run(&filled),
        vec![
            (vec![Datum::from(1)], 1),
            (vec![Datum::from(7)], 1),
            (vec![Datum::Null], 1),
            (vec![Datum::from(7)], 1),
            (vec![Datum::Null], 1)
        ]
    );
}
