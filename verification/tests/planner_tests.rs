use incresql::ast::expr::{Expression, NamedExpression};
use incresql::ast::rel::logical::{Join, JoinType, LogicalOperator, Project, TableAlias, Values};
use incresql::ast::rel::point_in_time;
use incresql::ast::rel::point_in_time::PointInTimeOperator;
use incresql::catalog::CatalogError;
use incresql::data::{DataType, Datum, Decimal, Session};
use incresql::parser::{parse, Statement};
use incresql::planner::utils::logical::{fieldnames_for_operator, fields_for_operator};
use incresql::planner::{Field, Planner, PlannerError};

fn plan(planner: &Planner, sql: &str) -> Result<LogicalOperator, PlannerError> {
    let session = Session::new(1);
    match parse(sql).unwrap() {
        Statement::Query(query) => planner.plan_common(query, &session).map(|(_, plan)| plan),
        _ => panic!(),
    }
}

#[test]
fn test_plan_common_fields() {
    let planner = Planner::new_for_test().unwrap();
    let session = Session::new(1);
    let raw_query = LogicalOperator::Project(Project {
        distinct: false,
        expressions: vec![NamedExpression {
            alias: None,
            expression: Expression::Constant(
                Datum::from(Decimal::parse(b"1.23").unwrap()),
                DataType::Decimal(28, 2),
            ),
        }],
        source: Box::new(LogicalOperator::Single),
    });

    let (fields, _operator) = planner.plan_common(raw_query, &session).unwrap();

    assert_eq!(
        fields,
        vec![Field {
            qualifier: None,
            alias: String::from("_col1"),
            data_type: DataType::Decimal(28, 2)
        }]
    );
}

#[test]
fn test_plan_for_point_in_time() {
    let planner = Planner::new_for_test().unwrap();
    let session = Session::new(1);
    let raw_query = LogicalOperator::Project(Project {
        distinct: false,
        expressions: vec![NamedExpression {
            alias: None,
            expression: Expression::Constant(Datum::Null, DataType::Null),
        }],
        source: Box::new(LogicalOperator::Single),
    });

    let expected = PointInTimeOperator::Project(point_in_time::Project {
        expressions: vec![Expression::Constant(Datum::Null, DataType::Null)],
        source: Box::new(PointInTimeOperator::Single),
    });

    assert_eq!(planner.plan_for_point_in_time(raw_query, &session).unwrap().operator, expected);
}

#[test]
fn test_fields_for_operator() {
    let projection = LogicalOperator::Project(Project {
        distinct: false,
        expressions: vec![NamedExpression {
            alias: Some("bar".to_string()),
            expression: Expression::from(Decimal::parse(b"1.23").unwrap()),
        }],
        source: Box::new(LogicalOperator::Single),
    });

    assert_eq!(
        fields_for_operator(&projection),
        vec![Field {
            qualifier: None,
            alias: "bar".to_string(),
            data_type: DataType::Decimal(3, 2)
        }]
    );

    let table_alias = LogicalOperator::TableAlias(TableAlias {
        alias: "foo".to_string(),
        source: Box::new(projection),
    });

    assert_eq!(
        fields_for_operator(&table_alias),
        vec![Field {
            qualifier: Some("foo".to_string()),
            alias: "bar".to_string(),
            data_type: DataType::Decimal(3, 2)
        }]
    );
}

#[test]
fn test_fieldnames_for_operator() {
    let projection = LogicalOperator::Project(Project {
        distinct: false,
        expressions: vec![NamedExpression {
            alias: Some("bar".to_string()),
            expression: Expression::from(Decimal::parse(b"1.23").unwrap()),
        }],
        source: Box::new(LogicalOperator::Single),
    });

    assert_eq!(fieldnames_for_operator(&projection), vec![(None, "bar".to_string())]);
}

#[test]
fn planning_twice_gives_the_same_plan() {
    let planner = Planner::new_for_test().unwrap();
    let sql = r#"SELECT name, 1 + 2 FROM incresql.databases WHERE name = "default" AND 1 = 1"#;
    assert_eq!(plan(&planner, sql).unwrap(), plan(&planner, sql).unwrap());
}

#[test]
fn constants_are_folded_and_filters_pushed_down() {
    let planner = Planner::new_for_test().unwrap();
    let planned = plan(&planner, "SELECT 1 + 2").unwrap();
    match planned {
        LogicalOperator::Project(project) => {
            assert_eq!(project.expressions[0].expression, Expression::from(3));
            assert_eq!(project.expressions[0].alias, Some("_col1".to_string()));
        }
        _ => panic!(),
    }
    // The filter above the inner projection ends up under it, on the table.
    let planned =
        plan(&planner, r#"SELECT * FROM (SELECT name FROM incresql.databases) WHERE name = "x""#)
            .unwrap();
    match planned {
        LogicalOperator::Project(outer) => match *outer.source {
            LogicalOperator::Project(inner) => {
                assert!(matches!(*inner.source, LogicalOperator::Filter(_)))
            }
            other => panic!("{:?}", other),
        },
        _ => panic!(),
    }
}

#[test]
fn each_kind_of_planner_error() {
    let planner = Planner::new_for_test().unwrap();
    assert!(matches!(
        plan(&planner, "SELECT nothing(1)"),
        Err(PlannerError::FunctionNotFound(_))
    ));
    assert!(matches!(
        plan(&planner, "SELECT a FROM incresql.databases"),
        Err(PlannerError::ColumnNotFound(_))
    ));
    assert!(matches!(
        plan(&planner, "SELECT name FROM (SELECT name, name FROM incresql.databases) x"),
        Err(PlannerError::AmbiguousColumn(_))
    ));
    assert!(matches!(
        plan(&planner, "SELECT 1 FROM incresql.databases WHERE name"),
        Err(PlannerError::TypeMismatch(_))
    ));
    assert!(matches!(
        plan(&planner, "SELECT count(count(name)) FROM incresql.databases"),
        Err(PlannerError::AggregateMisuse(_))
    ));
    assert!(matches!(plan(&planner, "SELECT 1 FROM nowhere.nothing"), Err(PlannerError::Catalog(_))));
    let session = Session::new(1);
    let uneven = LogicalOperator::Values(Values {
        data: vec![vec![Expression::from(1)], vec![Expression::from(1), Expression::from(2)]],
        fields: vec![],
    });
    assert!(matches!(planner.validate(uneven, &session), Err(PlannerError::InvalidValues(_))));
    let mixed = LogicalOperator::Values(Values {
        data: vec![vec![Expression::from(1)], vec![Expression::from("a")]],
        fields: vec![],
    });
    assert!(matches!(planner.validate(mixed, &session), Err(PlannerError::InvalidValues(_))));
}

#[test]
fn joins_are_lowered_to_hash_joins() {
    let planner = Planner::new_for_test().unwrap();
    let session = Session::new(1);
    let side = |alias: &str| {
        LogicalOperator::TableAlias(TableAlias {
            alias: alias.to_string(),
            source: Box::new(LogicalOperator::Values(Values {
                data: vec![vec![Expression::from(1)], vec![Expression::from(2)]],
                fields: vec![],
            })),
        })
    };
    let on = match parse("SELECT l._col1 = r._col1 AND l._col1 > 1").unwrap() {
        Statement::Query(LogicalOperator::Project(mut project)) => {
            project.expressions.remove(0).expression
        }
        _ => panic!(),
    };
    let join = LogicalOperator::Join(Join {
        left: Box::new(side("l")),
        right: Box::new(side("r")),
        on,
        join_type: JoinType::Inner,
    });
    let planned = planner.plan_for_point_in_time(join, &session).unwrap();
    assert_eq!(planned.fields.len(), 2);
    match planned.operator {
        PointInTimeOperator::HashJoin(join) => {
            assert_eq!(join.key_len, 1);
            assert_eq!(join.join_type, JoinType::Inner);
        }
        other => panic!("{:?}", other),
    }
}

#[test]
fn errors_carry_the_text_of_what_was_not_found() {
    let planner = Planner::new_for_test().unwrap();
    let session = Session::new(1);
    let query = |sql: &str| match parse(sql).unwrap() {
        Statement::Query(query) => query,
        _ => panic!(),
    };
    assert_eq!(
        planner.validate(query("SELECT nothing(1, \"a\")"), &session).err(),
        Some(PlannerError::FunctionNotFound("nothing(INTEGER, TEXT)".to_string()))
    );
    assert_eq!(
        planner.validate(query("SELECT t.a"), &session).err(),
        Some(PlannerError::ColumnNotFound("t.a".to_string()))
    );
    assert_eq!(
        planner.validate(query("SELECT 1 FROM nowhere"), &session).err(),
        Some(PlannerError::Catalog(CatalogError::TableNotFound(
            "default".to_string(),
            "nowhere".to_string()
        )))
    );
    assert_eq!(
        planner.validate(query("SELECT 1 WHERE 1"), &session).err(),
        Some(PlannerError::TypeMismatch("a predicate has to be a boolean".to_string()))
    );
    assert_eq!(
        planner.validate(query("SELECT 1 WHERE 1"), &session),
        planner.validate(query("SELECT 1 WHERE 1"), &session)
    );
}
