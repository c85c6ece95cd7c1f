use incresql::ast::expr::{ColumnReference, Expression, NamedExpression, SortExpression};
use incresql::ast::rel::logical::{
    Filter, GroupBy, Limit, LogicalOperator, Project, Sort, TableAlias, TableReference, UnionAll,
};
use incresql::data::{DataType, SortOrder};
use incresql::parser::atoms::Cursor;
use incresql::parser::select::table_reference_with_alias;
use incresql::parser::{parse, select, ParserError, Statement};

fn project_one() -> LogicalOperator {
    LogicalOperator::Project(Project {
        distinct: false,
        expressions: vec![NamedExpression { expression: Expression::from(1), alias: None }],
        source: Box::from(LogicalOperator::Single),
    })
}

#[test]
fn test_select() {
    assert_eq!(
        select("SELECT 1,2 foo , 3 as bar").unwrap().1,
        LogicalOperator::Project(Project {
            distinct: false,
            expressions: vec![
                NamedExpression { expression: Expression::from(1), alias: None },
                NamedExpression { expression: Expression::from(2), alias: Some(String::from("foo")) },
                NamedExpression { expression: Expression::from(3), alias: Some(String::from("bar")) },
            ],
            source: Box::from(LogicalOperator::Single)
        })
    );
}

#[test]
fn test_from_simple() {
    let sql = "SELECT 1 FROM (SELECT 1)";

    let inner = project_one();

    let expected = LogicalOperator::Project(Project {
        distinct: false,
        expressions: vec![NamedExpression { expression: Expression::from(1), alias: None }],
        source: Box::from(inner),
    });

    assert_eq!(select(sql).unwrap().1, expected);
}

#[test]
fn test_from_aliased() {
    let sql1 = "SELECT 1 FROM (SELECT 1) as foo";
    let sql2 = "SELECT 1 FROM (SELECT 1) foo";

    let inner = project_one();

    let alias =
        LogicalOperator::TableAlias(TableAlias { alias: "foo".to_string(), source: Box::new(inner) });

    let expected = LogicalOperator::Project(Project {
        distinct: false,
        expressions: vec![NamedExpression { expression: Expression::from(1), alias: None }],
        source: Box::from(alias),
    });

    assert_eq!(&select(sql1).unwrap().1, &expected);

    assert_eq!(&select(sql2).unwrap().1, &expected);
}

#[test]
fn test_where() {
    assert_eq!(
        select("SELECT 1 WHERE true").unwrap().1,
        LogicalOperator::Project(Project {
            distinct: false,
            expressions: vec![NamedExpression { expression: Expression::from(1), alias: None },],
            source: Box::from(LogicalOperator::Filter(Filter {
                predicate: Expression::from(true),
                source: Box::new(LogicalOperator::Single)
            }))
        })
    );
}

#[test]
fn test_group_by() {
    assert_eq!(
        select("SELECT 1 GROUP BY a").unwrap().1,
        LogicalOperator::GroupBy(GroupBy {
            expressions: vec![NamedExpression { expression: Expression::from(1), alias: None },],
            key_expressions: vec![Expression::ColumnReference(ColumnReference {
                qualifier: None,
                alias: "a".to_string(),
                star: false
            })],
            source: Box::new(LogicalOperator::Single)
        })
    );
}

#[test]
fn test_order_by() {
    let project = project_one();

    assert_eq!(
        select("SELECT 1 ORDER BY 1 desc").unwrap().1,
        LogicalOperator::Sort(Sort {
            sort_expressions: vec![SortExpression {
                ordering: SortOrder::Desc,
                expression: Expression::from(1)
            }],
            source: Box::new(project)
        })
    );
}

#[test]
fn test_limit() {
    let expected = LogicalOperator::Limit(Limit {
        offset: 0,
        limit: 10,
        source: Box::new(project_one()),
    });

    assert_eq!(select("SELECT 1 LIMIT 10").unwrap().1, expected);

    let expected = LogicalOperator::Limit(Limit {
        offset: 2,
        limit: 10,
        source: Box::new(project_one()),
    });

    assert_eq!(&select("SELECT 1 LIMIT 10 OFFSET 2").unwrap().1, &expected);

    assert_eq!(select("SELECT 1 LIMIT 2, 10").unwrap().1, expected);
}

#[test]
fn test_union_all() {
    assert_eq!(
        select("SELECT 1 UNION ALL SELECT 2").unwrap().1,
        LogicalOperator::UnionAll(UnionAll {
            sources: vec![
                project_one(),
                LogicalOperator::Project(Project {
                    distinct: false,
                    expressions: vec![NamedExpression {
                        expression: Expression::from(2),
                        alias: None
                    },],
                    source: Box::from(LogicalOperator::Single)
                })
            ]
        })
    );
}

#[test]
fn test_table_reference() {
    let mut cursor = Cursor::new(b"foo");
    assert_eq!(
        table_reference_with_alias(&mut cursor).unwrap(),
        LogicalOperator::TableAlias(TableAlias {
            alias: "foo".to_string(),
            source: Box::new(LogicalOperator::TableReference(TableReference {
                database: None,
                table: "foo".to_string()
            })),
        })
    );

    let mut cursor = Cursor::new(b"foo.bar");
    assert_eq!(
        table_reference_with_alias(&mut cursor).unwrap(),
        LogicalOperator::TableAlias(TableAlias {
            alias: "bar".to_string(),
            source: Box::new(LogicalOperator::TableReference(TableReference {
                database: Some("foo".to_string()),
                table: "bar".to_string()
            })),
        })
    );
}

#[test]
fn a_sort_after_a_union_holds_for_all_of_it() {
    let parsed = select("SELECT 1 UNION ALL SELECT 2 ORDER BY 1 LIMIT 1").unwrap().1;
    match parsed {
        LogicalOperator::Limit(limit) => match *limit.source {
            LogicalOperator::Sort(sort) => {
                assert!(matches!(*sort.source, LogicalOperator::UnionAll(_)))
            }
            _ => panic!(),
        },
        _ => panic!(),
    }
}

#[test]
fn statements_are_told_apart() {
    assert_eq!(parse("CREATE DATABASE abc").unwrap(), Statement::CreateDatabase("abc".to_string()));
    assert_eq!(parse("drop database abc;").unwrap(), Statement::DropDatabase("abc".to_string()));
    assert_eq!(parse("  use `My Db` ").unwrap(), Statement::UseDatabase("My Db".to_string()));
    assert_eq!(
        parse("CREATE TABLE d.t(a INT, b DECIMAL(10,2), c text)").unwrap(),
        Statement::CreateTable(
            Some("d".to_string()),
            "t".to_string(),
            vec![
                ("a".to_string(), DataType::Integer),
                ("b".to_string(), DataType::Decimal(10, 2)),
                ("c".to_string(), DataType::Text)
            ]
        )
    );
    assert!(matches!(parse("INSERT INTO t VALUES (1),(2)").unwrap(), Statement::Query(_)));
    assert!(matches!(parse("SELECT 1").unwrap(), Statement::Query(_)));
}

#[test]
fn errors_name_the_place() {
    assert_eq!(
        parse("SELECT 1 +"),
        Err(ParserError::Syntax { position: 10, expected: "an expression".to_string() })
    );
    assert_eq!(
        parse("SELECT 1 1"),
        Err(ParserError::Syntax { position: 9, expected: "the end of the statement".to_string() })
    );
    assert_eq!(
        parse("FETCH"),
        Err(ParserError::Syntax { position: 0, expected: "a statement".to_string() })
    );
    assert!(parse("SELECT (1").is_err());
    assert!(parse("SELECT \"open").is_err());
    assert!(parse("CREATE TABLE t(a nothing)").is_err());
}

#[test]
fn literals_are_read() {
    let parsed = select("SELECT -1, 5000000000, 1.50, \"a\\\"b\", null, -2.5").unwrap().1;
    match parsed {
        LogicalOperator::Project(project) => {
            let rendered: Vec<String> =
                project.expressions.iter().map(|e| e.expression.to_string()).collect();
            assert_eq!(rendered, vec!["-1", "5000000000", "1.50", "\"a\\\"b\"", "NULL", "-2.5"]);
        }
        _ => panic!(),
    }
}
