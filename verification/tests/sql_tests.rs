use incresql::runtime::{QueryError, Runtime};

struct Connection {
    runtime: Runtime,
    id: u32,
}

impl Connection {
    /// Runs a statement and holds its rows, one to a line, against the
    /// lines that are expected.
    fn query(&mut self, sql: &str, expected: &str) {
        let mut result = match self.runtime.execute(self.id, sql) {
            Ok(result) => result,
            Err(error) => panic!("{} failed: {:?}", sql, error),
        };
        let actual = result.render();
        let actual_lines: Vec<&str> =
            actual.lines().map(|line| line.trim()).filter(|line| !line.is_empty()).collect();
        let expected_lines: Vec<&str> =
            expected.lines().map(|line| line.trim()).filter(|line| !line.is_empty()).collect();
        assert_eq!(actual_lines, expected_lines, "{}", sql);
    }

    fn error(&mut self, sql: &str) -> QueryError {
        match self.runtime.execute(self.id, sql) {
            Ok(_) => panic!("{} was expected to fail", sql),
            Err(error) => error,
        }
    }
}

fn with_connection(run: fn(&mut Connection)) {
    let mut runtime = Runtime::new_for_test().unwrap();
    let id = runtime.new_connection().unwrap();
    let mut connection = Connection { runtime, id };
    run(&mut connection);
}

#[test]
fn and_or() {
    with_connection(|connection| {
        connection.query(
            r#"SELECT null and true"#,
            "\
        |NULL|
        ",
        );

        connection.query(
            r#"SELECT true and true"#,
            "\
        |TRUE|
        ",
        );

        connection.query(
            r#"SELECT true and false"#,
            "\
        |FALSE|
        ",
        );

        connection.query(
            r#"SELECT null or true"#,
            "\
        |NULL|
        ",
        );

        connection.query(
            r#"SELECT true or false"#,
            "\
        |TRUE|
        ",
        );

        connection.query(
            r#"SELECT false or false"#,
            "\
        |FALSE|
        ",
        );
    });
}

#[test]
fn and_or_not_precedence() {
    with_connection(|connection| {
        // This is how it should be parsed
        connection.query(
            r#"SELECT (true and false) or false, false or (false and true)"#,
            "
        |FALSE|FALSE|
        ",
        );

        // Checking without brackets.
        connection.query(
            r#"SELECT true and false or false, false or false and true"#,
            "
        |FALSE|FALSE|
        ",
        );

        // check not
        connection.query(
            r#"SELECT not true, not not true"#,
            "
        |FALSE|TRUE|
        ",
        );

        // check "not" binds tighter than "or"
        connection.query(
            r#"SELECT not true or true"#,
            "
        |TRUE|
        ",
        );

        // Check "not" binds tighter than "and"
        connection.query(
            r#"SELECT not false and false"#,
            "
        |FALSE|
        ",
        );
    });
}

#[test]
fn test_is() {
    with_connection(|connection| {
        connection.query(
            r#"SELECT 1=1 is true, 1=2 is true, 1=null is true"#,
            "
        |TRUE|FALSE|FALSE|
        ",
        );

        connection.query(
            r#"SELECT 1=1 is not true, 1=2 is not true, 1=null is not true"#,
            "
        |FALSE|TRUE|TRUE|
        ",
        );

        // Should be parsed as
        // (((1=1) is false) = false) is true
        connection.query(
            r#"SELECT 1=1 is false = false is true"#,
            "
        |TRUE|
        ",
        );
    });
}

#[test]
fn create_databases() {
    with_connection(|connection| {
        connection.query(r#"CREATE DATABASE foobar"#, "");

        connection.query(
            r#"SELECT * FROM incresql.databases where name = "foobar""#,
            "
                |foobar|
            ",
        );

        connection.query(r#"use foobar"#, "");

        connection.query(r#"DROP DATABASE foobar"#, "");

        connection.query(
            r#"SELECT * FROM incresql.databases where name = "foobar""#,
            "",
        );
    });
}

#[test]
fn select_one_plus_two() {
    with_connection(|connection| {
        connection.query("SELECT 1 + 2", "|3|");
    });
}

#[test]
fn select_default_database() {
    with_connection(|connection| {
        connection.query(
            r#"SELECT * FROM incresql.databases WHERE name = "default""#,
            "|default|",
        );
    });
}

#[test]
fn group_and_order() {
    with_connection(|connection| {
        connection.query("CREATE DATABASE d", "");
        connection.query("USE d", "");
        connection.query("CREATE TABLE t(a INT)", "");
        connection.query("INSERT INTO t VALUES (1),(2),(2)", "");
        connection.query(
            "SELECT a, count(*) FROM t GROUP BY a ORDER BY a",
            "|1|1|
             |2|2|",
        );
    });
}

#[test]
fn union_all_and_order() {
    with_connection(|connection| {
        connection.query("CREATE DATABASE d", "");
        connection.query("USE d", "");
        connection.query("CREATE TABLE t(a INT)", "");
        connection.query("INSERT INTO t VALUES (1),(2),(2)", "");
        connection.query(
            "SELECT a FROM t WHERE a > 1 UNION ALL SELECT a FROM t WHERE a < 2 ORDER BY a",
            "|1|
             |2|
             |2|",
        );
    });
}

#[test]
fn cast_and_multiply_decimal() {
    with_connection(|connection| {
        connection.query(r#"SELECT CAST("2.3" AS DECIMAL(10,1)) * 2"#, "|4.6|");
    });
    let mut runtime = Runtime::new_for_test().unwrap();
    let id = runtime.new_connection().unwrap();
    let result = runtime.execute(id, r#"SELECT CAST("2.3" AS DECIMAL(10,1)) * 2"#).unwrap();
    assert_eq!(result.fields.len(), 1);
    assert_eq!(result.fields[0].data_type, incresql::data::DataType::Decimal(12, 1));
}

#[test]
fn statements_that_fail() {
    with_connection(|connection| {
        assert!(matches!(connection.error("SELEC 1"), QueryError::ParserError(_)));
        assert!(matches!(connection.error("SELECT nothing(1)"), QueryError::PlannerError(_)));
        assert!(matches!(connection.error("SELECT a"), QueryError::PlannerError(_)));
        assert!(matches!(connection.error("USE nowhere"), QueryError::CatalogError(_)));
        assert!(matches!(connection.error("DROP DATABASE nowhere"), QueryError::CatalogError(_)));
        assert!(matches!(
            connection.error("CREATE DATABASE default"),
            QueryError::CatalogError(_)
        ));
    });
}
