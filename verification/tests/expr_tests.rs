use incresql::ast::expr::{Cast, ColumnReference, Expression, FunctionCall, NamedExpression};
use incresql::data::{DataType, Datum, Decimal};

#[test]
fn test_expr_from_boolean() {
    assert_eq!(Expression::from(true), Expression::Constant(Datum::Boolean(true), DataType::Boolean));
    assert_eq!(
        Expression::from(false),
        Expression::Constant(Datum::Boolean(false), DataType::Boolean)
    );
}

#[test]
fn test_expr_from_integer() {
    assert_eq!(Expression::from(1234), Expression::Constant(Datum::Integer(1234), DataType::Integer));
}

#[test]
fn test_expr_from_bigint() {
    assert_eq!(
        Expression::from(1234_i64),
        Expression::Constant(Datum::BigInt(1234), DataType::BigInt)
    );
}

#[test]
fn test_expr_from_decimal() {
    assert_eq!(
        Expression::from(Decimal::new(12345, 2)),
        Expression::Constant(Datum::Decimal(Decimal::new(12345, 2)), DataType::Decimal(5, 2))
    );

    assert_eq!(
        Expression::from(Decimal::new(-12345, 2)),
        Expression::Constant(Datum::Decimal(Decimal::new(-12345, 2)), DataType::Decimal(5, 2))
    );

    assert_eq!(
        Expression::from(Decimal::new(0, 1)),
        Expression::Constant(Datum::Decimal(Decimal::new(0, 1)), DataType::Decimal(1, 1))
    );

    assert_eq!(
        Expression::from(Decimal::new(1234, 4)),
        Expression::Constant(Datum::Decimal(Decimal::new(1234, 4)), DataType::Decimal(4, 4))
    );
}

#[test]
fn test_expr_from_string() {
    assert_eq!(
        Expression::from(String::from("Hello world")),
        Expression::Constant(Datum::ByteAOwned(Box::from(b"Hello world".as_ref())), DataType::Text)
    );
}

#[test]
fn test_expr_to_string() {
    let expr = Expression::FunctionCall(FunctionCall {
        function_name: "+".to_string(),
        args: vec![
            Expression::Cast(Cast {
                expr: Box::new(Expression::from("5")),
                datatype: DataType::Integer,
            }),
            Expression::FunctionCall(FunctionCall {
                function_name: "pow".to_string(),
                args: vec![Expression::from(Decimal::new(23, 1)), Expression::from(2)],
            }),
        ],
    });

    assert_eq!(expr.to_string(), r#"`+`(CAST("5" AS INTEGER), pow(2.3, 2))"#);
}

#[test]
fn test_named_expr_to_string() {
    let expr = NamedExpression { alias: None, expression: Expression::from(1) };

    assert_eq!(expr.to_string(), "1");

    let expr = NamedExpression { alias: Some(String::from("foo")), expression: Expression::from(1) };

    assert_eq!(expr.to_string(), "1 AS foo");

    let expr = NamedExpression { alias: Some(String::from("1b")), expression: Expression::from(1) };

    assert_eq!(expr.to_string(), "1 AS `1b`");
}

#[test]
fn column_references_are_quoted_where_needed() {
    let plain = ColumnReference { qualifier: None, alias: "abc_1".to_string(), star: false };
    assert_eq!(plain.to_string(), "abc_1");
    let qualified =
        ColumnReference { qualifier: Some("My Table".to_string()), alias: "a,b".to_string(), star: false };
    assert_eq!(qualified.to_string(), "`My Table`.`a,b`");
    let upper = ColumnReference { qualifier: None, alias: "Abc".to_string(), star: false };
    assert_eq!(upper.to_string(), "`Abc`");
}

#[test]
fn children_are_the_arguments() {
    let call = Expression::FunctionCall(FunctionCall {
        function_name: "f".to_string(),
        args: vec![Expression::from(1), Expression::from(true)],
    });
    let children = call.children();
    assert_eq!(children.len(), 2);
    assert_eq!(*children[0], Expression::from(1));
    assert_eq!(*children[1], Expression::from(true));
    assert_eq!(Expression::from(1).children().len(), 0);
    let cast = Expression::Cast(Cast { expr: Box::new(Expression::from(7)), datatype: DataType::Text });
    assert_eq!(cast.children().len(), 1);
    assert_eq!(Expression::default(), Expression::Constant(Datum::Null, DataType::Null));
}
