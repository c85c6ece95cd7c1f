use incresql::data::json::OwnedJson;
use incresql::data::{DataType, Datum, Decimal, Session};
use incresql::functions::registry::Registry;
use incresql::functions::scalar::boolean::between::Between;
use incresql::functions::scalar::boolean::ne::NE;
use incresql::functions::scalar::casts::to_bool::{ToBooleanFromBoolean, ToBooleanFromText};
use incresql::functions::scalar::casts::to_int::{
    ToIntFromBigInt, ToIntFromBoolean, ToIntFromDecimal, ToIntFromInt, ToIntFromJson,
    ToIntFromText,
};
use incresql::functions::scalar::maths::add::{AddBigint, AddDecimal, AddInteger};
use incresql::functions::scalar::maths::multiply::{
    MultiplyBigint, MultiplyDecimal, MultiplyInteger,
};
use incresql::functions::{
    Function, FunctionSignature, FunctionType, ReturnTypeResolver, ScalarFunction,
};

fn dummy_sig(name: &'static str, ret: DataType) -> FunctionSignature<'static> {
    FunctionSignature { name, args: vec![], ret }
}

#[test]
fn between_test_null() {
    assert_eq!(
        Between {}.execute(
            &Session::new(1),
            &dummy_sig("between", DataType::Boolean),
            &[Datum::Null, Datum::from(1), Datum::from(2)]
        ),
        Datum::Null
    )
}

#[test]
fn test_int() {
    let sig = dummy_sig("between", DataType::Boolean);
    assert_eq!(
        Between {}.execute(&Session::new(1), &sig, &[Datum::from(0), Datum::from(1), Datum::from(2)]),
        Datum::from(false)
    );

    assert_eq!(
        Between {}.execute(&Session::new(1), &sig, &[Datum::from(1), Datum::from(1), Datum::from(2)]),
        Datum::from(true)
    );

    assert_eq!(
        Between {}.execute(&Session::new(1), &sig, &[Datum::from(2), Datum::from(1), Datum::from(2)]),
        Datum::from(true)
    );

    assert_eq!(
        Between {}.execute(&Session::new(1), &sig, &[Datum::from(3), Datum::from(1), Datum::from(2)]),
        Datum::from(false)
    );
}

#[test]
fn ne_test_null() {
    assert_eq!(
        NE {}.execute(
            &Session::new(1),
            &dummy_sig("!=", DataType::Boolean),
            &[Datum::Null, Datum::from(1)]
        ),
        Datum::Null
    )
}

#[test]
fn test_ne() {
    let sig = dummy_sig("!=", DataType::Boolean);
    assert_eq!(
        NE {}.execute(&Session::new(1), &sig, &[Datum::from(1), Datum::from(1)]),
        Datum::from(false)
    );

    assert_eq!(
        NE {}.execute(&Session::new(1), &sig, &[Datum::from(1), Datum::from(2)]),
        Datum::from(true)
    );
}

#[test]
fn to_bool_test_null() {
    assert_eq!(
        ToBooleanFromBoolean {}.execute(
            &Session::new(1),
            &dummy_sig("to_bool", DataType::Boolean),
            &[Datum::Null]
        ),
        Datum::Null
    )
}

#[test]
fn to_bool_test_from_text() {
    assert_eq!(
        ToBooleanFromText {}.execute(
            &Session::new(1),
            &dummy_sig("to_bool", DataType::Boolean),
            &[Datum::from("True")]
        ),
        Datum::from(true)
    )
}

#[test]
fn to_int_test_null() {
    assert_eq!(
        ToIntFromBoolean {}.execute(
            &Session::new(1),
            &dummy_sig("to_int", DataType::Integer),
            &[Datum::Null]
        ),
        Datum::Null
    )
}

#[test]
fn test_from_bool() {
    assert_eq!(
        ToIntFromBoolean {}.execute(
            &Session::new(1),
            &dummy_sig("to_int", DataType::Integer),
            &[Datum::from(true)]
        ),
        Datum::from(1)
    )
}

#[test]
fn test_from_int() {
    assert_eq!(
        ToIntFromInt {}.execute(
            &Session::new(1),
            &dummy_sig("to_int", DataType::Integer),
            &[Datum::from(1)]
        ),
        Datum::from(1)
    )
}

#[test]
fn test_from_bigint() {
    assert_eq!(
        ToIntFromBigInt {}.execute(
            &Session::new(1),
            &dummy_sig("to_int", DataType::Integer),
            &[Datum::from(1_i64)]
        ),
        Datum::from(1)
    )
}

#[test]
fn test_from_decimal() {
    assert_eq!(
        ToIntFromDecimal {}.execute(
            &Session::new(1),
            &dummy_sig("to_int", DataType::Integer),
            &[Datum::from(Decimal::new(10, 1))]
        ),
        Datum::from(1)
    )
}

#[test]
fn to_int_test_from_text() {
    assert_eq!(
        ToIntFromText {}.execute(
            &Session::new(1),
            &dummy_sig("to_int", DataType::Integer),
            &[Datum::from("1")]
        ),
        Datum::from(1)
    )
}

#[test]
fn test_from_json() {
    let sig = dummy_sig("to_int", DataType::Integer);
    assert_eq!(
        ToIntFromJson {}.execute(
            &Session::new(1),
            &sig,
            &[Datum::from(OwnedJson::number(&Decimal::new(1, 0)))]
        ),
        Datum::from(1)
    );

    assert_eq!(
        ToIntFromJson {}.execute(
            &Session::new(1),
            &sig,
            &[Datum::from(OwnedJson::string(b"1").unwrap())]
        ),
        Datum::from(1)
    );

    assert_eq!(
        ToIntFromJson {}.execute(
            &Session::new(1),
            &sig,
            &[Datum::from(OwnedJson::number(&Decimal::new(123452, 1)))]
        ),
        Datum::from(12345)
    );
}

#[test]
fn add_test_null() {
    assert_eq!(
        AddInteger {}.execute(
            &Session::new(1),
            &dummy_sig("+", DataType::Integer),
            &[Datum::Null, Datum::Null]
        ),
        Datum::Null
    )
}

#[test]
fn add_test_add_int() {
    assert_eq!(
        AddInteger {}.execute(
            &Session::new(1),
            &dummy_sig("+", DataType::Integer),
            &[Datum::from(1), Datum::from(2)]
        ),
        Datum::from(3)
    )
}

#[test]
fn add_test_add_bigint() {
    assert_eq!(
        AddBigint {}.execute(
            &Session::new(1),
            &dummy_sig("+", DataType::Integer),
            &[Datum::from(1_i64), Datum::from(2_i64)]
        ),
        Datum::from(3_i64)
    )
}

#[test]
fn add_test_add_decimal() {
    let sum = AddDecimal {}.execute(
        &Session::new(1),
        &dummy_sig("+", DataType::Integer),
        &[Datum::from(Decimal::new(123, 1)), Datum::from(Decimal::new(1234, 2))],
    );
    assert_eq!(sum, Datum::from(Decimal::new(2464, 2)));
    assert_eq!(sum.as_decimal().scale(), 2);
    assert_eq!(sum.as_decimal().mantissa(), 2464);
}

#[test]
fn multiply_test_null() {
    assert_eq!(
        MultiplyInteger {}.execute(
            &Session::new(1),
            &dummy_sig("*", DataType::Integer),
            &[Datum::Null, Datum::Null]
        ),
        Datum::Null
    )
}

#[test]
fn multiply_test_add_int() {
    assert_eq!(
        MultiplyInteger {}.execute(
            &Session::new(1),
            &dummy_sig("*", DataType::Integer),
            &[Datum::from(3), Datum::from(2)]
        ),
        Datum::from(6)
    )
}

#[test]
fn multiply_test_add_bigint() {
    assert_eq!(
        MultiplyBigint {}.execute(
            &Session::new(1),
            &dummy_sig("*", DataType::Integer),
            &[Datum::from(3_i64), Datum::from(2_i64)]
        ),
        Datum::from(6_i64)
    )
}

#[test]
fn multiply_test_add_decimal() {
    let product = MultiplyDecimal {}.execute(
        &Session::new(1),
        &dummy_sig("*", DataType::Integer),
        &[Datum::from(Decimal::new(30, 1)), Datum::from(Decimal::new(200, 2))],
    );
    assert_eq!(product, Datum::from(Decimal::new(6000, 3)));
    assert_eq!(product.as_decimal().scale(), 3);
    assert_eq!(product.as_decimal().mantissa(), 6000);
}

#[test]
fn arithmetic_wraps_around() {
    let sig = dummy_sig("+", DataType::Integer);
    assert_eq!(
        AddInteger {}.execute(&Session::new(1), &sig, &[Datum::from(i32::MAX), Datum::from(1)]),
        Datum::from(i32::MIN)
    );
    assert_eq!(
        MultiplyBigint {}.execute(&Session::new(1), &sig, &[Datum::from(i64::MAX), Datum::from(2_i64)]),
        Datum::from(-2_i64)
    );
    let largest = Decimal::try_new(79228162514264337593543950335, 0).unwrap();
    assert_eq!(
        AddDecimal {}.execute(&Session::new(1), &sig, &[Datum::from(largest), Datum::from(largest)]),
        Datum::Null
    );
    assert_eq!(
        MultiplyDecimal {}.execute(&Session::new(1), &sig, &[Datum::from(largest), Datum::from(largest)]),
        Datum::Null
    );
}

#[test]
fn decimal_types_are_resolved() {
    assert_eq!(
        ReturnTypeResolver::DecimalSum.resolve(&[DataType::Decimal(10, 1), DataType::Decimal(5, 3)]),
        DataType::Decimal(13, 3)
    );
    assert_eq!(
        ReturnTypeResolver::DecimalSum.resolve(&[DataType::Decimal(28, 1), DataType::Decimal(28, 3)]),
        DataType::Decimal(28, 3)
    );
    assert_eq!(
        ReturnTypeResolver::DecimalProduct
            .resolve(&[DataType::Decimal(10, 1), DataType::Decimal(2, 0)]),
        DataType::Decimal(12, 1)
    );
    assert_eq!(
        ReturnTypeResolver::DecimalProduct
            .resolve(&[DataType::Decimal(20, 15), DataType::Decimal(20, 15)]),
        DataType::Decimal(28, 28)
    );
    assert_eq!(
        ReturnTypeResolver::DecimalSum.resolve(&[DataType::Decimal(7, 2), DataType::Null]),
        DataType::Decimal(7, 2)
    );
}

#[test]
fn calls_resolve_to_the_nearest_definition() {
    let registry = Registry::new(true);
    let (signature, function) =
        registry.resolve_function("+", &[DataType::Integer, DataType::Integer]).unwrap();
    assert_eq!(signature.ret, DataType::Integer);
    assert!(matches!(function, FunctionType::Scalar(ScalarFunction::AddInteger)));

    let (signature, function) =
        registry.resolve_function("+", &[DataType::Integer, DataType::BigInt]).unwrap();
    assert_eq!(signature.args, vec![DataType::BigInt, DataType::BigInt]);
    assert_eq!(signature.ret, DataType::BigInt);
    assert!(matches!(function, FunctionType::Scalar(ScalarFunction::AddBigint)));

    let (signature, function) =
        registry.resolve_function("+", &[DataType::Decimal(10, 2), DataType::Integer]).unwrap();
    assert_eq!(signature.args, vec![DataType::Decimal(10, 2), DataType::Decimal(11, 0)]);
    assert_eq!(signature.ret, DataType::Decimal(14, 2));
    assert!(matches!(function, FunctionType::Scalar(ScalarFunction::AddDecimal)));

    let (signature, _) =
        registry.resolve_function("and", &[DataType::Null, DataType::Boolean]).unwrap();
    assert_eq!(signature.args, vec![DataType::Boolean, DataType::Boolean]);

    assert!(registry.resolve_function("+", &[DataType::Text, DataType::Json]).is_none());
    assert!(registry.resolve_function("=", &[DataType::Text, DataType::Json]).is_none());
    assert!(registry.resolve_function("nothing", &[]).is_none());
    assert!(registry.resolve_function("+", &[DataType::Integer]).is_none());
    assert_eq!(Registry::new(false).len(), 0);
}

#[test]
fn casts_from_text() {
    let session = Session::new(1);
    let sig = dummy_sig("to_int", DataType::Integer);
    let cases: Vec<(&str, Datum)> = vec![
        ("-12", Datum::from(-12)),
        ("+7", Datum::from(7)),
        ("2147483647", Datum::from(i32::MAX)),
        ("-2147483648", Datum::from(i32::MIN)),
        ("2147483648", Datum::Null),
        ("", Datum::Null),
        ("-", Datum::Null),
        ("1x", Datum::Null),
        (" 1", Datum::Null),
    ];
    for (text, expected) in cases {
        assert_eq!(ToIntFromText {}.execute(&session, &sig, &[Datum::from(text)]), expected, "{}", text);
    }
    assert_eq!(
        ToBooleanFromText {}.execute(&session, &sig, &[Datum::from("FALSE")]),
        Datum::from(false)
    );
    assert_eq!(ToBooleanFromText {}.execute(&session, &sig, &[Datum::from("yes")]), Datum::Null);
    assert_eq!(
        ToIntFromBigInt {}.execute(&session, &sig, &[Datum::from(0x1_0000_0001_i64)]),
        Datum::from(1)
    );
    assert_eq!(
        ToIntFromDecimal {}.execute(&session, &sig, &[Datum::from(Decimal::new(-19, 1))]),
        Datum::from(-1)
    );
    let to_decimal = ScalarFunction::ToDecimalFromText;
    let target = dummy_sig("to_decimal", DataType::Decimal(10, 1));
    let cast = to_decimal.execute(&session, &target, &[Datum::from("2.34")]);
    assert_eq!(cast.as_decimal().scale(), 1);
    assert_eq!(cast.as_decimal().mantissa(), 23);
    assert_eq!(to_decimal.execute(&session, &target, &[Datum::from("two")]), Datum::Null);
}

#[test]
fn the_registry_holds_the_built_in_definitions_in_their_order() {
    let registry = Registry::new(true);
    assert_eq!(registry.len(), 101);
    let first = registry.definition(0);
    assert_eq!(first.signature.name, "count");
    assert!(first.signature.args.is_empty());
    assert_eq!(first.signature.ret, DataType::BigInt);
    let and = registry.definition(8);
    assert_eq!(and.signature.name, "and");
    assert_eq!(and.signature.args, vec![DataType::Boolean, DataType::Boolean]);
    assert_eq!(and.signature.ret, DataType::Boolean);
    let last = registry.definition(registry.len() - 1);
    assert_eq!(last.signature.name, "*");
    assert_eq!(last.signature.args, vec![DataType::Decimal(0, 0), DataType::Decimal(0, 0)]);
    assert!(last.custom_return_type_resolver.is_some());
    let mut names: Vec<&str> = Vec::new();
    for i in 0..registry.len() {
        let name = registry.definition(i).signature.name;
        if names.last() != Some(&name) {
            names.push(name);
        }
    }
    assert_eq!(
        names,
        vec![
            "count", "sum", "and", "or", "not", "=", "<", "<=", ">", ">=", "!=", "between",
            "istrue", "isfalse", "isnottrue", "isnotfalse", "isnull", "isnotnull", "to_bool",
            "to_int", "to_bigint", "to_decimal", "to_text", "+", "*"
        ]
    );
}
