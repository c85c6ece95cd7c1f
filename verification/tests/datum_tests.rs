use incresql::data::json::OwnedJson;
use incresql::data::{Comparison, DataType, Datum, Decimal, SortOrder};
use std::mem::size_of;

#[test]
fn test_datum_size() {
    // The decimal and &str types need to be at least 2 words aka 16bytes wide,
    // When we include the discriminator (1 byte) that makes it 17 bytes, however due to
    // word sized alignment for the &str pointers we actually end up at 24 bytes in size,
    // this means we've got enough room for 23 byte of data for short strings etc.
    assert_eq!(24, size_of::<Datum>());
}

#[test]
fn test_datum_ref_clone() {
    assert_eq!(Datum::from(1).ref_clone(), Datum::Integer(1));

    if let Datum::ByteARef(b"hello") = Datum::ByteAOwned(Box::from(b"hello".as_ref())).ref_clone()
    {
    } else {
        panic!()
    }
}

#[test]
fn test_datum_as_static() {
    if let Datum::ByteAInline(11, b) = Datum::ByteARef(b"Hello world").as_static() {
        assert_eq!(b, *b"Hello world\0\0\0\0\0\0\0\0\0\0\0")
    } else {
        panic!()
    }

    if let Datum::ByteAOwned(b) = Datum::ByteARef(b"Hello world123456789123456789").as_static() {
        assert_eq!(b, Box::from(b"Hello world123456789123456789".as_ref()))
    } else {
        panic!()
    }
}

#[test]
fn test_datum_is_null() {
    assert_eq!(Datum::Null.is_null(), true);

    assert_eq!(Datum::from(1).is_null(), false);
}

#[test]
fn test_datum_sql_eq() {
    // Nulls
    assert_eq!(Datum::Null.sql_eq(&Datum::Null, false), false);
    assert_eq!(Datum::Null.sql_eq(&Datum::Null, true), true);
    // Mixed Nulls with bools
    assert_eq!(Datum::from(true).sql_eq(&Datum::Null, true), false);
    assert_eq!(Datum::Null.sql_eq(&Datum::from(true), true), false);
    assert_eq!(Datum::from(false).sql_eq(&Datum::from(false), false), true);
    // Strings
    assert_eq!(Datum::from("abc").sql_eq(&Datum::from("abc"), false), true);
    assert_eq!(Datum::from("abc").sql_eq(&Datum::from("efg"), false), false);
    assert_eq!(
        Datum::from("abc").sql_eq(&Datum::ByteAOwned(Box::from(b"abc".as_ref())), false),
        true
    );
    assert_eq!(
        Datum::ByteAOwned(Box::from(b"abc".as_ref())).sql_eq(&Datum::from("abc"), false),
        true
    );
}

#[test]
fn test_datum_from_boolean() {
    assert_eq!(Datum::from(true), Datum::Boolean(true));
    assert_eq!(Datum::from(false), Datum::Boolean(false));
}

#[test]
fn test_datum_from_integer() {
    assert_eq!(Datum::from(1234), Datum::Integer(1234));
}

#[test]
fn test_datum_from_bigint() {
    assert_eq!(Datum::from(1234_i64), Datum::BigInt(1234));
}

#[test]
fn test_datum_from_decimal() {
    assert_eq!(Datum::from(Decimal::new(12345, 2)), Datum::Decimal(Decimal::new(12345, 2)));
}

#[test]
fn test_datum_from_string() {
    assert_eq!(
        Datum::from(String::from("Hello world")),
        Datum::ByteAOwned(Box::from(b"Hello world".as_ref()))
    );

    assert_eq!(Datum::from("Hello world"), Datum::ByteARef(b"Hello world"));
}

#[test]
fn test_datum_from_vec() {
    assert_eq!(
        Datum::from(Vec::from(b"123".as_ref())),
        Datum::ByteAOwned(Box::from(b"123".as_ref()))
    );
}

#[test]
fn test_datum_as_str() {
    assert_eq!(
        Datum::ByteAOwned(Box::from(b"Hello world".as_ref())).as_maybe_text(),
        Some("Hello world".as_bytes())
    );

    let mut bytes = [0_u8; 22];
    bytes[..11].copy_from_slice("Hello world".as_bytes());

    assert_eq!(Datum::ByteAInline(11, bytes).as_maybe_text(), Some("Hello world".as_bytes()));

    let backing_slice = b"Hello world";
    assert_eq!(Datum::ByteARef(backing_slice).as_maybe_text(), Some("Hello world".as_bytes()));

    assert_eq!(Datum::Null.as_maybe_text(), None);
}

#[test]
fn test_datum_as_ints() {
    assert_eq!(Datum::Integer(123).as_maybe_integer(), Some(123_i32));

    assert_eq!(Datum::Null.as_maybe_integer(), None);

    assert_eq!(Datum::BigInt(123).as_maybe_bigint(), Some(123_i64));

    assert_eq!(Datum::Null.as_maybe_bigint(), None);
}

#[test]
fn test_datum_as_decimal() {
    assert_eq!(
        Datum::Decimal(Decimal::new(3232, 1)).as_maybe_decimal(),
        Some(Decimal::new(3232, 1))
    );

    assert_eq!(Datum::Null.as_maybe_decimal(), None);
}

#[test]
fn test_datum_as_boolean() {
    assert_eq!(Datum::Boolean(true).as_maybe_boolean(), Some(true));

    assert_eq!(Datum::Null.as_maybe_decimal(), None);
}

#[test]
fn test_datum_display() {
    assert_eq!(Datum::Null.typed_with(DataType::Text).to_string(), "NULL");

    assert_eq!(Datum::Boolean(true).typed_with(DataType::Boolean).to_string(), "TRUE");

    assert_eq!(Datum::Integer(123).typed_with(DataType::Integer).to_string(), "123");
    assert_eq!(Datum::BigInt(123).typed_with(DataType::BigInt).to_string(), "123");

    assert_eq!(
        Datum::Decimal(Decimal::parse(b"12.34").unwrap())
            .typed_with(DataType::Decimal(10, 2))
            .to_string(),
        "12.34"
    );

    assert_eq!(
        Datum::Decimal(Decimal::parse(b"12.34").unwrap())
            .typed_with(DataType::Decimal(10, 4))
            .to_string(),
        "12.3400"
    );

    assert_eq!(Datum::from("hello".to_string()).typed_with(DataType::Text).to_string(), "hello");
    assert_eq!(
        Datum::from("he\"llo".to_string()).typed_with(DataType::Text).to_sql_string(),
        "\"he\\\"llo\""
    );

    assert_eq!(
        Datum::from("hello".to_string()).typed_with(DataType::ByteA).to_string(),
        "68656c6c6f"
    );

    assert_eq!(
        Datum::from_ymd(2000, 2, 10).unwrap().typed_with(DataType::Date).to_string(),
        "2000-02-10"
    );
}

#[test]
fn test_datum_display_json() {
    let json = OwnedJson::object(
        &vec![b"one".to_vec(), b"two".to_vec()],
        &vec![OwnedJson::number(&Decimal::new(1, 0)), OwnedJson::number(&Decimal::new(2, 0))],
    )
    .unwrap();

    assert_eq!(
        Datum::from(json).typed_with(DataType::Json).to_string(),
        r#"{"one":1,"two":2}"#
    );
}

#[test]
fn datum_total_order_sorts_by_kind_first() {
    let datums = [
        Datum::Null,
        Datum::from(false),
        Datum::from(true),
        Datum::Integer(-1),
        Datum::Integer(0),
        Datum::Integer(1),
        Datum::BigInt(-5),
        Datum::Decimal(Decimal::new(15, 1)),
        Datum::from("a"),
        Datum::from("b"),
    ];
    for i in 0..datums.len() {
        for j in 0..datums.len() {
            let expected = if i < j {
                Comparison::Less
            } else if i == j {
                Comparison::Equal
            } else {
                Comparison::Greater
            };
            assert_eq!(datums[i].compare(&datums[j]), expected);
        }
    }
    assert_eq!(
        Datum::Decimal(Decimal::new(10, 1)).compare(&Datum::Decimal(Decimal::new(100, 2))),
        Comparison::Equal
    );
    assert!(SortOrder::Desc.is_desc());
}

#[test]
fn a_decimal_is_padded_to_the_places_of_its_type() {
    let whole = Datum::Decimal(Decimal::new(12345, 0));
    assert_eq!(
        whole.typed_with(DataType::Decimal(38, 28)).to_string(),
        "12345.0000000000000000000000000000"
    );
    assert_eq!(whole.typed_with(DataType::Decimal(38, 0)).to_string(), "12345");
    assert_eq!(Decimal::new(12345, 0).format(2), b"12345.00".to_vec());
    assert_eq!(Decimal::new(12345, 3).format(5), b"12.34500".to_vec());
    assert_eq!(Decimal::new(12345, 3).format(3), b"12.345".to_vec());
    assert_eq!(Decimal::new(-5, 1).format(4), b"-0.5000".to_vec());
}

#[test]
fn control_characters_are_escaped_in_quoted_text() {
    assert_eq!(
        Datum::from("a\nb\t\"c\"\\".to_string()).typed_with(DataType::Text).to_sql_string(),
        "\"a\\nb\\t\\\"c\\\"\\\\\""
    );
    assert_eq!(
        Datum::from("a\nb".to_string()).typed_with(DataType::Text).to_string(),
        "a\nb"
    );
    let json = OwnedJson::string(b"x\ny\"z").unwrap();
    assert_eq!(Datum::from(json).typed_with(DataType::Json).to_string(), "\"x\\ny\\\"z\"");
}

#[test]
fn short_byte_strings_are_held_inline_with_zeros_behind() {
    let text = "abc".to_string();
    let borrowed = Datum::from_text(&text);
    assert!(matches!(borrowed, Datum::ByteARef(_)));
    let mut buffer = [0_u8; 22];
    buffer[0] = b'a';
    buffer[1] = b'b';
    buffer[2] = b'c';
    assert!(matches!(borrowed.as_static(), Datum::ByteAInline(3, b) if b == buffer));
    assert!(matches!(borrowed.into_static(), Datum::ByteAInline(3, b) if b == buffer));
    let long = "abcdefghijklmnopqrstuvw".to_string();
    assert!(matches!(Datum::from_text(&long).as_static(), Datum::ByteAOwned(_)));
    let exact = "abcdefghijklmnopqrstuv".to_string();
    assert!(matches!(Datum::from_text(&exact).as_static(), Datum::ByteAInline(22, _)));
    assert!(matches!(Datum::from_string("x".to_string()), Datum::ByteAOwned(_)));
    assert_eq!(Datum::from_bytes(vec![1, 2]), Datum::from(vec![1_u8, 2]));
    assert_eq!(
        Datum::from_json(OwnedJson::number(&Decimal::new(1, 0))),
        Datum::from(OwnedJson::number(&Decimal::new(1, 0)))
    );
}

#[test]
fn decimals_of_one_value_have_one_normal_form() {
    assert_eq!(Decimal::new(1500, 3).normal_form(), (15, 1));
    assert_eq!(Decimal::new(15, 1).normal_form(), (15, 1));
    assert_eq!(Decimal::new(-100, 2).normal_form(), (-1, 0));
    assert_eq!(Decimal::new(0, 5).normal_form(), (0, 0));
    assert_eq!(Decimal::new(120, 0).normal_form(), (120, 0));
}
