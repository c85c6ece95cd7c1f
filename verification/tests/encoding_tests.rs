use incresql::data::{Comparison, Datum, Decimal, SortOrder};

fn encode(d: &Datum, order: SortOrder) -> Vec<u8> {
    let mut buf = vec![];
    d.as_sortable_bytes(order, &mut buf);
    buf
}

#[test]
fn test_datums() {
    // Already sorted into serialization order
    let datums = [
        Datum::Null,
        Datum::from(false),
        Datum::from(true),
        Datum::Integer(-10),
        Datum::Integer(0),
        Datum::Integer(1000),
        Datum::BigInt(-6876),
        Datum::BigInt(0),
        Datum::BigInt(890934467),
        Datum::from(Decimal::new(-32678, 2)),
        Datum::from(Decimal::zero()),
        Datum::from(Decimal::new(67832, 2)),
        Datum::from("abcd"),
        Datum::from("efg"),
    ];
    let mut asc_byte_arrays = vec![];
    let mut desc_byte_arrays = vec![];

    // Encode into separate buffers
    for d in &datums {
        let mut buf = vec![];
        d.as_sortable_bytes(SortOrder::Asc, &mut buf);
        asc_byte_arrays.push(buf);

        let mut buf = vec![];
        d.as_sortable_bytes(SortOrder::Desc, &mut buf);
        desc_byte_arrays.push(buf);
    }

    // Sort the buffers;
    asc_byte_arrays.sort();
    desc_byte_arrays.sort();
    desc_byte_arrays.reverse();

    assert_eq!(asc_byte_arrays.len(), datums.len());

    // Decode and make sure we're still in lex order
    for ((expected, asc_buf), desc_buf) in datums.iter().zip(asc_byte_arrays).zip(desc_byte_arrays)
    {
        let mut actual = Datum::Null;
        let rem = actual.from_sortable_bytes(&asc_buf);
        assert!(actual.sql_eq(expected, true));
        assert!(rem.is_empty());

        let rem = actual.from_sortable_bytes(&desc_buf);
        assert!(actual.sql_eq(expected, true));
        assert!(rem.is_empty());
    }
}

#[test]
fn encodings_are_sorted_as_the_datums_are() {
    let datums = [
        Datum::Null,
        Datum::from(false),
        Datum::from(true),
        Datum::Integer(-1),
        Datum::Integer(0),
        Datum::Integer(1),
        Datum::from("a"),
        Datum::from("b"),
    ];
    let asc: Vec<Vec<u8>> = datums.iter().map(|d| encode(d, SortOrder::Asc)).collect();
    let desc: Vec<Vec<u8>> = datums.iter().map(|d| encode(d, SortOrder::Desc)).collect();
    for i in 1..datums.len() {
        assert!(asc[i - 1] < asc[i]);
        assert!(desc[i - 1] > desc[i]);
    }
}

#[test]
fn decoding_gives_the_datum_back() {
    let long = vec![7u8; 100];
    let datums = vec![
        Datum::Null,
        Datum::Boolean(true),
        Datum::Boolean(false),
        Datum::Integer(i32::MIN),
        Datum::Integer(i32::MAX),
        Datum::BigInt(i64::MIN),
        Datum::BigInt(i64::MAX),
        Datum::Decimal(Decimal::new(0, 5)),
        Datum::Decimal(Decimal::new(-1, 28)),
        Datum::Decimal(Decimal::try_new(79228162514264337593543950335, 0).unwrap()),
        Datum::Decimal(Decimal::try_new(-79228162514264337593543950335, 28).unwrap()),
        Datum::from(""),
        Datum::from("with\0zero\0bytes"),
        Datum::ByteARef(&[0, 0, 255, 1, 0]),
        Datum::from(long),
    ];
    for d in &datums {
        for order in [SortOrder::Asc, SortOrder::Desc] {
            let mut bytes = encode(d, order);
            let end = bytes.len();
            bytes.extend_from_slice(&[1, 2, 3]);
            let (decoded, read) = Datum::read_sortable_bytes(&bytes, 0).unwrap();
            assert_eq!(read, end);
            assert!(decoded.sql_eq(d, true));
            if let (Datum::Decimal(a), Datum::Decimal(b)) = (&decoded, d) {
                assert_eq!(a.scale(), b.scale());
                assert_eq!(a.mantissa(), b.mantissa());
            }
        }
    }
}

#[test]
fn decimals_sort_by_value_across_scales() {
    let sorted = [
        Decimal::try_new(-79228162514264337593543950335, 0).unwrap(),
        Decimal::new(-1000, 0),
        Decimal::new(-9999, 1),
        Decimal::new(-15, 1),
        Decimal::new(-1, 0),
        Decimal::new(-1, 28),
        Decimal::new(0, 3),
        Decimal::new(1, 28),
        Decimal::new(99, 2),
        Decimal::new(1, 0),
        Decimal::new(10001, 4),
        Decimal::new(15, 1),
        Decimal::new(2, 0),
        Decimal::new(123456, 3),
        Decimal::try_new(79228162514264337593543950335, 0).unwrap(),
    ];
    for i in 0..sorted.len() {
        for j in 0..sorted.len() {
            let a = Datum::Decimal(sorted[i]);
            let b = Datum::Decimal(sorted[j]);
            let expected = if i < j {
                Comparison::Less
            } else if i == j {
                Comparison::Equal
            } else {
                Comparison::Greater
            };
            assert_eq!(a.compare(&b), expected, "{:?} {:?}", sorted[i], sorted[j]);
            assert_eq!(
                encode(&a, SortOrder::Asc).cmp(&encode(&b, SortOrder::Asc)),
                std::cmp::Ordering::from(i.cmp(&j))
            );
            assert_eq!(
                encode(&a, SortOrder::Desc).cmp(&encode(&b, SortOrder::Desc)),
                std::cmp::Ordering::from(j.cmp(&i))
            );
        }
    }
}

#[test]
fn equal_decimals_of_other_scales_are_told_apart_by_the_encoding() {
    let a = Datum::Decimal(Decimal::new(10, 1));
    let b = Datum::Decimal(Decimal::new(100, 2));
    assert_eq!(a.compare(&b), Comparison::Equal);
    assert_ne!(encode(&a, SortOrder::Asc), encode(&b, SortOrder::Asc));
}

#[test]
fn byte_strings_are_escaped() {
    assert_eq!(encode(&Datum::from("a"), SortOrder::Asc), vec![7, b'a', 0, 1]);
    assert_eq!(encode(&Datum::ByteARef(&[0]), SortOrder::Asc), vec![7, 0, 255, 0, 1]);
    assert_eq!(encode(&Datum::from("a"), SortOrder::Desc), vec![248, 255 - b'a', 255, 254]);
    assert_eq!(encode(&Datum::Integer(0), SortOrder::Asc), vec![4, 0x80, 0, 0, 0]);
    assert_eq!(encode(&Datum::Integer(-1), SortOrder::Asc), vec![4, 0x7f, 255, 255, 255]);
    assert_eq!(encode(&Datum::Integer(0), SortOrder::Desc), vec![251, 0x7f, 255, 255, 255]);
    assert_eq!(encode(&Datum::Null, SortOrder::Asc), vec![1]);
    assert_eq!(encode(&Datum::Null, SortOrder::Desc), vec![254]);
    assert_eq!(encode(&Datum::Boolean(true), SortOrder::Desc), vec![252]);
}

#[test]
fn bytes_that_encode_nothing_are_refused() {
    assert!(Datum::read_sortable_bytes(&[], 0).is_none());
    assert!(Datum::read_sortable_bytes(&[0], 0).is_none());
    assert!(Datum::read_sortable_bytes(&[255], 0).is_none());
    assert!(Datum::read_sortable_bytes(&[9], 0).is_none());
    assert!(Datum::read_sortable_bytes(&[4, 1, 2], 0).is_none());
    assert!(Datum::read_sortable_bytes(&[7, b'a', 0], 0).is_none());
    assert!(Datum::read_sortable_bytes(&[7, b'a', 0, 7], 0).is_none());
    assert!(Datum::read_sortable_bytes(&[6, 1, 29], 0).is_none());
    assert!(Datum::read_sortable_bytes(&[1], 1).is_none());
}

#[test]
fn promotion_keeps_the_value() {
    let short = Datum::ByteARef(b"short");
    let promoted = short.clone().into_static();
    assert!(matches!(promoted, Datum::ByteAInline(5, _)));
    assert!(promoted.sql_eq(&short, true));
    let long_bytes = [1u8; 23];
    let long = Datum::ByteARef(&long_bytes);
    let promoted = long.clone().into_static();
    assert!(matches!(promoted, Datum::ByteAOwned(_)));
    assert!(promoted.sql_eq(&long, true));
    let edge_bytes = [2u8; 22];
    assert!(matches!(Datum::ByteARef(&edge_bytes).into_static(), Datum::ByteAInline(22, _)));
    assert!(Datum::Null.into_static().sql_eq(&Datum::Null, true));
    assert!(Datum::Integer(5).into_static().sql_eq(&Datum::Integer(5), true));
}
