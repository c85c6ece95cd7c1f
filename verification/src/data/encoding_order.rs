//! The sortable encoding keeps the order of values: the encodings of two
//! values compare as the values do, in ascending encodings, and the other
//! way round in descending ones.

use vstd::prelude::*;
use crate::data::{Comparison, SortOrder, Value};
use crate::data::bytes_order::{
    lemma_compare_common_prefix,
    lemma_compare_equal,
    same_or_apart,
};
use crate::data::datum::{
    bytes_compare,
    lemma_mismatch_at,
    lemma_mismatch_is_first,
    mismatch,
    value_compare,
    value_rank,
};
use crate::data::decimal::{
    compare_scaled,
    lemma_pow10_29,
    lemma_pow10_adds,
    lemma_pow10_increases,
    lemma_pow10_positive,
    pow10,
    MAX_MAGNITUDE,
};
use crate::data::encoding_core::{
    be_bytes,
    digit_count,
    encode_bytes,
    encode_decimal,
    escape,
    inverted,
    lemma_be_bytes_len,
    lemma_digit_count_bound,
    lemma_digit_count_range,
    lemma_pow256_values,
    pow256,
    sortable_i32,
    sortable_i64,
};
use crate::data::encoding_datum::{encode, encode_value};
use crate::data::encoding_round_trip::{lemma_escape_concat, value_wf};

verus! {

/// A comparison as a sort order has it: the other way round in descending order.
pub open spec fn in_order(c: Comparison, order: SortOrder) -> Comparison {
    match order {
        SortOrder::Asc => c,
        SortOrder::Desc => c.spec_reverse(),
    }
}

/// Byte strings that begin with different bytes compare as those bytes do.
pub proof fn lemma_compare_first_byte(x: Seq<u8>, y: Seq<u8>)
    requires
        x.len() > 0,
        y.len() > 0,
        x[0] != y[0],
    ensures
        bytes_compare(x, y) == Comparison::of_int(x[0] - y[0]),
        mismatch(x, y, 0) == 0,
        same_or_apart(x, y),
{
}

/// Inverting every byte turns the order round, for byte strings of which
/// neither is the beginning of the other.
pub proof fn lemma_compare_inverted(x: Seq<u8>, y: Seq<u8>)
    requires
        same_or_apart(x, y),
    ensures
        bytes_compare(inverted(x), inverted(y)) == bytes_compare(x, y).spec_reverse(),
        same_or_apart(inverted(x), inverted(y)),
{
    lemma_mismatch_is_first(x, y, 0);
    let k = mismatch(x, y, 0);
    if x == y {
        lemma_compare_equal(x, y);
        lemma_compare_equal(inverted(x), inverted(y));
    } else {
        lemma_mismatch_at(inverted(x), inverted(y), 0, k);
    }
}

/// Byte strings of one length compare by their last bytes where they
/// agree before them.
pub proof fn lemma_compare_push(a: Seq<u8>, b: Seq<u8>, c: u8, d: u8)
    requires
        a.len() == b.len(),
    ensures
        bytes_compare(a.push(c), b.push(d)) == (if bytes_compare(a, b) != Comparison::Equal {
            bytes_compare(a, b)
        } else {
            Comparison::of_int(c - d)
        }),
{
    lemma_mismatch_is_first(a, b, 0);
    let k = mismatch(a, b, 0);
    if k < a.len() {
        lemma_mismatch_at(a.push(c), b.push(d), 0, k);
    } else {
        lemma_compare_equal(a, b);
        if c == d {
            assert(a.push(c) =~= b.push(d));
            lemma_compare_equal(a.push(c), b.push(d));
        } else {
            lemma_mismatch_at(a.push(c), b.push(d), 0, k);
        }
    }
}

/// Byte strings of one length that differ compare the same whatever
/// follows them.
pub proof fn lemma_compare_extended(a: Seq<u8>, b: Seq<u8>, x: Seq<u8>, y: Seq<u8>)
    requires
        a.len() == b.len(),
        a != b,
    ensures
        bytes_compare(a + x, b + y) == bytes_compare(a, b),
        same_or_apart(a + x, b + y),
        bytes_compare(a, b) != Comparison::Equal,
{
    lemma_mismatch_is_first(a, b, 0);
    lemma_compare_equal(a, b);
    let k = mismatch(a, b, 0);
    assert(k < a.len()) by {
        if k >= a.len() {
            assert(a =~= b);
        }
    }
    lemma_mismatch_at(a + x, b + y, 0, k);
}

/// The big-endian bytes of numbers compare as the numbers do.
pub proof fn lemma_be_order(x: nat, y: nat, width: nat)
    requires
        x < pow256(width),
        y < pow256(width),
    ensures
        bytes_compare(be_bytes(x, width), be_bytes(y, width)) == Comparison::of_int(x - y),
        x != y ==> be_bytes(x, width) != be_bytes(y, width),
    decreases width,
{
    if width == 0 {
        lemma_compare_equal(be_bytes(x, width), be_bytes(y, width));
    } else {
        lemma_be_order(x / 256, y / 256, (width - 1) as nat);
        lemma_be_bytes_len(x / 256, (width - 1) as nat);
        lemma_be_bytes_len(y / 256, (width - 1) as nat);
        lemma_compare_push(
            be_bytes(x / 256, (width - 1) as nat),
            be_bytes(y / 256, (width - 1) as nat),
            (x % 256) as u8,
            (y % 256) as u8,
        );
        if x != y {
            let a = be_bytes(x, width);
            let b = be_bytes(y, width);
            if a == b {
                assert(a.drop_last() =~= be_bytes(x / 256, (width - 1) as nat));
                assert(b.drop_last() =~= be_bytes(y / 256, (width - 1) as nat));
                assert(a.last() == (x % 256) as u8);
                assert(b.last() == (y % 256) as u8);
            }
        }
    }
}

/// The escaped form of a byte string begins with the escaped form of its
/// beginning.
pub proof fn lemma_escape_split(s: Seq<u8>, k: int)
    requires
        0 <= k <= s.len(),
    ensures
        escape(s) == escape(s.subrange(0, k)) + escape(s.subrange(k, s.len() as int)),
{
    lemma_escape_concat(s.subrange(0, k), s.subrange(k, s.len() as int));
    assert(s.subrange(0, k) + s.subrange(k, s.len() as int) =~= s);
}

/// The encodings of byte strings compare as the strings do, and neither
/// is the beginning of the other.
pub proof fn lemma_bytes_order(x: Seq<u8>, y: Seq<u8>)
    ensures
        bytes_compare(encode_bytes(x), encode_bytes(y)) == bytes_compare(x, y),
        same_or_apart(encode_bytes(x), encode_bytes(y)),
{
    lemma_mismatch_is_first(x, y, 0);
    let k = mismatch(x, y, 0);
    let common = escape(x.subrange(0, k));
    assert(x.subrange(0, k) =~= y.subrange(0, k));
    lemma_escape_split(x, k);
    lemma_escape_split(y, k);
    let xr = x.subrange(k, x.len() as int);
    let yr = y.subrange(k, y.len() as int);
    let tx = escape(xr) + seq![0u8, 1u8];
    let ty = escape(yr) + seq![0u8, 1u8];
    assert(encode_bytes(x) =~= common + tx);
    assert(encode_bytes(y) =~= common + ty);
    lemma_compare_common_prefix(common, tx, ty);
    if k == x.len() && k == y.len() {
        assert(x =~= y);
        lemma_compare_equal(encode_bytes(x), encode_bytes(y));
        lemma_compare_equal(x, y);
    } else if k == x.len() {
        assert(xr =~= Seq::<u8>::empty());
        assert(tx =~= seq![0u8, 1u8]);
        crate::data::encoding_round_trip::lemma_escape_first(yr);
        if yr[0] == 0 {
            assert(ty[0] == 0 && ty[1] == 255);
            lemma_mismatch_at(tx, ty, 0, 1);
        } else {
            assert(ty[0] == yr[0]);
            lemma_compare_first_byte(tx, ty);
        }
    } else if k == y.len() {
        assert(yr =~= Seq::<u8>::empty());
        assert(ty =~= seq![0u8, 1u8]);
        crate::data::encoding_round_trip::lemma_escape_first(xr);
        if xr[0] == 0 {
            assert(tx[0] == 0 && tx[1] == 255);
            lemma_mismatch_at(tx, ty, 0, 1);
        } else {
            assert(tx[0] == xr[0]);
            lemma_compare_first_byte(tx, ty);
        }
    } else {
        crate::data::encoding_round_trip::lemma_escape_first(xr);
        crate::data::encoding_round_trip::lemma_escape_first(yr);
        assert(xr[0] == x[k]);
        assert(yr[0] == y[k]);
        assert(tx[0] == (if x[k] == 0 {
            0u8
        } else {
            x[k]
        }));
        assert(ty[0] == (if y[k] == 0 {
            0u8
        } else {
            y[k]
        }));
        lemma_compare_first_byte(tx, ty);
    }
}

/// Byte strings of one length are the same or differ inside.
pub proof fn lemma_equal_length_apart(a: Seq<u8>, b: Seq<u8>)
    requires
        a.len() == b.len(),
    ensures
        same_or_apart(a, b),
{
    lemma_mismatch_is_first(a, b, 0);
    if mismatch(a, b, 0) >= a.len() {
        assert(a =~= b);
    }
}

/// Byte strings that share a beginning are the same or apart as their
/// rests are.
pub proof fn lemma_apart_common_prefix(p: Seq<u8>, a: Seq<u8>, b: Seq<u8>)
    requires
        same_or_apart(a, b),
    ensures
        same_or_apart(p + a, p + b),
        bytes_compare(p + a, p + b) == bytes_compare(a, b),
{
    lemma_compare_common_prefix(p, a, b);
}

/// The place of the leading digit of a decimal of magnitude `g` and scale
/// `s`, as its encoding holds it.
pub open spec fn leading_place(g: nat, s: nat) -> int {
    digit_count(g) - s + 64
}

/// The magnitude of a decimal brought to 29 digits.
pub open spec fn normalized(g: nat) -> nat {
    g * pow10((29 - digit_count(g)) as nat)
}

/// The bytes of a decimal that is not zero after its class byte.
pub open spec fn decimal_body(g: nat, s: nat) -> Seq<u8> {
    seq![leading_place(g, s) as u8] + be_bytes(normalized(g), 13) + seq![s as u8]
}

/// A magnitude brought to 29 digits fits in thirteen bytes.
pub proof fn lemma_normalized_bound(g: nat)
    requires
        1 <= g <= MAX_MAGNITUDE,
    ensures
        1 <= digit_count(g) <= 29,
        normalized(g) < pow10(29),
        normalized(g) < pow256(13),
{
    lemma_pow10_29();
    lemma_digit_count_bound(g, 29);
    lemma_digit_count_range(g);
    let digits = digit_count(g);
    let unit = pow10((29 - digits) as nat);
    lemma_pow10_positive((29 - digits) as nat);
    lemma_pow10_adds(digits, (29 - digits) as nat);
    assert(g * unit < pow10(29)) by (nonlinear_arith)
        requires
            g < pow10(digits),
            pow10(digits) * unit == pow10(29),
            unit > 0,
    ;
    lemma_pow256_values();
}

/// Positive decimals compare first by the place of their leading digit
/// and then by their digits.
pub proof fn lemma_positive_order(g1: nat, s1: nat, g2: nat, s2: nat)
    requires
        1 <= g1 <= MAX_MAGNITUDE,
        1 <= g2 <= MAX_MAGNITUDE,
        s1 <= 28,
        s2 <= 28,
    ensures
        leading_place(g1, s1) < leading_place(g2, s2) ==> compare_scaled(
            g1 as int,
            s1,
            g2 as int,
            s2,
        ) == Comparison::Less,
        leading_place(g1, s1) > leading_place(g2, s2) ==> compare_scaled(
            g1 as int,
            s1,
            g2 as int,
            s2,
        ) == Comparison::Greater,
        leading_place(g1, s1) == leading_place(g2, s2) ==> compare_scaled(
            g1 as int,
            s1,
            g2 as int,
            s2,
        ) == Comparison::of_int(normalized(g1) - normalized(g2)),
{
    lemma_normalized_bound(g1);
    lemma_normalized_bound(g2);
    lemma_digit_count_range(g1);
    lemma_digit_count_range(g2);
    let d1 = digit_count(g1);
    let d2 = digit_count(g2);
    let p = pow10(s2) as int;
    let q = pow10(s1) as int;
    lemma_pow10_positive(s1);
    lemma_pow10_positive(s2);
    if d1 - s1 < d2 - s2 {
        lemma_less_by_place(g1, s1, d1, g2, s2, d2);
    } else if d1 - s1 > d2 - s2 {
        lemma_less_by_place(g2, s2, d2, g1, s1, d1);
        assert(g1 as int * p - g2 as int * q > 0);
    } else {
        let u1 = pow10((29 - d1) as nat) as int;
        let u2 = pow10((29 - d2) as nat) as int;
        let t = pow10((29 - d1 + s1) as nat) as int;
        lemma_pow10_adds((29 - d1) as nat, s1);
        lemma_pow10_adds((29 - d2) as nat, s2);
        lemma_pow10_positive((29 - d1 + s1) as nat);
        assert(u1 * q == t);
        assert(u2 * p == t);
        let x = g1 as int * u1 - g2 as int * u2;
        let y = g1 as int * p - g2 as int * q;
        lemma_cross(g1 as int, g2 as int, u1, u2, p, q, t);
        assert((x < 0 <==> y < 0) && (x == 0 <==> y == 0)) by (nonlinear_arith)
            requires
                x * (q * p) == t * y,
                q > 0,
                p > 0,
                t > 0,
        ;
    }
}

/// Cross-multiplying two fractions over a common denominator.
proof fn lemma_cross(g1: int, g2: int, u1: int, u2: int, p: int, q: int, t: int)
    requires
        u1 * q == t,
        u2 * p == t,
    ensures
        (g1 * u1 - g2 * u2) * (q * p) == t * (g1 * p - g2 * q),
{
    assert(g1 * u1 * (q * p) == g1 * (u1 * q) * p) by (nonlinear_arith);
    assert(g2 * u2 * (q * p) == g2 * (u2 * p) * q) by (nonlinear_arith);
    assert((g1 * u1 - g2 * u2) * (q * p) == g1 * u1 * (q * p) - g2 * u2 * (q * p))
        by (nonlinear_arith);
    assert(g1 * (u1 * q) * p == g1 * t * p);
    assert(g2 * (u2 * p) * q == g2 * t * q);
    assert(t * (g1 * p - g2 * q) == g1 * t * p - g2 * t * q) by (nonlinear_arith);
}

/// A decimal whose leading digit stands at a lower place is the smaller.
proof fn lemma_less_by_place(g1: nat, s1: nat, d1: nat, g2: nat, s2: nat, d2: nat)
    requires
        d1 >= 1,
        d2 >= 1,
        g1 < pow10(d1),
        pow10((d2 - 1) as nat) <= g2,
        d1 - s1 < d2 - s2,
    ensures
        g1 as int * pow10(s2) - g2 as int * pow10(s1) < 0,
{
    let p = pow10(s2) as int;
    let q = pow10(s1) as int;
    lemma_pow10_positive(s1);
    lemma_pow10_positive(s2);
    lemma_pow10_adds(d1, s2);
    lemma_pow10_adds((d2 - 1) as nat, s1);
    lemma_pow10_increases(d1 + s2, (d2 - 1 + s1) as nat);
    let a = pow10(d1) as int;
    let b = pow10((d2 - 1) as nat) as int;
    assert(g1 as int * p < a * p) by (nonlinear_arith)
        requires
            g1 < a,
            p > 0,
    ;
    assert(b * q <= g2 as int * q) by (nonlinear_arith)
        requires
            b <= g2,
            q > 0,
    ;
}

/// The bodies of the encodings of two positive decimals compare as the
/// decimals do.
pub proof fn lemma_body_order(g1: nat, s1: nat, g2: nat, s2: nat)
    requires
        1 <= g1 <= MAX_MAGNITUDE,
        1 <= g2 <= MAX_MAGNITUDE,
        s1 <= 28,
        s2 <= 28,
        compare_scaled(g1 as int, s1, g2 as int, s2) == Comparison::Equal ==> s1 == s2,
    ensures
        bytes_compare(decimal_body(g1, s1), decimal_body(g2, s2)) == compare_scaled(
            g1 as int,
            s1,
            g2 as int,
            s2,
        ),
        decimal_body(g1, s1).len() == 15,
        decimal_body(g2, s2).len() == 15,
{
    lemma_normalized_bound(g1);
    lemma_normalized_bound(g2);
    lemma_positive_order(g1, s1, g2, s2);
    let e1 = leading_place(g1, s1);
    let e2 = leading_place(g2, s2);
    let n1 = normalized(g1);
    let n2 = normalized(g2);
    lemma_be_bytes_len(n1, 13);
    lemma_be_bytes_len(n2, 13);
    let b1 = decimal_body(g1, s1);
    let b2 = decimal_body(g2, s2);
    if e1 != e2 {
        assert(b1[0] == e1 as u8);
        assert(b2[0] == e2 as u8);
        lemma_compare_first_byte(b1, b2);
    } else {
        lemma_be_order(n1, n2, 13);
        if n1 != n2 {
            let head = seq![e1 as u8];
            lemma_compare_common_prefix(head, be_bytes(n1, 13), be_bytes(n2, 13));
            let a = head + be_bytes(n1, 13);
            let b = head + be_bytes(n2, 13);
            assert(a != b) by {
                if a == b {
                    assert(a.subrange(1, 14) =~= be_bytes(n1, 13));
                    assert(b.subrange(1, 14) =~= be_bytes(n2, 13));
                }
            }
            lemma_compare_extended(a, b, seq![s1 as u8], seq![s2 as u8]);
        } else {
            assert(b1 =~= b2);
            lemma_compare_equal(b1, b2);
        }
    }
}

/// Whether two values are decimals of one value and different scales,
/// such as 1.0 and 1.00.
pub open spec fn equal_but_for_scale(a: Value, b: Value) -> bool {
    match (a, b) {
        (Value::Decimal(m1, s1), Value::Decimal(m2, s2)) => compare_scaled(m1, s1, m2, s2)
            == Comparison::Equal && s1 != s2,
        _ => false,
    }
}

/// The encodings of two decimals compare as the decimals do, and neither
/// is the beginning of the other.
pub proof fn lemma_decimal_order(m1: int, s1: nat, m2: int, s2: nat)
    requires
        -(MAX_MAGNITUDE as int) <= m1 <= MAX_MAGNITUDE as int,
        -(MAX_MAGNITUDE as int) <= m2 <= MAX_MAGNITUDE as int,
        s1 <= 28,
        s2 <= 28,
        compare_scaled(m1, s1, m2, s2) == Comparison::Equal ==> s1 == s2,
    ensures
        bytes_compare(encode_decimal(m1, s1), encode_decimal(m2, s2)) == compare_scaled(
            m1,
            s1,
            m2,
            s2,
        ),
        same_or_apart(encode_decimal(m1, s1), encode_decimal(m2, s2)),
{
    let x = encode_decimal(m1, s1);
    let y = encode_decimal(m2, s2);
    let p = pow10(s2) as int;
    let q = pow10(s1) as int;
    lemma_pow10_positive(s1);
    lemma_pow10_positive(s2);
    let c1: int = if m1 < 0 {
        0
    } else if m1 == 0 {
        1
    } else {
        2
    };
    let c2: int = if m2 < 0 {
        0
    } else if m2 == 0 {
        1
    } else {
        2
    };
    assert(x[0] == c1);
    assert(y[0] == c2);
    if c1 != c2 {
        lemma_compare_first_byte(x, y);
        assert(c1 < c2 ==> m1 * p - m2 * q < 0) by (nonlinear_arith)
            requires
                p > 0,
                q > 0,
                c1 < c2 ==> (m1 < 0 && m2 >= 0) || (m1 == 0 && m2 > 0),
        ;
        assert(c1 > c2 ==> m1 * p - m2 * q > 0) by (nonlinear_arith)
            requires
                p > 0,
                q > 0,
                c1 > c2 ==> (m2 < 0 && m1 >= 0) || (m2 == 0 && m1 > 0),
        ;
    } else if m1 == 0 {
        assert(m1 * p - m2 * q == 0);
        assert(x =~= y);
        lemma_compare_equal(x, y);
    } else if m1 > 0 {
        lemma_body_order(m1 as nat, s1, m2 as nat, s2);
        let b1 = decimal_body(m1 as nat, s1);
        let b2 = decimal_body(m2 as nat, s2);
        lemma_equal_length_apart(b1, b2);
        lemma_apart_common_prefix(seq![2u8], b1, b2);
        assert(x =~= seq![2u8] + b1);
        assert(y =~= seq![2u8] + b2);
    } else {
        let g1 = (-m1) as nat;
        let g2 = (-m2) as nat;
        assert(m1 * p - m2 * q == -((g1 as int) * p - (g2 as int) * q)) by (nonlinear_arith)
            requires
                g1 == -m1,
                g2 == -m2,
        ;
        lemma_body_order(g1, s1, g2, s2);
        let b1 = decimal_body(g1, s1);
        let b2 = decimal_body(g2, s2);
        lemma_equal_length_apart(b1, b2);
        lemma_compare_inverted(b1, b2);
        lemma_apart_common_prefix(seq![0u8], inverted(b1), inverted(b2));
        assert(x =~= seq![0u8] + inverted(b1));
        assert(y =~= seq![0u8] + inverted(b2));
    }
}

/// The ascending encodings of two values compare as the values do, and
/// neither is the beginning of the other.
pub proof fn lemma_value_order(a: Value, b: Value)
    requires
        value_wf(a),
        value_wf(b),
        !equal_but_for_scale(a, b),
    ensures
        bytes_compare(encode_value(a), encode_value(b)) == value_compare(a, b),
        same_or_apart(encode_value(a), encode_value(b)),
{
    let x = encode_value(a);
    let y = encode_value(b);
    assert(x[0] == value_rank(a));
    assert(y[0] == value_rank(b));
    if value_rank(a) != value_rank(b) {
        lemma_compare_first_byte(x, y);
    } else {
        let tag = seq![value_rank(a)];
        lemma_pow256_values();
        match (a, b) {
            (Value::Integer(i), Value::Integer(j)) => {
                lemma_be_order(sortable_i32(i), sortable_i32(j), 4);
                lemma_be_bytes_len(sortable_i32(i), 4);
                lemma_be_bytes_len(sortable_i32(j), 4);
                lemma_equal_length_apart(
                    be_bytes(sortable_i32(i), 4),
                    be_bytes(sortable_i32(j), 4),
                );
                lemma_apart_common_prefix(
                    tag,
                    be_bytes(sortable_i32(i), 4),
                    be_bytes(sortable_i32(j), 4),
                );
            },
            (Value::BigInt(i), Value::BigInt(j)) => {
                lemma_be_order(sortable_i64(i), sortable_i64(j), 8);
                lemma_be_bytes_len(sortable_i64(i), 8);
                lemma_be_bytes_len(sortable_i64(j), 8);
                lemma_equal_length_apart(
                    be_bytes(sortable_i64(i), 8),
                    be_bytes(sortable_i64(j), 8),
                );
                lemma_apart_common_prefix(
                    tag,
                    be_bytes(sortable_i64(i), 8),
                    be_bytes(sortable_i64(j), 8),
                );
            },
            (Value::Decimal(m1, s1), Value::Decimal(m2, s2)) => {
                lemma_decimal_order(m1, s1, m2, s2);
                lemma_apart_common_prefix(tag, encode_decimal(m1, s1), encode_decimal(m2, s2));
            },
            (Value::Bytes(s), Value::Bytes(t)) => {
                lemma_bytes_order(s, t);
                lemma_apart_common_prefix(tag, encode_bytes(s), encode_bytes(t));
            },
            (Value::Jsonpath(s), Value::Jsonpath(t)) => {
                lemma_bytes_order(s, t);
                lemma_apart_common_prefix(tag, encode_bytes(s), encode_bytes(t));
            },
            _ => {
                assert(x =~= y);
                lemma_compare_equal(x, y);
            },
        }
    }
}

/// For every pair of values and every sort order the encodings compare
/// as the values do in that order: the encoding of the first is below,
/// equal to or above that of the second exactly when the first value is.
/// Two decimals of one value and different scales, such as 1.0 and 1.00,
/// are left out: they are equal, and their encodings are not.
pub proof fn lemma_encoding_order(a: Value, b: Value, order: SortOrder)
    requires
        value_wf(a),
        value_wf(b),
        !equal_but_for_scale(a, b),
    ensures
        bytes_compare(encode(a, order), encode(b, order)) == in_order(value_compare(a, b), order),
        bytes_compare(encode(a, order), encode(b, order)) != Comparison::Greater <==> in_order(
            value_compare(a, b),
            order,
        ) != Comparison::Greater,
        same_or_apart(encode(a, order), encode(b, order)),
{
    lemma_value_order(a, b);
    match order {
        SortOrder::Asc => {},
        SortOrder::Desc => {
            lemma_compare_inverted(encode_value(a), encode_value(b));
        },
    }
}

} // verus!
