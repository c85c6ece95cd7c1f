//! What is encoded can be decoded: reading the sortable encoding of a
//! value gives the value back, whatever bytes stand before and after it.

use vstd::prelude::*;
use crate::data::{SortOrder, Value};
use crate::data::datum::value_rank;
use crate::data::decimal::{
    lemma_pow10_29,
    lemma_pow10_adds,
    lemma_pow10_positive,
    pow10,
    MAX_MAGNITUDE,
};
use crate::data::encoding_core::{
    ascending,
    be_bytes,
    decode_decimal,
    digit_count,
    encode_bytes,
    encode_decimal,
    escape,
    escape_byte,
    invert,
    inverted,
    lemma_be_bytes_len,
    lemma_be_round_trip,
    lemma_digit_count_bound,
    lemma_digit_count_range,
    lemma_pow256_values,
    sortable_i32,
    sortable_i64,
    unescape_from,
};
use crate::data::encoding_datum::{decode_at, decode_value, encode, encode_value, is_descending};

verus! {

/// Whether a value is one that a datum can hold: a decimal has a
/// magnitude below 2^96 and a scale of at most 28.
pub open spec fn value_wf(v: Value) -> bool {
    v matches Value::Decimal(m, s) ==> -(MAX_MAGNITUDE as int) <= m <= MAX_MAGNITUDE as int && s
        <= 28
}

/// Inverting twice gives the bytes back.
pub proof fn lemma_inverted_twice(s: Seq<u8>)
    ensures
        inverted(inverted(s)) == s,
{
    assert(inverted(inverted(s)) =~= s);
}

/// Inverting goes through concatenation.
pub proof fn lemma_inverted_concat(a: Seq<u8>, b: Seq<u8>)
    ensures
        inverted(a + b) == inverted(a) + inverted(b),
{
    assert(inverted(a + b) =~= inverted(a) + inverted(b));
}

/// The escaped form of two byte strings one after the other is their
/// escaped forms one after the other.
pub proof fn lemma_escape_concat(a: Seq<u8>, b: Seq<u8>)
    ensures
        escape(a + b) == escape(a) + escape(b),
    decreases b.len(),
{
    if b.len() == 0 {
        assert(a + b =~= a);
        assert(escape(a) + escape(b) =~= escape(a));
    } else {
        lemma_escape_concat(a, b.drop_last());
        assert((a + b).drop_last() =~= a + b.drop_last());
        assert((a + b).last() == b.last());
        assert(escape(a) + escape(b.drop_last()) + escape_byte(b.last()) =~= escape(a) + (escape(
            b.drop_last(),
        ) + escape_byte(b.last())));
    }
}

/// The escaped form of a byte string with one byte before it.
pub proof fn lemma_escape_first(s: Seq<u8>)
    requires
        s.len() > 0,
    ensures
        escape(s) == escape_byte(s[0]) + escape(s.drop_first()),
{
    lemma_escape_concat(seq![s[0]], s.drop_first());
    assert(seq![s[0]] + s.drop_first() =~= s);
    assert(seq![s[0]].drop_last() =~= Seq::<u8>::empty());
    assert(escape(seq![s[0]]) =~= escape_byte(s[0])) by {
        reveal_with_fuel(escape, 2);
    }
}

/// Reading the encoding of a byte string gives the string back.
pub proof fn lemma_unescape(before: Seq<u8>, s: Seq<u8>, after: Seq<u8>, acc: Seq<u8>)
    ensures
        unescape_from(before + encode_bytes(s) + after, before.len() as int, acc) == Some(
            (acc + s, (before.len() + encode_bytes(s).len()) as int),
        ),
    decreases s.len(),
{
    let whole = before + encode_bytes(s) + after;
    let pos = before.len() as int;
    if s.len() == 0 {
        assert(escape(s) =~= Seq::<u8>::empty());
        assert(encode_bytes(s) =~= seq![0u8, 1u8]);
        assert(whole[pos] == 0);
        assert(whole[pos + 1] == 1);
        assert(acc + s =~= acc);
    } else {
        lemma_escape_first(s);
        let rest = s.drop_first();
        let head = escape_byte(s[0]);
        assert(encode_bytes(s) =~= head + encode_bytes(rest));
        assert(whole =~= (before + head) + encode_bytes(rest) + after);
        if s[0] == 0 {
            assert(whole[pos] == 0);
            assert(whole[pos + 1] == 255);
            lemma_unescape(before + head, rest, after, acc.push(0u8));
            assert(acc.push(0u8) + rest =~= acc + s);
        } else {
            assert(whole[pos] == s[0]);
            lemma_unescape(before + head, rest, after, acc.push(s[0]));
            assert(acc.push(s[0]) + rest =~= acc + s);
        }
    }
}

/// Reading the encoding of a decimal gives the decimal back.
pub proof fn lemma_decode_decimal(before: Seq<u8>, m: int, s: nat, after: Seq<u8>)
    requires
        -(MAX_MAGNITUDE as int) <= m <= MAX_MAGNITUDE as int,
        s <= 28,
    ensures
        decode_decimal(before + encode_decimal(m, s) + after, before.len() as int) == Some(
            ((m, s), (before.len() + encode_decimal(m, s).len()) as int),
        ),
{
    let enc = encode_decimal(m, s);
    let whole = before + enc + after;
    let pos = before.len() as int;
    if m == 0 {
        assert(whole[pos] == 1);
        assert(whole[pos + 1] == s as u8);
    } else {
        let magnitude = (if m < 0 {
            -m
        } else {
            m
        }) as nat;
        let digits = digit_count(magnitude);
        lemma_pow10_29();
        lemma_digit_count_bound(magnitude, 29);
        lemma_digit_count_range(magnitude);
        let unit = pow10((29 - digits) as nat);
        lemma_pow10_positive((29 - digits) as nat);
        lemma_pow10_adds(digits, (29 - digits) as nat);
        let scaled = magnitude * unit;
        assert(scaled < pow10(29)) by (nonlinear_arith)
            requires
                magnitude < pow10(digits),
                pow10(digits) * unit == pow10(29),
                unit > 0,
                scaled == magnitude * unit,
        ;
        lemma_pow256_values();
        lemma_be_round_trip(scaled, 13);
        lemma_be_bytes_len(scaled, 13);
        let body = seq![(digits - s + 64) as u8] + be_bytes(scaled, 13) + seq![s as u8];
        assert(body.len() == 15);
        assert(body.subrange(1, 14) =~= be_bytes(scaled, 13));
        assert(scaled % unit == 0 && scaled / unit == magnitude) by (nonlinear_arith)
            requires
                scaled == magnitude * unit,
                unit > 0,
        ;
        if m > 0 {
            assert(enc =~= seq![2u8] + body);
            assert(whole[pos] == 2);
            assert(whole.subrange(pos + 1, pos + 16) =~= body);
        } else {
            assert(enc =~= seq![0u8] + inverted(body));
            assert(whole[pos] == 0);
            assert(whole.subrange(pos + 1, pos + 16) =~= inverted(body));
            lemma_inverted_twice(body);
        }
    }
}

/// Reading the ascending encoding of a value gives the value back.
pub proof fn lemma_decode_value(before: Seq<u8>, v: Value, after: Seq<u8>)
    requires
        value_wf(v),
    ensures
        decode_value(before + encode_value(v) + after, before.len() as int) == Some(
            (v, (before.len() + encode_value(v).len()) as int),
        ),
{
    let enc = encode_value(v);
    let whole = before + enc + after;
    let pos = before.len() as int;
    assert(whole[pos] == value_rank(v));
    lemma_pow256_values();
    match v {
        Value::Null => {},
        Value::Boolean(_) => {},
        Value::Integer(i) => {
            lemma_be_round_trip(sortable_i32(i), 4);
            lemma_be_bytes_len(sortable_i32(i), 4);
            assert(whole.subrange(pos + 1, pos + 5) =~= be_bytes(sortable_i32(i), 4));
        },
        Value::BigInt(i) => {
            lemma_be_round_trip(sortable_i64(i), 8);
            lemma_be_bytes_len(sortable_i64(i), 8);
            assert(whole.subrange(pos + 1, pos + 9) =~= be_bytes(sortable_i64(i), 8));
        },
        Value::Decimal(m, s) => {
            assert(whole =~= (before + seq![6u8]) + encode_decimal(m, s) + after);
            lemma_decode_decimal(before + seq![6u8], m, s, after);
        },
        Value::Bytes(s) => {
            assert(whole =~= (before + seq![7u8]) + encode_bytes(s) + after);
            lemma_unescape(before + seq![7u8], s, after, Seq::empty());
            assert(Seq::<u8>::empty() + s =~= s);
        },
        Value::Jsonpath(s) => {
            assert(whole =~= (before + seq![8u8]) + encode_bytes(s) + after);
            lemma_unescape(before + seq![8u8], s, after, Seq::empty());
            assert(Seq::<u8>::empty() + s =~= s);
        },
    }
}

/// For every value and sort order, decoding the encoding of the value
/// gives the value, and ends where the encoding ends, whatever bytes
/// stand before and after it.
pub proof fn lemma_decode_encode(before: Seq<u8>, v: Value, order: SortOrder, after: Seq<u8>)
    requires
        value_wf(v),
    ensures
        decode_at(before + encode(v, order) + after, before.len() as int) == Some(
            (v, (before.len() + encode(v, order).len()) as int),
        ),
{
    let whole = before + encode(v, order) + after;
    let pos = before.len() as int;
    assert(encode_value(v)[0] == value_rank(v));
    match order {
        SortOrder::Asc => {
            assert(whole[pos] == value_rank(v));
            assert(!is_descending(whole, pos));
            lemma_decode_value(before, v, after);
        },
        SortOrder::Desc => {
            assert(whole[pos] == invert(value_rank(v)));
            assert(is_descending(whole, pos));
            lemma_inverted_concat(before, inverted(encode_value(v)));
            lemma_inverted_concat(before + inverted(encode_value(v)), after);
            lemma_inverted_twice(encode_value(v));
            assert(inverted(whole) == inverted(before) + encode_value(v) + inverted(after));
            lemma_decode_value(inverted(before), v, inverted(after));
        },
    }
}

} // verus!
