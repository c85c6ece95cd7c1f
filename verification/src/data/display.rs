//! The text of values as SQL shows them.

use vstd::prelude::*;
use vstd::string::StringSliceAdditionalSpecFns;
use crate::data::{DataType, Datum, TypedDatum, Value};
use crate::data::date::{date_text, format_date, format_timestamp, timestamp_text};
use crate::data::decimal::{decimal_text, Decimal};
use crate::data::json::{
    array_items,
    boolean_content,
    object_items,
    number_content,
    string_content,
    Json,
};
use crate::data::text::{
    int_digits, lossy_string, lossy_text, push_bytes, push_i64, push_text, utf8_text,
};

verus! {

/// The lower-case hexadecimal digit of a number below sixteen.
pub open spec fn hex_digit(n: u8) -> u8 {
    if n < 10 {
        (48 + n) as u8
    } else {
        (87 + n) as u8
    }
}

/// A byte string in lower-case hexadecimal, two digits to the byte.
pub open spec fn hex_text(bytes: Seq<u8>) -> Seq<u8>
    decreases bytes.len(),
{
    if bytes.len() == 0 {
        Seq::empty()
    } else {
        hex_text(bytes.drop_last()).push(hex_digit(bytes.last() / 16)).push(
            hex_digit(bytes.last() % 16),
        )
    }
}

/// The form of one byte inside a quoted text: a quote or a backslash gets a
/// backslash before it.
pub open spec fn quoted_byte(b: u8) -> Seq<u8> {
    if b == 34 || b == 92 {
        seq![92u8, b]
    } else {
        seq![b]
    }
}

/// A text with a backslash before each quote and each backslash.
pub open spec fn escaped_text(text: Seq<u8>) -> Seq<u8>
    decreases text.len(),
{
    if text.len() == 0 {
        Seq::empty()
    } else {
        escaped_text(text.drop_last()) + quoted_byte(text.last())
    }
}

/// The bytes of a text as `str` is formatted for debugging: between
/// double quotes, with quotes, backslashes and control characters escaped.
pub uninterp spec fn debug_text(text: Seq<char>) -> Seq<u8>;

/// The bytes of a text as a string of JSON, which `serde_json::to_string`
/// gives: between double quotes, with quotes, backslashes and control
/// characters escaped.
pub uninterp spec fn json_string(text: Seq<char>) -> Seq<u8>;

/// Formats a text with the `Debug` formatting of `str`. The result
/// depends on the text alone; only that is claimed.
#[verifier::external_body]
fn outside_debug(text: &str) -> (r: Vec<u8>)
    ensures
        r@ == debug_text(text@),
{
    format!("{:?}", text).into_bytes()
}

/// Writes a text as a string of JSON with `serde_json::to_string`, which
/// does not fail on a text. The result depends on the text alone; only
/// that is claimed.
#[verifier::external_body]
fn outside_json_string(text: &str) -> (r: Vec<u8>)
    ensures
        r@ == json_string(text@),
{
    match serde_json::to_string(text) {
        Ok(written) => written.into_bytes(),
        Err(_) => Vec::new(),
    }
}

/// A text as a string literal: what formatting for debugging makes of
/// it. Bytes that are no UTF-8 stand between double quotes, with a
/// backslash before each quote and each backslash.
pub open spec fn quoted_text(text: Seq<u8>) -> Seq<u8> {
    if vstd::utf8::valid_utf8(text) {
        debug_text(vstd::utf8::decode_utf8(text))
    } else {
        seq![34u8] + escaped_text(text) + seq![34u8]
    }
}

/// A text as a string of JSON. Bytes that are no UTF-8 stand between
/// double quotes, with a backslash before each quote and each backslash.
pub open spec fn json_string_text(text: Seq<u8>) -> Seq<u8> {
    if vstd::utf8::valid_utf8(text) {
        json_string(vstd::utf8::decode_utf8(text))
    } else {
        seq![34u8] + escaped_text(text) + seq![34u8]
    }
}

fn hex(n: u8) -> (d: u8)
    requires
        n < 16,
    ensures
        d == hex_digit(n),
{
    if n < 10 {
        48 + n
    } else {
        87 + n
    }
}

/// Appends a byte string in hexadecimal.
pub fn push_hex(buf: &mut Vec<u8>, bytes: &[u8])
    ensures
        final(buf)@ == old(buf)@ + hex_text(bytes@),
{
    let mut i: usize = 0;
    while i < bytes.len()
        invariant
            i <= bytes@.len(),
            buf@ == old(buf)@ + hex_text(bytes@.subrange(0, i as int)),
        decreases bytes@.len() - i,
    {
        proof {
            assert(bytes@.subrange(0, i + 1).drop_last() =~= bytes@.subrange(0, i as int));
        }
        let b = bytes[i];
        buf.push(hex(b / 16));
        buf.push(hex(b % 16));
        assert(buf@ =~= old(buf)@ + hex_text(bytes@.subrange(0, i + 1)));
        i += 1;
    }
    assert(bytes@.subrange(0, i as int) =~= bytes@);
}

/// Appends a text between double quotes, with a backslash before each
/// quote and each backslash.
fn push_escaped(buf: &mut Vec<u8>, text: &[u8])
    ensures
        final(buf)@ == old(buf)@ + (seq![34u8] + escaped_text(text@) + seq![34u8]),
{
    buf.push(34);
    let ghost start = buf@;
    let mut i: usize = 0;
    while i < text.len()
        invariant
            i <= text@.len(),
            start == old(buf)@ + seq![34u8],
            buf@ == start + escaped_text(text@.subrange(0, i as int)),
        decreases text@.len() - i,
    {
        proof {
            assert(text@.subrange(0, i + 1).drop_last() =~= text@.subrange(0, i as int));
        }
        let b = text[i];
        if b == 34 || b == 92 {
            buf.push(92);
        }
        buf.push(b);
        assert(buf@ =~= start + escaped_text(text@.subrange(0, i + 1)));
        i += 1;
    }
    assert(text@.subrange(0, i as int) =~= text@);
    buf.push(34);
    assert(buf@ =~= old(buf)@ + (seq![34u8] + escaped_text(text@) + seq![34u8]));
}

/// Appends a text as a string literal.
pub fn push_quoted(buf: &mut Vec<u8>, text: &[u8])
    ensures
        final(buf)@ == old(buf)@ + quoted_text(text@),
{
    match utf8_text(text) {
        Some(valid) => {
            proof {
                vstd::utf8::encode_utf8_decode_utf8(valid@);
            }
            let quoted = outside_debug(valid);
            push_bytes(buf, quoted.as_slice());
        },
        None => push_escaped(buf, text),
    }
}

/// Appends a text as a string of JSON.
pub fn push_json_string(buf: &mut Vec<u8>, text: &[u8])
    ensures
        final(buf)@ == old(buf)@ + json_string_text(text@),
{
    match utf8_text(text) {
        Some(valid) => {
            proof {
                vstd::utf8::encode_utf8_decode_utf8(valid@);
            }
            let quoted = outside_json_string(valid);
            push_bytes(buf, quoted.as_slice());
        },
        None => push_escaped(buf, text),
    }
}

/// The text of a JSON document.
///
/// Null and booleans are written as in JSON, a number as its decimal text,
/// a string as a string of JSON, an array between brackets with commas
/// between its items. Bytes that are no document give `null`.
pub open spec fn json_text(bytes: Seq<u8>) -> Seq<u8>
    decreases bytes.len(),
{
    if let Some(b) = boolean_content(bytes) {
        if b {
            "true".spec_bytes()
        } else {
            "false".spec_bytes()
        }
    } else if let Some((m, s)) = number_content(bytes) {
        decimal_text(m, s as int, s as int)
    } else if let Some(s) = string_content(bytes) {
        json_string_text(s)
    } else if let Some(items) = array_items(bytes) {
        seq![91u8] + json_items_text(items, bytes.len(), items.len() as int, false) + seq![93u8]
    } else if let Some(items) = object_items(bytes) {
        seq![123u8] + json_items_text(items, bytes.len(), items.len() as int, true) + seq![125u8]
    } else {
        "null".spec_bytes()
    }
}

/// The texts of the first `n` items of an array or of an object, with
/// commas between them; in an object a colon stands between a key and its
/// value. Each item is shorter than `limit`, the length of what they are
/// part of.
pub open spec fn json_items_text(items: Seq<Seq<u8>>, limit: nat, n: int, object: bool) -> Seq<u8>
    decreases limit, n,
{
    if n <= 0 || n > items.len() {
        Seq::empty()
    } else {
        json_items_text(items, limit, n - 1, object) + (if n > 1 {
            if object && (n - 1) % 2 == 1 {
                seq![58u8]
            } else {
                seq![44u8]
            }
        } else {
            Seq::empty()
        }) + (if items[n - 1].len() < limit {
            json_text(items[n - 1])
        } else {
            "null".spec_bytes()
        })
    }
}

fn push_json_items(
    buf: &mut Vec<u8>,
    items: &Vec<Json>,
    limit: usize,
    object: bool,
    Ghost(encoded): Ghost<Seq<Seq<u8>>>,
)
    requires
        items@.len() == encoded.len(),
        forall|k: int| 0 <= k < items@.len() ==> (#[trigger] items@[k]).bytes@ == encoded[k],
    ensures
        final(buf)@ == old(buf)@ + json_items_text(
            encoded,
            limit as nat,
            encoded.len() as int,
            object,
        ),
    decreases limit, 0int,
{
    let mut i: usize = 0;
    assert(buf@ =~= old(buf)@ + json_items_text(encoded, limit as nat, 0, object));
    while i < items.len()
        invariant
            i <= items@.len(),
            items@.len() == encoded.len(),
            forall|k: int| 0 <= k < items@.len() ==> (#[trigger] items@[k]).bytes@ == encoded[k],
            buf@ == old(buf)@ + json_items_text(encoded, limit as nat, i as int, object),
        decreases items@.len() - i,
    {
        if i > 0 {
            if object && i % 2 == 1 {
                buf.push(58);
            } else {
                buf.push(44);
            }
        }
        let item = items[i].bytes;
        if item.len() < limit {
            push_json(buf, item);
        } else {
            push_text(buf, "null");
        }
        assert(buf@ =~= old(buf)@ + json_items_text(encoded, limit as nat, i + 1, object));
        i += 1;
    }
}

/// Appends the text of a JSON document.
pub fn push_json(buf: &mut Vec<u8>, bytes: &[u8])
    ensures
        final(buf)@ == old(buf)@ + json_text(bytes@),
    decreases bytes@.len(), 1int,
{
    let json = Json::from_bytes(bytes);
    if let Some(b) = json.get_boolean() {
        if b {
            push_text(buf, "true");
        } else {
            push_text(buf, "false");
        }
    } else if let Some(d) = json.get_number() {
        let text = d.format(d.scale());
        push_bytes(buf, text.as_slice());
    } else if let Some(s) = json.get_string() {
        push_json_string(buf, s);
    } else if let Some(items) = json.iter_array() {
        let ghost encoded = array_items(bytes@)->0;
        buf.push(91);
        push_json_items(buf, &items, bytes.len(), false, Ghost(encoded));
        buf.push(93);
        assert(buf@ =~= old(buf)@ + json_text(bytes@));
    } else if let Some(items) = json.iter_object() {
        let ghost encoded = object_items(bytes@)->0;
        buf.push(123);
        push_json_items(buf, &items, bytes.len(), true, Ghost(encoded));
        buf.push(125);
        assert(buf@ =~= old(buf)@ + json_text(bytes@));
    } else {
        push_text(buf, "null");
    }
}

/// The text of a value under a type. With `literal` it is the text that
/// stands for the value in SQL: text and byte strings are quoted.
///
/// Null is `NULL`; booleans are `TRUE` and `FALSE`; a decimal has as many
/// digits after the point as its type declares; a date is `YYYY-MM-DD` and
/// a timestamp a date and a time, or the number behind them where the
/// calendar has no such day; byte strings are lower-case hexadecimal; JSON
/// is JSON text.
pub open spec fn value_text(v: Value, datatype: DataType, literal: bool) -> Seq<u8> {
    match v {
        Value::Null => "NULL".spec_bytes(),
        Value::Bytes(bytes) => match datatype {
            DataType::Text => if literal {
                quoted_text(bytes)
            } else {
                bytes
            },
            DataType::Json => json_text(bytes),
            _ => if literal {
                seq![34u8] + hex_text(bytes) + seq![34u8]
            } else {
                hex_text(bytes)
            },
        },
        Value::Boolean(b) => if b {
            "TRUE".spec_bytes()
        } else {
            "FALSE".spec_bytes()
        },
        Value::Integer(i) => match datatype {
            DataType::Date => match date_text(date_year(i) as int, date_day(i) as int) {
                Some(text) => text,
                None => int_digits(i as int),
            },
            _ => int_digits(i as int),
        },
        Value::BigInt(i) => match datatype {
            DataType::Timestamp => match timestamp_text(
                timestamp_seconds(i) as int,
                timestamp_nanos(i) as int,
            ) {
                Some(text) => text,
                None => int_digits(i as int),
            },
            _ => int_digits(i as int),
        },
        Value::Decimal(m, s) => match datatype {
            DataType::Decimal(_, places) => decimal_text(m, s as int, places as int),
            _ => decimal_text(m, s as int, s as int),
        },
        Value::Jsonpath(text) => text,
    }
}

/// The year of a date.
pub open spec fn date_year(i: i32) -> i32 {
    (i as int / 512) as i32
}

/// The day of the year of a date.
pub open spec fn date_day(i: i32) -> u32 {
    (i as int % 512) as u32
}

/// The whole seconds of a timestamp.
pub open spec fn timestamp_seconds(i: i64) -> i64 {
    (i as int / 1000) as i64
}

/// The nanoseconds of a timestamp.
pub open spec fn timestamp_nanos(i: i64) -> u32 {
    ((i as int % 1000) * 1_000_000) as u32
}

impl<'a> TypedDatum<'a> {
    /// Appends the text of the datum under its type.
    pub fn write(&self, literal: bool, buf: &mut Vec<u8>)
        ensures
            final(buf)@ == old(buf)@ + value_text(self.datum@, self.datatype, literal),
    {
        match self.datum {
            Datum::Null => push_text(buf, "NULL"),
            Datum::ByteARef(_) | Datum::ByteAOwned(_) | Datum::ByteAInline(..) => {
                let bytes = self.datum.as_bytea();
                match self.datatype {
                    DataType::Text => {
                        if literal {
                            push_quoted(buf, bytes);
                        } else {
                            push_bytes(buf, bytes);
                        }
                    },
                    DataType::Json => {
                        push_json(buf, bytes);
                    },
                    _ => {
                        if literal {
                            buf.push(34);
                            push_hex(buf, bytes);
                            buf.push(34);
                            assert(buf@ =~= old(buf)@ + (seq![34u8] + hex_text(bytes@) + seq![
                                34u8,
                            ]));
                        } else {
                            push_hex(buf, bytes);
                        }
                    },
                }
            },
            Datum::Boolean(b) => push_text(
                buf,
                if *b {
                    "TRUE"
                } else {
                    "FALSE"
                },
            ),
            Datum::Integer(i) => match self.datatype {
                DataType::Date => {
                    let (year, day) = self.datum.as_date();
                    match format_date(year, day) {
                        Some(text) => push_bytes(buf, text.as_slice()),
                        None => push_i64(buf, *i as i64),
                    }
                },
                _ => push_i64(buf, *i as i64),
            },
            Datum::BigInt(i) => match self.datatype {
                DataType::Timestamp => {
                    let (seconds, nanos) = self.datum.as_timestamp();
                    match format_timestamp(seconds, nanos) {
                        Some(text) => push_bytes(buf, text.as_slice()),
                        None => push_i64(buf, *i),
                    }
                },
                _ => push_i64(buf, *i),
            },
            Datum::Decimal(d) => {
                let places = match self.datatype {
                    DataType::Decimal(_, s) => s as u32,
                    _ => d.scale(),
                };
                let text = d.format(places);
                push_bytes(buf, text.as_slice());
            },
            Datum::Jsonpath(_) | Datum::JsonpathRef(_) => {
                push_bytes(buf, self.datum.as_jsonpath().original());
            },
        }
    }

    /// The text of the datum under its type, as bytes.
    pub fn to_bytes(&self, literal: bool) -> (r: Vec<u8>)
        ensures
            r@ == value_text(self.datum@, self.datatype, literal),
    {
        let mut buf: Vec<u8> = Vec::new();
        self.write(literal, &mut buf);
        buf
    }

    /// The text of the datum under its type; bytes that are no UTF-8 are
    /// replaced as `String::from_utf8_lossy` does.
    pub fn to_string(&self) -> (r: String)
        ensures
            r@ == lossy_text(value_text(self.datum@, self.datatype, false)),
            vstd::utf8::valid_utf8(value_text(self.datum@, self.datatype, false)) ==> r@
                == vstd::utf8::decode_utf8(value_text(self.datum@, self.datatype, false)),
    {
        let bytes = self.to_bytes(false);
        lossy_string(bytes.as_slice())
    }

    /// The text that stands for the datum in SQL.
    pub fn to_sql_string(&self) -> (r: String)
        ensures
            r@ == lossy_text(value_text(self.datum@, self.datatype, true)),
            vstd::utf8::valid_utf8(value_text(self.datum@, self.datatype, true)) ==> r@
                == vstd::utf8::decode_utf8(value_text(self.datum@, self.datatype, true)),
    {
        let bytes = self.to_bytes(true);
        lossy_string(bytes.as_slice())
    }
}

} // verus!
