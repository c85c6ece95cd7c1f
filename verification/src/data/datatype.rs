//! The SQL types of values.

use vstd::prelude::*;
use vstd::string::StringSliceAdditionalSpecFns;
use crate::data::text::{bytes_eq, nat_digits, push_text, push_u64};

verus! {

pub const DECIMAL_MAX_PRECISION: u8 = 28;

pub const DECIMAL_MAX_SCALE: u8 = 28;

/// The type of a column or an expression. Type and value are kept apart: the
/// same bytes are text under `Text` and a document under `Json`.
#[derive(Debug, PartialEq, Eq, Structural, Copy, Clone)]
pub enum DataType {
    Null,
    Boolean,
    Integer,
    BigInt,
    /// Precision and scale.
    Decimal(u8, u8),
    Text,
    ByteA,
    Json,
    Date,
    Timestamp,
    JsonPath,
}

impl DataType {
    /// The name of the type in SQL text. With `parameters` a decimal shows
    /// its precision and scale.
    pub open spec fn sql_name(self, parameters: bool) -> Seq<u8> {
        match self {
            DataType::Null => "NULL".spec_bytes(),
            DataType::Boolean => "BOOLEAN".spec_bytes(),
            DataType::Integer => "INTEGER".spec_bytes(),
            DataType::BigInt => "BIGINT".spec_bytes(),
            DataType::Decimal(p, s) => if parameters {
                "DECIMAL(".spec_bytes() + nat_digits(p as nat) + ",".spec_bytes() + nat_digits(
                    s as nat,
                ) + ")".spec_bytes()
            } else {
                "DECIMAL".spec_bytes()
            },
            DataType::Text => "TEXT".spec_bytes(),
            DataType::ByteA => "BYTEA".spec_bytes(),
            DataType::Json => "JSON".spec_bytes(),
            DataType::Date => "DATE".spec_bytes(),
            DataType::Timestamp => "TIMESTAMP".spec_bytes(),
            DataType::JsonPath => "JSONPATH".spec_bytes(),
        }
    }

    /// Appends the SQL name of the type to `buf`.
    pub fn write_sql(&self, parameters: bool, buf: &mut Vec<u8>)
        ensures
            final(buf)@ == old(buf)@ + self.sql_name(parameters),
    {
        match self {
            DataType::Null => push_text(buf, "NULL"),
            DataType::Boolean => push_text(buf, "BOOLEAN"),
            DataType::Integer => push_text(buf, "INTEGER"),
            DataType::BigInt => push_text(buf, "BIGINT"),
            DataType::Decimal(p, s) => {
                if parameters {
                    push_text(buf, "DECIMAL(");
                    push_u64(buf, *p as u64);
                    push_text(buf, ",");
                    push_u64(buf, *s as u64);
                    push_text(buf, ")");
                } else {
                    push_text(buf, "DECIMAL");
                }
            },
            DataType::Text => push_text(buf, "TEXT"),
            DataType::ByteA => push_text(buf, "BYTEA"),
            DataType::Json => push_text(buf, "JSON"),
            DataType::Date => push_text(buf, "DATE"),
            DataType::Timestamp => push_text(buf, "TIMESTAMP"),
            DataType::JsonPath => push_text(buf, "JSONPATH"),
        }
    }

    /// Whether two types are the same once decimal parameters are ignored.
    pub open spec fn spec_same_kind(self, other: DataType) -> bool {
        match (self, other) {
            (DataType::Decimal(_, _), DataType::Decimal(_, _)) => true,
            _ => self == other,
        }
    }

    pub fn same_kind(&self, other: &DataType) -> (r: bool)
        ensures
            r == self.spec_same_kind(*other),
    {
        match (self, other) {
            (DataType::Decimal(_, _), DataType::Decimal(_, _)) => true,
            _ => *self == *other,
        }
    }
}

/// Reads a number of one to three digits at `pos`, without a leading zero
/// unless it is zero itself, that is at most 255: the number and the place
/// after it.
pub open spec fn small_number_at(text: Seq<u8>, pos: int) -> Option<(u8, int)> {
    if pos < 0 || pos >= text.len() || !is_digit(text[pos]) {
        None
    } else if pos + 1 >= text.len() || !is_digit(text[pos + 1]) {
        Some(((text[pos] - 48) as u8, pos + 1))
    } else if text[pos] == 48 {
        None
    } else if pos + 2 >= text.len() || !is_digit(text[pos + 2]) {
        Some((((text[pos] - 48) * 10 + (text[pos + 1] - 48)) as u8, pos + 2))
    } else if (pos + 3 < text.len() && is_digit(text[pos + 3])) || (text[pos] - 48) * 100 + (
    text[pos + 1] - 48) * 10 + (text[pos + 2] - 48) > 255 {
        None
    } else {
        Some(
            (
                ((text[pos] - 48) * 100 + (text[pos + 1] - 48) * 10 + (text[pos + 2] - 48)) as u8,
                pos + 3,
            ),
        )
    }
}

/// Whether a byte is an ASCII digit.
pub open spec fn is_digit(b: u8) -> bool {
    48 <= b <= 57
}

fn read_small_number(text: &[u8], pos: usize) -> (r: Option<(u8, usize)>)
    ensures
        match r {
            Some((n, end)) => small_number_at(text@, pos as int) == Some((n, end as int)) && end
                <= text@.len(),
            None => small_number_at(text@, pos as int) is None,
        },
{
    let n = text.len();
    if pos >= n || text[pos] < 48 || text[pos] > 57 {
        return None;
    }
    let a = (text[pos] - 48) as u32;
    if n - pos < 2 || text[pos + 1] < 48 || text[pos + 1] > 57 {
        return Some((a as u8, pos + 1));
    }
    if a == 0 {
        return None;
    }
    let b = (text[pos + 1] - 48) as u32;
    if n - pos < 3 || text[pos + 2] < 48 || text[pos + 2] > 57 {
        return Some(((a * 10 + b) as u8, pos + 2));
    }
    let c = (text[pos + 2] - 48) as u32;
    if (n - pos >= 4 && text[pos + 3] >= 48 && text[pos + 3] <= 57) || a * 100 + b * 10 + c > 255 {
        return None;
    }
    Some(((a * 100 + b * 10 + c) as u8, pos + 3))
}

impl DataType {
    /// The decimal type that a name of the form `DECIMAL(p,s)` stands for.
    pub open spec fn spec_decimal_from_name(text: Seq<u8>) -> Option<DataType> {
        if text.len() >= 8 && text.subrange(0, 8) == "DECIMAL(".spec_bytes() {
            match small_number_at(text, 8) {
                Some((p, after_p)) => if after_p < text.len() && text[after_p] == 44 {
                    match small_number_at(text, after_p + 1) {
                        Some((s, after_s)) => if after_s + 1 == text.len() && text[after_s] == 41 {
                            Some(DataType::Decimal(p, s))
                        } else {
                            None
                        },
                        None => None,
                    }
                } else {
                    None
                },
                None => None,
            }
        } else {
            None
        }
    }

    /// The type that a name stands for: the inverse of `sql_name` with parameters.
    pub open spec fn spec_from_sql_name(text: Seq<u8>) -> Option<DataType> {
        if text == "NULL".spec_bytes() {
            Some(DataType::Null)
        } else if text == "BOOLEAN".spec_bytes() {
            Some(DataType::Boolean)
        } else if text == "INTEGER".spec_bytes() {
            Some(DataType::Integer)
        } else if text == "BIGINT".spec_bytes() {
            Some(DataType::BigInt)
        } else if text == "TEXT".spec_bytes() {
            Some(DataType::Text)
        } else if text == "BYTEA".spec_bytes() {
            Some(DataType::ByteA)
        } else if text == "JSON".spec_bytes() {
            Some(DataType::Json)
        } else if text == "DATE".spec_bytes() {
            Some(DataType::Date)
        } else if text == "TIMESTAMP".spec_bytes() {
            Some(DataType::Timestamp)
        } else if text == "JSONPATH".spec_bytes() {
            Some(DataType::JsonPath)
        } else {
            DataType::spec_decimal_from_name(text)
        }
    }

    /// Reads the name of a type as `write_sql` writes it with parameters.
    pub fn from_sql_name(text: &[u8]) -> (r: Option<DataType>)
        ensures
            r == DataType::spec_from_sql_name(text@),
    {
        if bytes_eq(text, "NULL".as_bytes()) {
            Some(DataType::Null)
        } else if bytes_eq(text, "BOOLEAN".as_bytes()) {
            Some(DataType::Boolean)
        } else if bytes_eq(text, "INTEGER".as_bytes()) {
            Some(DataType::Integer)
        } else if bytes_eq(text, "BIGINT".as_bytes()) {
            Some(DataType::BigInt)
        } else if bytes_eq(text, "TEXT".as_bytes()) {
            Some(DataType::Text)
        } else if bytes_eq(text, "BYTEA".as_bytes()) {
            Some(DataType::ByteA)
        } else if bytes_eq(text, "JSON".as_bytes()) {
            Some(DataType::Json)
        } else if bytes_eq(text, "DATE".as_bytes()) {
            Some(DataType::Date)
        } else if bytes_eq(text, "TIMESTAMP".as_bytes()) {
            Some(DataType::Timestamp)
        } else if bytes_eq(text, "JSONPATH".as_bytes()) {
            Some(DataType::JsonPath)
        } else {
            if text.len() < 8 || !bytes_eq(
                vstd::slice::slice_subrange(text, 0, 8),
                "DECIMAL(".as_bytes(),
            ) {
                return None;
            }
            let (p, after_p) = match read_small_number(text, 8) {
                Some(x) => x,
                None => {
                    return None;
                },
            };
            if after_p >= text.len() || text[after_p] != 44 {
                return None;
            }
            let (s, after_s) = match read_small_number(text, after_p + 1) {
                Some(x) => x,
                None => {
                    return None;
                },
            };
            if after_s < text.len() && after_s + 1 == text.len() && text[after_s] == 41 {
                Some(DataType::Decimal(p, s))
            } else {
                None
            }
        }
    }
}

} // verus!
