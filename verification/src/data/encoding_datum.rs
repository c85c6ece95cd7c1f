//! The sortable encoding of a datum: a tag byte that names its kind, then
//! the bytes of its content. Tags 1 to 8 are ascending; their inverses, 247
//! to 254, descending. 0 and 255 never start a value, so that they can bound
//! a range of keys.

use vstd::prelude::*;
use crate::data::{Datum, SortOrder, Value};
use crate::data::datum::{into_boxed_bytes, value_rank};
use crate::data::encoding_core::{
    apply_order,
    ascending,
    be_bytes,
    be_value,
    byte_at,
    decode_decimal,
    encode_bytes,
    encode_decimal,
    invert_tail,
    push_be,
    push_decimal,
    push_escaped,
    read_be,
    read_decimal,
    read_escaped,
    sortable_i32,
    sortable_i64,
    unescape_from,
};
use crate::data::jsonpath_utils::JsonPathExpression;

verus! {

/// The ascending encoding of a value.
pub open spec fn encode_value(v: Value) -> Seq<u8> {
    seq![value_rank(v)] + match v {
        Value::Null => Seq::empty(),
        Value::Boolean(_) => Seq::empty(),
        Value::Integer(i) => be_bytes(sortable_i32(i), 4),
        Value::BigInt(i) => be_bytes(sortable_i64(i), 8),
        Value::Decimal(m, s) => encode_decimal(m, s),
        Value::Bytes(s) => encode_bytes(s),
        Value::Jsonpath(s) => encode_bytes(s),
    }
}

/// The encoding of a value in the given order.
pub open spec fn encode(v: Value, order: SortOrder) -> Seq<u8> {
    apply_order(encode_value(v), order)
}

/// Whether the bytes at `pos` are a descending encoding: tags in the upper
/// half of the byte range are.
pub open spec fn is_descending(bytes: Seq<u8>, pos: int) -> bool {
    0 <= pos < bytes.len() && bytes[pos] >= 127
}

/// Reads an ascending encoding at `pos`: the value and the place after it.
pub open spec fn decode_value(enc: Seq<u8>, pos: int) -> Option<(Value, int)> {
    if pos < 0 || pos >= enc.len() {
        None
    } else {
        let tag = enc[pos];
        if tag == 1 {
            Some((Value::Null, pos + 1))
        } else if tag == 2 {
            Some((Value::Boolean(false), pos + 1))
        } else if tag == 3 {
            Some((Value::Boolean(true), pos + 1))
        } else if tag == 4 {
            if pos + 5 <= enc.len() {
                Some(
                    (
                        Value::Integer(
                            (be_value(enc.subrange(pos + 1, pos + 5)) - 0x8000_0000) as i32,
                        ),
                        pos + 5,
                    ),
                )
            } else {
                None
            }
        } else if tag == 5 {
            if pos + 9 <= enc.len() {
                Some(
                    (
                        Value::BigInt(
                            (be_value(enc.subrange(pos + 1, pos + 9)) - 0x8000_0000_0000_0000) as i64,
                        ),
                        pos + 9,
                    ),
                )
            } else {
                None
            }
        } else if tag == 6 {
            match decode_decimal(enc, pos + 1) {
                Some(((m, s), end)) => Some((Value::Decimal(m, s), end)),
                None => None,
            }
        } else if tag == 7 {
            match unescape_from(enc, pos + 1, Seq::empty()) {
                Some((s, end)) => Some((Value::Bytes(s), end)),
                None => None,
            }
        } else if tag == 8 {
            match unescape_from(enc, pos + 1, Seq::empty()) {
                Some((s, end)) => Some((Value::Jsonpath(s), end)),
                None => None,
            }
        } else {
            None
        }
    }
}

/// Reads an encoding at `pos`, in the order that its tag shows: the value
/// and the place after it, or nothing where the bytes encode no value.
pub open spec fn decode_at(bytes: Seq<u8>, pos: int) -> Option<(Value, int)> {
    decode_value(ascending(bytes, is_descending(bytes, pos)), pos)
}

impl<'a> Datum<'a> {
    /// Appends the sortable encoding of the datum to `buffer`.
    pub fn as_sortable_bytes(&self, sort_order: SortOrder, buffer: &mut Vec<u8>)
        ensures
            final(buffer)@ == old(buffer)@ + encode(self@, sort_order),
    {
        // For datums we'll write enough info in to make them self describing, this should allow
        // for writing debug tools, data recovery tools etc that can make sense of data in
        // store files without much context.
        let start = buffer.len();
        buffer.push(self.rank());
        match self {
            Datum::Null => {},
            Datum::Boolean(_) => {},
            Datum::Integer(i) => {
                push_be(buffer, ((*i as i64) + 0x8000_0000) as u128, 4);
            },
            Datum::BigInt(i) => {
                push_be(buffer, ((*i as i128) + 0x8000_0000_0000_0000) as u128, 8);
            },
            Datum::Decimal(d) => {
                push_decimal(buffer, d);
            },
            Datum::ByteAOwned(_) | Datum::ByteARef(_) | Datum::ByteAInline(..) => {
                push_escaped(buffer, self.as_bytea());
            },
            Datum::Jsonpath(_) | Datum::JsonpathRef(_) => {
                push_escaped(buffer, self.as_jsonpath().original());
            },
        }
        assert(buffer@ =~= old(buffer)@ + encode_value(self@));
        if sort_order.is_desc() {
            invert_tail(buffer, start);
            assert(buffer@ =~= old(buffer)@ + encode(self@, sort_order));
        }
    }

    /// Reads the datum encoded at `pos` of `buffer`: the datum, which owns
    /// its bytes, and the place after it; nothing where the bytes there
    /// encode no value.
    pub fn read_sortable_bytes(buffer: &[u8], pos: usize) -> (r: Option<(Datum<'static>, usize)>)
        ensures
            match r {
                Some((d, end)) => decode_at(buffer@, pos as int) == Some((d@, end as int)) && pos
                    < end <= buffer@.len() && d.wf() && d.is_owned_form(),
                None => decode_at(buffer@, pos as int) is None,
            },
    {
        if pos >= buffer.len() {
            return None;
        }
        // Infer sort order from the data instead
        let desc = buffer[pos] >= 127;
        let ghost enc = ascending(buffer@, desc);
        let tag = byte_at(buffer, pos, desc);
        if tag == 1 {
            Some((Datum::Null, pos + 1))
        } else if tag == 2 {
            Some((Datum::Boolean(false), pos + 1))
        } else if tag == 3 {
            Some((Datum::Boolean(true), pos + 1))
        } else if tag == 4 {
            match read_be(buffer, pos + 1, 4, desc) {
                Some(x) => {
                    proof {
                        crate::data::encoding_core::lemma_be_value_bound(
                            enc.subrange(pos + 1, pos + 5),
                        );
                        crate::data::encoding_core::lemma_pow256_values();
                    }
                    Some((Datum::Integer(((x as i64) - 0x8000_0000) as i32), pos + 5))
                },
                None => None,
            }
        } else if tag == 5 {
            match read_be(buffer, pos + 1, 8, desc) {
                Some(x) => {
                    proof {
                        crate::data::encoding_core::lemma_be_value_bound(
                            enc.subrange(pos + 1, pos + 9),
                        );
                        crate::data::encoding_core::lemma_pow256_values();
                    }
                    Some((Datum::BigInt(((x as i128) - 0x8000_0000_0000_0000) as i64), pos + 9))
                },
                None => None,
            }
        } else if tag == 6 {
            match read_decimal(buffer, pos + 1, desc) {
                Some((d, end)) => Some((Datum::Decimal(d), end)),
                None => None,
            }
        } else if tag == 7 {
            match read_escaped(buffer, pos + 1, desc) {
                Some((bytes, end)) => Some((Datum::ByteAOwned(into_boxed_bytes(bytes)), end)),
                None => None,
            }
        } else if tag == 8 {
            match read_escaped(buffer, pos + 1, desc) {
                Some((bytes, end)) => match JsonPathExpression::parse(bytes.as_slice()) {
                    Some(path) => Some((Datum::Jsonpath(Box::new(path)), end)),
                    None => None,
                },
                None => None,
            }
        } else {
            None
        }
    }

    /// Replaces the datum by the one encoded at the start of `buffer` and
    /// returns the bytes that follow it.
    pub fn from_sortable_bytes<'b>(&mut self, buffer: &'b [u8]) -> (rem: &'b [u8])
        requires
            decode_at(buffer@, 0) is Some,
        ensures
            decode_at(buffer@, 0) matches Some((v, end)) && final(self)@ == v && rem@
                == buffer@.subrange(end, buffer@.len() as int),
    {
        match Datum::read_sortable_bytes(buffer, 0) {
            Some((d, end)) => {
                *self = d;
                vstd::slice::slice_subrange(buffer, end, buffer.len())
            },
            None => vstd::pervasive::unreached(),
        }
    }
}

} // verus!
