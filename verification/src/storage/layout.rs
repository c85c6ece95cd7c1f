//! How rows lie in the store.
//!
//! The key of a row is the id of its table in four bytes, the sortable
//! encoding of its primary-key columns, and the logical timestamp inverted
//! in eight bytes, so that of the versions of one row the newest comes
//! first. The value is the sortable encoding of the other columns and the
//! frequency in four bytes.

use vstd::prelude::*;
use crate::data::{Datum, LogicalTimestamp, SortOrder, Value};
use crate::data::encoding_core::{be_bytes, be_value, push_be, read_be};
use crate::data::encoding_datum::{decode_at, encode};
use crate::data::tuple_iter::tuple_view;

verus! {

/// The first bytes of every key of a table.
pub open spec fn table_prefix(id: u32) -> Seq<u8> {
    be_bytes(id as nat, 4)
}

/// The last bytes of a key: the timestamp inverted.
pub open spec fn timestamp_suffix(ms: u64) -> Seq<u8> {
    be_bytes((u64::MAX - ms) as nat, 8)
}

/// The last bytes of a value: the frequency in two's complement.
pub open spec fn frequency_suffix(freq: i32) -> Seq<u8> {
    be_bytes(
        (if freq < 0 {
            freq + 0x1_0000_0000
        } else {
            freq as int
        }) as nat,
        4,
    )
}

/// The order of the column at `index`; columns past the end of `orders` are ascending.
pub open spec fn order_at(orders: Seq<SortOrder>, index: int) -> SortOrder {
    if 0 <= index < orders.len() {
        orders[index]
    } else {
        SortOrder::Asc
    }
}

/// The encodings of the values of a tuple one after the other, the first in
/// the order `orders[first]`.
pub open spec fn encode_tuple(values: Seq<Value>, orders: Seq<SortOrder>, first: int) -> Seq<u8>
    decreases values.len(),
{
    if values.len() == 0 {
        Seq::empty()
    } else {
        encode_tuple(values.drop_last(), orders, first) + encode(
            values.last(),
            order_at(orders, first + values.len() - 1),
        )
    }
}

/// Reads `count` values that start at `pos`, adding to `acc`: the values and
/// the place after them.
pub open spec fn decode_tuple(bytes: Seq<u8>, pos: int, count: nat, acc: Seq<Value>) -> Option<
    (Seq<Value>, int),
>
    decreases count,
{
    if count == 0 {
        Some((acc, pos))
    } else {
        match decode_at(bytes, pos) {
            Some((v, end)) => decode_tuple(bytes, end, (count - 1) as nat, acc.push(v)),
            None => None,
        }
    }
}

/// The key without its timestamp: the table and the primary key, which name
/// a row through its versions.
pub open spec fn key_group(key: Seq<u8>) -> Seq<u8> {
    key.subrange(0, key.len() - 8)
}

/// The timestamp that a key of at least eight bytes ends in.
pub open spec fn key_timestamp(key: Seq<u8>) -> int {
    u64::MAX - be_value(key.subrange(key.len() - 8, key.len() as int))
}

/// The frequency that a value of at least four bytes ends in.
pub open spec fn value_frequency(value: Seq<u8>) -> i32 {
    let raw = be_value(value.subrange(value.len() - 4, value.len() as int));
    if raw >= 0x8000_0000 {
        (raw - 0x1_0000_0000) as i32
    } else {
        raw as i32
    }
}

/// The row that a key and a value hold for a table with `keys` primary-key
/// columns among `columns`: its values and its frequency. Nothing where the
/// bytes are no such row.
pub open spec fn decode_row(key: Seq<u8>, value: Seq<u8>, keys: nat, columns: nat) -> Option<
    (Seq<Value>, i32),
> {
    if key.len() < 12 || value.len() < 4 || keys > columns {
        None
    } else {
        match decode_tuple(key.subrange(0, key.len() - 8), 4, keys, Seq::empty()) {
            Some((key_values, key_end)) => if key_end != key.len() - 8 {
                None
            } else {
                match decode_tuple(
                    value.subrange(0, value.len() - 4),
                    0,
                    (columns - keys) as nat,
                    key_values,
                ) {
                    Some((values, end)) => if end != value.len() - 4 {
                        None
                    } else {
                        Some((values, value_frequency(value)))
                    },
                    None => None,
                }
            },
            None => None,
        }
    }
}

/// Appends the encodings of the datums of `tuple` from `from` up to `to`,
/// each in the order of its column.
pub fn push_tuple(
    buf: &mut Vec<u8>,
    tuple: &[Datum],
    from: usize,
    to: usize,
    orders: &[SortOrder],
    first: usize,
)
    requires
        from <= to <= tuple@.len(),
        first + to <= usize::MAX,
    ensures
        final(buf)@ == old(buf)@ + encode_tuple(
            Seq::new((to - from) as nat, |i: int| tuple@[from + i]@),
            orders@,
            first as int,
        ),
{
    let ghost all = Seq::new((to - from) as nat, |i: int| tuple@[from + i]@);
    let mut i: usize = from;
    while i < to
        invariant
            from <= i <= to <= tuple@.len(),
            first + to <= usize::MAX,
            all == Seq::new((to - from) as nat, |i: int| tuple@[from + i]@),
            buf@ == old(buf)@ + encode_tuple(all.subrange(0, i - from), orders@, first as int),
        decreases to - i,
    {
        let index = first + (i - from);
        let order = if index < orders.len() {
            orders[index]
        } else {
            SortOrder::Asc
        };
        proof {
            assert(all.subrange(0, i - from + 1).drop_last() =~= all.subrange(0, i - from));
            assert(all.subrange(0, i - from + 1).last() == tuple@[i as int]@);
        }
        tuple[i].as_sortable_bytes(order, buf);
        i += 1;
    }
    assert(all.subrange(0, to - from) =~= all);
}

/// Reads `count` datums that start at `pos`, adding them to `out`: the
/// place after them.
pub fn read_tuple(bytes: &[u8], pos: usize, count: usize, out: &mut Vec<Datum<'static>>) -> (r:
    Option<usize>)
    requires
        pos <= bytes@.len(),
    ensures
        match r {
            Some(end) => decode_tuple(bytes@, pos as int, count as nat, tuple_view(old(out)@))
                == Some((tuple_view(final(out)@), end as int)) && end <= bytes@.len()
                && final(out)@.len() == old(out)@.len() + count,
            None => decode_tuple(bytes@, pos as int, count as nat, tuple_view(old(out)@))
                is None,
        },
{
    let mut at: usize = pos;
    let mut done: usize = 0;
    while done < count
        invariant
            done <= count,
            at <= bytes@.len(),
            out@.len() == old(out)@.len() + done,
            decode_tuple(bytes@, pos as int, count as nat, tuple_view(old(out)@)) == decode_tuple(
                bytes@,
                at as int,
                (count - done) as nat,
                tuple_view(out@),
            ),
        decreases count - done,
    {
        match Datum::read_sortable_bytes(bytes, at) {
            Some((d, end)) => {
                proof {
                    crate::data::tuple_iter::lemma_tuple_view_push(out@, d);
                }
                out.push(d);
                at = end;
            },
            None => {
                return None;
            },
        }
        done += 1;
    }
    Some(at)
}

/// Appends a timestamp, inverted.
pub fn push_timestamp(buf: &mut Vec<u8>, timestamp: LogicalTimestamp)
    ensures
        final(buf)@ == old(buf)@ + timestamp_suffix(timestamp.ms),
{
    push_be(buf, (u64::MAX - timestamp.ms) as u128, 8);
}

/// Appends a frequency.
pub fn push_frequency(buf: &mut Vec<u8>, freq: i32)
    ensures
        final(buf)@ == old(buf)@ + frequency_suffix(freq),
{
    let raw: u128 = if freq < 0 {
        ((freq as i64) + 0x1_0000_0000) as u128
    } else {
        freq as u128
    };
    push_be(buf, raw, 4);
}

/// The timestamp that a key ends in.
pub fn read_timestamp(key: &[u8]) -> (ms: u64)
    requires
        key@.len() >= 8,
    ensures
        ms == key_timestamp(key@),
{
    match read_be(key, key.len() - 8, 8, false) {
        Some(raw) => {
            proof {
                crate::data::encoding_core::lemma_be_value_bound(
                    key@.subrange(key@.len() - 8, key@.len() as int),
                );
                crate::data::encoding_core::lemma_pow256_values();
            }
            u64::MAX - (raw as u64)
        },
        None => 0,
    }
}

/// The frequency that a value ends in.
pub fn read_frequency(value: &[u8]) -> (freq: i32)
    requires
        value@.len() >= 4,
    ensures
        freq == value_frequency(value@),
{
    match read_be(value, value.len() - 4, 4, false) {
        Some(raw) => {
            proof {
                crate::data::encoding_core::lemma_be_value_bound(
                    value@.subrange(value@.len() - 4, value@.len() as int),
                );
                crate::data::encoding_core::lemma_pow256_values();
            }
            if raw >= 0x8000_0000 {
                ((raw as i64) - 0x1_0000_0000) as i32
            } else {
                raw as i32
            }
        },
        None => 0,
    }
}

/// Decodes the row that a key and a value hold.
pub fn read_row(key: &[u8], value: &[u8], keys: usize, columns: usize) -> (r: Option<
    (Vec<Datum<'static>>, i32),
>)
    ensures
        match r {
            Some((tuple, freq)) => decode_row(key@, value@, keys as nat, columns as nat) == Some(
                (tuple_view(tuple@), freq),
            ) && tuple@.len() == columns,
            None => decode_row(key@, value@, keys as nat, columns as nat) is None,
        },
{
    if key.len() < 12 || value.len() < 4 || keys > columns {
        return None;
    }
    let mut tuple: Vec<Datum<'static>> = Vec::new();
    assert(tuple_view(tuple@) =~= Seq::empty());
    let key_body = vstd::slice::slice_subrange(key, 0, key.len() - 8);
    match read_tuple(key_body, 4, keys, &mut tuple) {
        Some(end) => {
            if end != key.len() - 8 {
                return None;
            }
        },
        None => {
            return None;
        },
    }
    let value_body = vstd::slice::slice_subrange(value, 0, value.len() - 4);
    match read_tuple(value_body, 0, columns - keys, &mut tuple) {
        Some(end) => {
            if end != value.len() - 4 {
                return None;
            }
        },
        None => {
            return None;
        },
    }
    Some((tuple, read_frequency(value)))
}

} // verus!
