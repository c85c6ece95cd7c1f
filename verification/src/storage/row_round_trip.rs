//! A row that is written can be read, and a row that is taken back is gone.

use vstd::prelude::*;
use crate::data::{Comparison, SortOrder, Value};
use crate::data::bytes_order::{lemma_compare_common_prefix, lemma_compare_equal, lemma_compare_reverse};
use crate::data::datum::{bytes_compare, lemma_mismatch_at};
use crate::data::encoding_core::{
    lemma_be_bytes_len,
    lemma_be_round_trip,
    lemma_pow256_values,
};
use crate::data::encoding_datum::{encode};
use crate::data::encoding_order::lemma_be_order;
use crate::data::encoding_round_trip::{lemma_decode_encode, value_wf};
use crate::storage::layout::{
    decode_row,
    decode_tuple,
    encode_tuple,
    frequency_suffix,
    key_group,
    key_timestamp,
    order_at,
    table_prefix,
    timestamp_suffix,
    value_frequency,
};
use crate::storage::store::{lemma_lower_bound, lower_bound};
use crate::storage::table::{
    apply_write,
    clamp_frequency,
    in_range,
    row_write,
    scan,
    scan_from,
    visible_frequency,
    PendingWriteView,
    ScanRange,
    Table,
};

verus! {

/// The entries of a store.
pub type Store = Seq<(Seq<u8>, Seq<u8>)>;

/// Whether every value of a tuple is one that a datum can hold.
pub open spec fn tuple_wf(values: Seq<Value>) -> bool {
    forall|i: int| 0 <= i < values.len() ==> value_wf(#[trigger] values[i])
}

/// The encoding of a tuple begins with the encoding of its first value.
pub proof fn lemma_encode_tuple_first(values: Seq<Value>, orders: Seq<SortOrder>, first: int)
    requires
        values.len() > 0,
    ensures
        encode_tuple(values, orders, first) == encode(values[0], order_at(orders, first))
            + encode_tuple(values.drop_first(), orders, first + 1),
    decreases values.len(),
{
    if values.len() == 1 {
        assert(values.drop_last() =~= Seq::<Value>::empty());
        assert(values.drop_first() =~= Seq::<Value>::empty());
        assert(encode_tuple(values, orders, first) =~= encode(
            values[0],
            order_at(orders, first),
        )) by {
            reveal_with_fuel(encode_tuple, 2);
        }
        assert(encode(values[0], order_at(orders, first)) + encode_tuple(
            values.drop_first(),
            orders,
            first + 1,
        ) =~= encode(values[0], order_at(orders, first)));
    } else {
        let front = values.drop_last();
        lemma_encode_tuple_first(front, orders, first);
        assert(front[0] == values[0]);
        assert(front.drop_first() =~= values.drop_first().drop_last());
        assert(values.drop_first().last() == values.last());
        assert(encode_tuple(values.drop_first(), orders, first + 1) == encode_tuple(
            values.drop_first().drop_last(),
            orders,
            first + 1,
        ) + encode(values.last(), order_at(orders, first + 1 + values.drop_first().len() - 1)));
        assert(encode_tuple(values, orders, first) =~= encode(values[0], order_at(orders, first))
            + encode_tuple(values.drop_first(), orders, first + 1));
    }
}

/// Reading the encoding of a tuple gives the tuple back.
pub proof fn lemma_decode_tuple(
    before: Seq<u8>,
    values: Seq<Value>,
    orders: Seq<SortOrder>,
    first: int,
    after: Seq<u8>,
    acc: Seq<Value>,
)
    requires
        tuple_wf(values),
    ensures
        decode_tuple(
            before + encode_tuple(values, orders, first) + after,
            before.len() as int,
            values.len(),
            acc,
        ) == Some((acc + values, (before.len() + encode_tuple(values, orders, first).len()) as int)),
    decreases values.len(),
{
    let whole = before + encode_tuple(values, orders, first) + after;
    if values.len() == 0 {
        assert(acc + values =~= acc);
    } else {
        lemma_encode_tuple_first(values, orders, first);
        let head = encode(values[0], order_at(orders, first));
        let tail = encode_tuple(values.drop_first(), orders, first + 1);
        assert(whole =~= before + head + (tail + after));
        lemma_decode_encode(before, values[0], order_at(orders, first), tail + after);
        assert(whole =~= (before + head) + tail + after);
        assert(tuple_wf(values.drop_first())) by {
            assert forall|i: int| 0 <= i < values.drop_first().len() implies value_wf(
                #[trigger] values.drop_first()[i],
            ) by {
                assert(values.drop_first()[i] == values[i + 1]);
            }
        }
        lemma_decode_tuple(
            before + head,
            values.drop_first(),
            orders,
            first + 1,
            after,
            acc.push(values[0]),
        );
        assert(acc.push(values[0]) + values.drop_first() =~= acc + values);
    }
}

/// The key that a write puts its row under.
pub open spec fn write_key(write: PendingWriteView) -> Seq<u8> {
    write.group + timestamp_suffix(write.timestamp)
}

/// The value that a write puts under its key where the net frequency is `freq`.
pub open spec fn write_value(write: PendingWriteView, freq: i32) -> Seq<u8> {
    write.rest + frequency_suffix(freq)
}

/// The timestamp and the group of the key of a write can be read off it.
pub proof fn lemma_write_key(write: PendingWriteView)
    ensures
        write_key(write).len() == write.group.len() + 8,
        key_group(write_key(write)) == write.group,
        key_timestamp(write_key(write)) == write.timestamp,
{
    let suffix = timestamp_suffix(write.timestamp);
    lemma_be_bytes_len((u64::MAX - write.timestamp) as nat, 8);
    lemma_pow256_values();
    lemma_be_round_trip((u64::MAX - write.timestamp) as nat, 8);
    let key = write_key(write);
    assert(key.subrange(0, key.len() - 8) =~= write.group);
    assert(key.subrange(key.len() - 8, key.len() as int) =~= suffix);
}

/// The frequency of the value of a write can be read off it.
pub proof fn lemma_write_value(write: PendingWriteView, freq: i32)
    ensures
        write_value(write, freq).len() == write.rest.len() + 4,
        value_frequency(write_value(write, freq)) == freq,
        write_value(write, freq).subrange(0, write_value(write, freq).len() - 4) == write.rest,
{
    let raw = (if freq < 0 {
        freq + 0x1_0000_0000
    } else {
        freq as int
    }) as nat;
    lemma_be_bytes_len(raw, 4);
    lemma_pow256_values();
    lemma_be_round_trip(raw, 4);
    let value = write_value(write, freq);
    assert(value.subrange(value.len() - 4, value.len() as int) =~= frequency_suffix(freq));
    assert(value.subrange(0, value.len() - 4) =~= write.rest);
}

/// The key and the value that a row is written under hold the row.
pub proof fn lemma_row_decodes(table: Table, row: Seq<Value>, timestamp: u64, freq: i32, net: i32)
    requires
        row.len() == table.spec_columns().len(),
        tuple_wf(row),
    ensures
        decode_row(
            write_key(row_write(table, row, timestamp, freq)),
            write_value(row_write(table, row, timestamp, freq), net),
            table.key_count(),
            table.spec_columns().len(),
        ) == Some((row, net)),
        write_key(row_write(table, row, timestamp, freq)).len() >= 12,
{
    let write = row_write(table, row, timestamp, freq);
    let keys = table.key_count() as int;
    let key_values = row.subrange(0, keys);
    let rest_values = row.subrange(keys, row.len() as int);
    lemma_write_key(write);
    lemma_write_value(write, net);
    lemma_be_bytes_len(table.spec_id() as nat, 4);
    let prefix = table_prefix(table.spec_id());
    let encoded = encode_tuple(key_values, table.spec_pk(), 0);
    assert(write.group =~= prefix + encoded + Seq::<u8>::empty());
    assert(tuple_wf(key_values));
    assert(tuple_wf(rest_values));
    lemma_decode_tuple(prefix, key_values, table.spec_pk(), 0, Seq::empty(), Seq::empty());
    assert(Seq::<Value>::empty() + key_values =~= key_values);
    let rest_encoded = encode_tuple(rest_values, Seq::empty(), 0);
    assert(write.rest =~= Seq::<u8>::empty() + rest_encoded + Seq::<u8>::empty());
    lemma_decode_tuple(Seq::empty(), rest_values, Seq::empty(), 0, Seq::empty(), key_values);
    assert(key_values + rest_values =~= row);
}

/// What a scan looks for under the primary key of a row at a time.
pub open spec fn point_range(table: Table, row: Seq<Value>, at: u64) -> ScanRange {
    ScanRange {
        table: table.spec_id(),
        lower: Some(encode_tuple(row.subrange(0, table.key_count() as int), table.spec_pk(), 0)),
        upper: Some(encode_tuple(row.subrange(0, table.key_count() as int), table.spec_pk(), 0)),
        at,
    }
}

/// Whether a store holds nothing under the primary key of a row.
pub open spec fn key_is_free(store: Store, table: Table, row: Seq<Value>) -> bool {
    forall|i: int| 0 <= i < store.len() ==> !in_range((#[trigger] store[i]).0, point_range(table, row, 0))
}

/// A byte string comes before itself with a byte after it.
pub proof fn lemma_compare_pushed(s: Seq<u8>, b: u8)
    ensures
        bytes_compare(s, s.push(b)) == Comparison::Less,
{
    lemma_mismatch_at(s, s.push(b), 0, s.len() as int);
}

/// The key that a row is written under lies within the bounds of a scan
/// under the primary key of the row.
pub proof fn lemma_written_key_in_range(table: Table, row: Seq<Value>, timestamp: u64, freq: i32, at: u64)
    ensures
        in_range(write_key(row_write(table, row, timestamp, freq)), point_range(table, row, at)),
{
    let write = row_write(table, row, timestamp, freq);
    let key = write_key(write);
    lemma_write_key(write);
    lemma_be_bytes_len(table.spec_id() as nat, 4);
    let encoded = encode_tuple(row.subrange(0, table.key_count() as int), table.spec_pk(), 0);
    assert(key.subrange(0, 4) =~= table_prefix(table.spec_id()));
    assert(key.subrange(4, key.len() - 8) =~= encoded);
    lemma_compare_equal(encoded, encoded);
    lemma_compare_pushed(encoded, 255u8);
}

/// Whether a key lies within bounds does not depend on the time of the scan.
pub proof fn lemma_in_range_any_time(key: Seq<u8>, table: Table, row: Seq<Value>, a: u64, b: u64)
    ensures
        in_range(key, point_range(table, row, a)) == in_range(key, point_range(table, row, b)),
{
}

/// A scan passes over entries that lie outside its bounds.
pub proof fn lemma_scan_skips(
    entries: Store,
    from: int,
    to: int,
    current: Option<Seq<u8>>,
    taken: bool,
    range: ScanRange,
    keys: nat,
    columns: nat,
    acc: Seq<(Seq<Value>, i32)>,
)
    requires
        0 <= from <= to <= entries.len(),
        forall|i: int| from <= i < to ==> !in_range((#[trigger] entries[i]).0, range),
    ensures
        scan_from(entries, from, current, taken, range, keys, columns, acc) == scan_from(
            entries,
            to,
            current,
            taken,
            range,
            keys,
            columns,
            acc,
        ),
    decreases to - from,
{
    if from < to {
        lemma_scan_skips(entries, from + 1, to, current, taken, range, keys, columns, acc);
    }
}

/// Where no entry from `from` on belongs to a group, no version of the
/// group is visible.
pub proof fn lemma_nothing_visible(entries: Store, group: Seq<u8>, at: u64, from: int)
    requires
        0 <= from,
        forall|i: int|
            from <= i < entries.len() ==> !((#[trigger] entries[i]).0.len() >= 8 && key_group(
                entries[i].0,
            ) == group),
    ensures
        visible_frequency(entries, group, at, from) == 0,
    decreases entries.len() - from,
{
    if from < entries.len() {
        lemma_nothing_visible(entries, group, at, from + 1);
    }
}

/// Where the first entry of a group stands at `first` and is not younger
/// than the time asked for, its frequency is the visible one.
pub proof fn lemma_visible_at(entries: Store, group: Seq<u8>, at: u64, from: int, first: int)
    requires
        0 <= from <= first < entries.len(),
        forall|i: int|
            from <= i < first ==> !((#[trigger] entries[i]).0.len() >= 8 && key_group(
                entries[i].0,
            ) == group),
        entries[first].0.len() >= 8,
        entries[first].1.len() >= 4,
        key_group(entries[first].0) == group,
        key_timestamp(entries[first].0) <= at,
    ensures
        visible_frequency(entries, group, at, from) == value_frequency(entries[first].1),
    decreases first - from,
{
    if from < first {
        lemma_visible_at(entries, group, at, from + 1, first);
    }
}

/// A key of a group lies within the bounds of a scan under the primary
/// key that the group stands for.
pub proof fn lemma_group_in_range(key: Seq<u8>, table: Table, row: Seq<Value>)
    requires
        key.len() >= 8,
        key_group(key) == row_write(table, row, 0, 0).group,
    ensures
        in_range(key, point_range(table, row, 0)),
{
    let group = row_write(table, row, 0, 0).group;
    lemma_be_bytes_len(table.spec_id() as nat, 4);
    let encoded = encode_tuple(row.subrange(0, table.key_count() as int), table.spec_pk(), 0);
    assert(group.len() == 4 + encoded.len());
    assert(key.subrange(0, key.len() - 8) == group);
    assert(key.subrange(0, 4) =~= table_prefix(table.spec_id())) by {
        assert(group.subrange(0, 4) =~= table_prefix(table.spec_id()));
        assert(key.subrange(0, 4) =~= group.subrange(0, 4));
    }
    assert(key.subrange(4, key.len() - 8) =~= encoded) by {
        assert(group.subrange(4, group.len() as int) =~= encoded);
        assert(key.subrange(4, key.len() - 8) =~= group.subrange(4, group.len() as int));
    }
    lemma_compare_equal(encoded, encoded);
    lemma_compare_pushed(encoded, 255u8);
}

/// The keys of one row at two times stand in the order of the times, the
/// later first.
pub proof fn lemma_later_key_first(group: Seq<u8>, earlier: u64, later: u64)
    requires
        earlier < later,
    ensures
        bytes_compare(group + timestamp_suffix(later), group + timestamp_suffix(earlier))
            == Comparison::Less,
{
    lemma_pow256_values();
    lemma_be_order((u64::MAX - later) as nat, (u64::MAX - earlier) as nat, 8);
    lemma_compare_common_prefix(group, timestamp_suffix(later), timestamp_suffix(earlier));
}

/// Whether the entry at `at` holds a row as written at a time with a net
/// frequency, and no other entry lies under the primary key of the row.
pub open spec fn holds_only(
    store: Store,
    at: int,
    table: Table,
    row: Seq<Value>,
    timestamp: u64,
    net: i32,
) -> bool {
    &&& 0 <= at < store.len()
    &&& store[at] == (
        write_key(row_write(table, row, timestamp, 0)),
        write_value(row_write(table, row, timestamp, 0), net),
    )
    &&& forall|i: int|
        0 <= i < store.len() && i != at ==> !in_range(
            (#[trigger] store[i]).0,
            point_range(table, row, 0),
        )
}

/// Writing a row into a store that holds nothing under its primary key
/// puts one entry there, with the frequency written.
pub proof fn lemma_first_write(store: Store, table: Table, row: Seq<Value>, timestamp: u64, freq: i32)
    requires
        key_is_free(store, table, row),
    ensures
        holds_only(
            apply_write(store, row_write(table, row, timestamp, freq)),
            lower_bound(store, write_key(row_write(table, row, timestamp, freq)), 0),
            table,
            row,
            timestamp,
            freq,
        ),
{
    let w1 = row_write(table, row, timestamp, freq);
    let group = w1.group;
    assert(row_write(table, row, 0, 0).group == group);
    assert(row_write(table, row, timestamp, 0).group == group);
    let probe = point_range(table, row, 0);
    assert forall|i: int| 0 <= i < store.len() implies !((#[trigger] store[i]).0.len() >= 8
        && key_group(store[i].0) == group) by {
        if store[i].0.len() >= 8 && key_group(store[i].0) == group {
            lemma_group_in_range(store[i].0, table, row);
        }
    }
    lemma_nothing_visible(store, group, timestamp, 0);
    assert(clamp_frequency(0 + freq) == freq);
    let k1 = write_key(w1);
    let v1 = write_value(w1, freq);
    lemma_written_key_in_range(table, row, timestamp, freq, 0);
    let a = lower_bound(store, k1, 0);
    lemma_lower_bound(store, k1, 0);
    assert(!(0 <= a < store.len() && store[a].0 == k1));
    let s1 = store.insert(a, (k1, v1));
    assert(apply_write(store, w1) == s1);
    assert forall|i: int| 0 <= i < s1.len() && i != a implies !in_range(
        (#[trigger] s1[i]).0,
        probe,
    ) by {
        if i < a {
            assert(s1[i] == store[i]);
        } else {
            assert(s1[i] == store[i - 1]);
        }
    }
}

/// A scan under the primary key of a row finds the row where one entry
/// holds it and no other entry lies under the key.
pub proof fn lemma_scan_finds(
    store: Store,
    at: int,
    table: Table,
    row: Seq<Value>,
    timestamp: u64,
    net: i32,
)
    requires
        row.len() == table.spec_columns().len(),
        tuple_wf(row),
        holds_only(store, at, table, row, timestamp, net),
        net != 0,
    ensures
        scan(
            store,
            point_range(table, row, timestamp),
            table.key_count(),
            table.spec_columns().len(),
        ) == Some(seq![(row, net)]),
{
    let keys = table.key_count();
    let columns = table.spec_columns().len();
    let w = row_write(table, row, timestamp, 0);
    let range = point_range(table, row, timestamp);
    let k = write_key(w);
    let v = write_value(w, net);
    lemma_write_key(w);
    lemma_write_value(w, net);
    lemma_written_key_in_range(table, row, timestamp, 0, timestamp);
    lemma_row_decodes(table, row, timestamp, 0, net);
    assert forall|i: int| 0 <= i < store.len() && i != at implies !in_range(
        (#[trigger] store[i]).0,
        range,
    ) by {
        lemma_in_range_any_time(store[i].0, table, row, 0, timestamp);
    }
    let none = Seq::<(Seq<Value>, i32)>::empty();
    lemma_scan_skips(store, 0, at, None, false, range, keys, columns, none);
    lemma_scan_skips(
        store,
        at + 1,
        store.len() as int,
        Some(w.group),
        true,
        range,
        keys,
        columns,
        none.push((row, net)),
    );
    assert(none.push((row, net)) =~= seq![(row, net)]);
}

/// Where one entry holds a row with frequency 1 and no other entry lies
/// under its primary key, writing the row with frequency -1 at a later
/// time leaves nothing for a scan under the key at that time.
pub proof fn lemma_retract(
    store: Store,
    at: int,
    table: Table,
    row: Seq<Value>,
    timestamp: u64,
    later: u64,
)
    requires
        holds_only(store, at, table, row, timestamp, 1i32),
        timestamp < later,
    ensures
        scan(
            apply_write(store, row_write(table, row, later, -1i32)),
            point_range(table, row, later),
            table.key_count(),
            table.spec_columns().len(),
        ) == Some(Seq::<(Seq<Value>, i32)>::empty()),
{
    let keys = table.key_count();
    let columns = table.spec_columns().len();
    let w1 = row_write(table, row, timestamp, 0);
    let w2 = row_write(table, row, later, -1i32);
    let group = w1.group;
    assert(w2.group == group);
    assert(row_write(table, row, 0, 0).group == group);
    let probe = point_range(table, row, 0);
    let range = point_range(table, row, later);
    let k1 = write_key(w1);
    let v1 = write_value(w1, 1i32);
    lemma_write_key(w1);
    lemma_write_value(w1, 1i32);
    lemma_written_key_in_range(table, row, timestamp, 0, 0);
    assert forall|i: int| 0 <= i < at implies !((#[trigger] store[i]).0.len() >= 8 && key_group(
        store[i].0,
    ) == group) by {
        if store[i].0.len() >= 8 && key_group(store[i].0) == group {
            lemma_group_in_range(store[i].0, table, row);
        }
    }
    lemma_visible_at(store, group, later, 0, at);
    assert(visible_frequency(store, group, later, 0) == 1);
    assert(clamp_frequency(1 + (-1i32)) == 0);
    let k2 = write_key(w2);
    let v2 = write_value(w2, 0i32);
    lemma_write_key(w2);
    lemma_write_value(w2, 0i32);
    lemma_written_key_in_range(table, row, later, -1i32, 0);
    lemma_later_key_first(group, timestamp, later);
    lemma_compare_reverse(k2, k1);
    lemma_compare_equal(k2, k1);
    let b = lower_bound(store, k2, 0);
    lemma_lower_bound(store, k2, 0);
    assert(b <= at) by {
        if at < b {
            assert(bytes_compare(store[at].0, k2) == Comparison::Less);
        }
    }
    assert(!(0 <= b < store.len() && store[b].0 == k2)) by {
        if 0 <= b < store.len() && store[b].0 == k2 {
            if b != at {
                assert(!in_range(store[b].0, probe));
            }
        }
    }
    let s2 = store.insert(b, (k2, v2));
    assert(apply_write(store, w2) == s2);
    assert(s2[b] == (k2, v2));
    assert(s2[at + 1] == (k1, v1));
    assert forall|i: int| 0 <= i < s2.len() && i != b && i != at + 1 implies !in_range(
        (#[trigger] s2[i]).0,
        range,
    ) by {
        if i < b {
            assert(s2[i] == store[i]);
        } else {
            assert(s2[i] == store[i - 1]);
        }
        lemma_in_range_any_time(s2[i].0, table, row, 0, later);
    }
    lemma_in_range_any_time(k1, table, row, 0, later);
    lemma_in_range_any_time(k2, table, row, 0, later);
    let none = Seq::<(Seq<Value>, i32)>::empty();
    lemma_scan_skips(s2, 0, b, None, false, range, keys, columns, none);
    lemma_scan_skips(s2, b + 1, at + 1, Some(group), true, range, keys, columns, none);
    lemma_scan_skips(s2, at + 2, s2.len() as int, Some(group), true, range, keys, columns, none);
    assert(scan_from(s2, b, None, false, range, keys, columns, none) == scan_from(
        s2,
        b + 1,
        Some(group),
        true,
        range,
        keys,
        columns,
        none,
    ));
    assert(scan_from(s2, at + 1, Some(group), true, range, keys, columns, none) == scan_from(
        s2,
        at + 2,
        Some(group),
        true,
        range,
        keys,
        columns,
        none,
    ));
}

/// Round trip: into a store that holds nothing under the primary key of a
/// row, the row is written with frequency 1 at a time. A scan under that
/// key at that time then yields the row, once, with frequency 1. The row is
/// then written with frequency -1 at the next time. A scan under the key
/// at that next time then yields nothing.
pub proof fn lemma_insert_then_retract(store: Store, table: Table, row: Seq<Value>, timestamp: u64)
    requires
        row.len() == table.spec_columns().len(),
        tuple_wf(row),
        timestamp < u64::MAX,
        key_is_free(store, table, row),
    ensures
        scan(
            apply_write(store, row_write(table, row, timestamp, 1)),
            point_range(table, row, timestamp),
            table.key_count(),
            table.spec_columns().len(),
        ) == Some(seq![(row, 1i32)]),
        scan(
            apply_write(
                apply_write(store, row_write(table, row, timestamp, 1)),
                row_write(table, row, (timestamp + 1) as u64, -1i32),
            ),
            point_range(table, row, (timestamp + 1) as u64),
            table.key_count(),
            table.spec_columns().len(),
        ) == Some(Seq::<(Seq<Value>, i32)>::empty()),
{
    let w1 = row_write(table, row, timestamp, 1);
    let s1 = apply_write(store, w1);
    let at = lower_bound(store, write_key(w1), 0);
    lemma_first_write(store, table, row, timestamp, 1);
    lemma_scan_finds(s1, at, table, row, timestamp, 1i32);
    lemma_retract(s1, at, table, row, timestamp, (timestamp + 1) as u64);
}

} // verus!
