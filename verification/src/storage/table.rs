//! Table handles, scans at a point in time and write batches.

use vstd::prelude::*;
use crate::data::{Comparison, DataType, Datum, LogicalTimestamp, SortOrder, Value};
use crate::data::datum::{bytes_compare, compare_bytes};
use crate::data::encoding_core::push_be;
use crate::data::text::{bytes_eq, to_vec};
use crate::data::tuple_iter::{rows_view, tuple_view, Row, TupleIter};
use crate::storage::error::StorageError;
use crate::storage::layout::{
    decode_row,
    encode_tuple,
    frequency_suffix,
    key_group,
    key_timestamp,
    push_frequency,
    push_timestamp,
    push_tuple,
    read_frequency,
    read_row,
    read_timestamp,
    table_prefix,
    timestamp_suffix,
    value_frequency,
};
use crate::storage::store::{put, Storage};

verus! {

/// A handle on a table: its id, its columns and the order of each of its
/// primary-key columns, which are the first columns. Making one reads and
/// writes nothing.
#[derive(Debug, PartialEq, Eq)]
pub struct Table {
    id: u32,
    columns: Vec<(String, DataType)>,
    pk: Vec<SortOrder>,
}

/// A copy of a list of columns.
pub fn clone_columns(columns: &[(String, DataType)]) -> (r: Vec<(String, DataType)>)
    ensures
        r@.len() == columns@.len(),
        forall|i: int|
            0 <= i < r@.len() ==> (#[trigger] r@[i]).0@ == columns@[i].0@ && r@[i].1
                == columns@[i].1,
{
    let mut r: Vec<(String, DataType)> = Vec::new();
    let mut i: usize = 0;
    while i < columns.len()
        invariant
            i <= columns@.len(),
            r@.len() == i,
            forall|j: int|
                0 <= j < i ==> (#[trigger] r@[j]).0@ == columns@[j].0@ && r@[j].1 == columns@[j].1,
        decreases columns@.len() - i,
    {
        r.push((columns[i].0.clone(), columns[i].1));
        i += 1;
    }
    r
}

/// A copy of a list of sort orders.
pub fn clone_orders(orders: &[SortOrder]) -> (r: Vec<SortOrder>)
    ensures
        r@ == orders@,
{
    let mut r: Vec<SortOrder> = Vec::new();
    let mut i: usize = 0;
    while i < orders.len()
        invariant
            i <= orders@.len(),
            r@ == orders@.subrange(0, i as int),
        decreases orders@.len() - i,
    {
        r.push(orders[i]);
        assert(r@ =~= orders@.subrange(0, i + 1));
        i += 1;
    }
    assert(orders@.subrange(0, i as int) =~= orders@);
    r
}

impl Table {
    pub closed spec fn spec_id(self) -> u32 {
        self.id
    }

    pub closed spec fn spec_columns(self) -> Seq<(String, DataType)> {
        self.columns@
    }

    pub closed spec fn spec_pk(self) -> Seq<SortOrder> {
        self.pk@
    }

    /// The number of primary-key columns: one for each sort order, but no
    /// more than there are columns.
    pub open spec fn key_count(self) -> nat {
        if self.spec_pk().len() <= self.spec_columns().len() {
            self.spec_pk().len()
        } else {
            self.spec_columns().len()
        }
    }

    pub fn new(id: u32, columns: Vec<(String, DataType)>, pk: Vec<SortOrder>) -> (t: Table)
        ensures
            t.spec_id() == id,
            t.spec_columns() == columns@,
            t.spec_pk() == pk@,
    {
        Table { id, columns, pk }
    }

    pub fn id(&self) -> (id: u32)
        ensures
            id == self.spec_id(),
    {
        self.id
    }

    pub fn columns(&self) -> (columns: &[(String, DataType)])
        ensures
            columns@ == self.spec_columns(),
    {
        self.columns.as_slice()
    }

    /// The sort order of each primary-key column.
    pub fn pk(&self) -> (pk: &[SortOrder])
        ensures
            pk@ == self.spec_pk(),
    {
        self.pk.as_slice()
    }

    fn keys(&self) -> (n: usize)
        ensures
            n == self.key_count(),
            n <= self.spec_columns().len(),
    {
        if self.pk.len() <= self.columns.len() {
            self.pk.len()
        } else {
            self.columns.len()
        }
    }
}

impl Clone for Table {
    fn clone(&self) -> (t: Self)
        ensures
            t.spec_id() == self.spec_id(),
            t.spec_pk() == self.spec_pk(),
            t.spec_columns().len() == self.spec_columns().len(),
            forall|i: int|
                0 <= i < t.spec_columns().len() ==> (#[trigger] t.spec_columns()[i]).0@
                    == self.spec_columns()[i].0@ && t.spec_columns()[i].1
                    == self.spec_columns()[i].1,
    {
        Table {
            id: self.id,
            columns: clone_columns(self.columns.as_slice()),
            pk: clone_orders(self.pk.as_slice()),
        }
    }
}

/// What a scan looks for: the rows of one table whose primary key lies
/// between two bounds, as they stood at a logical time. A bound is the
/// encoding of the first columns of a primary key; the upper bound takes in
/// every key that starts with it.
pub struct ScanRange {
    pub table: u32,
    pub lower: Option<Seq<u8>>,
    pub upper: Option<Seq<u8>>,
    pub at: u64,
}

/// Whether a key belongs to the table of the range and lies within its bounds.
pub open spec fn in_range(key: Seq<u8>, range: ScanRange) -> bool {
    &&& key.len() >= 12
    &&& key.subrange(0, 4) == table_prefix(range.table)
    &&& (range.lower matches Some(lower) ==> bytes_compare(
        lower,
        key.subrange(4, key.len() - 8),
    ) != Comparison::Greater)
    &&& (range.upper matches Some(upper) ==> bytes_compare(
        key.subrange(4, key.len() - 8),
        upper.push(255u8),
    ) != Comparison::Greater)
}

/// The rows that a scan finds from entry `i` on, added to `acc`.
///
/// The entries are visited in key order. Those of one row follow each other,
/// the newest version first: `current` is the row being visited and `taken`
/// tells whether its version has been chosen. Of each row the first version
/// that is not younger than the time of the scan is chosen, and it is handed
/// out unless its frequency is zero. The result is nothing where a chosen
/// version does not decode.
pub open spec fn scan_from(
    entries: Seq<(Seq<u8>, Seq<u8>)>,
    i: int,
    current: Option<Seq<u8>>,
    taken: bool,
    range: ScanRange,
    keys: nat,
    columns: nat,
    acc: Seq<(Seq<Value>, i32)>,
) -> Option<Seq<(Seq<Value>, i32)>>
    decreases entries.len() - i,
{
    if i < 0 || i >= entries.len() {
        Some(acc)
    } else {
        let key = entries[i].0;
        let value = entries[i].1;
        if !in_range(key, range) {
            scan_from(entries, i + 1, current, taken, range, keys, columns, acc)
        } else {
            let group = key_group(key);
            let taken_before = current == Some(group) && taken;
            if !taken_before && key_timestamp(key) <= range.at {
                if value.len() >= 4 && value_frequency(value) == 0 {
                    scan_from(entries, i + 1, Some(group), true, range, keys, columns, acc)
                } else {
                    match decode_row(key, value, keys, columns) {
                        Some(row) => scan_from(
                            entries,
                            i + 1,
                            Some(group),
                            true,
                            range,
                            keys,
                            columns,
                            acc.push(row),
                        ),
                        None => None,
                    }
                }
            } else {
                scan_from(entries, i + 1, Some(group), taken_before, range, keys, columns, acc)
            }
        }
    }
}

/// The rows that a scan of the whole store finds.
pub open spec fn scan(entries: Seq<(Seq<u8>, Seq<u8>)>, range: ScanRange, keys: nat, columns: nat)
    -> Option<Seq<(Seq<Value>, i32)>> {
    scan_from(entries, 0, None, false, range, keys, columns, Seq::empty())
}

/// The frequency of the newest version of a row that is not younger than
/// `at`, looked for from entry `i` on; zero where there is none.
pub open spec fn visible_frequency(
    entries: Seq<(Seq<u8>, Seq<u8>)>,
    group: Seq<u8>,
    at: u64,
    i: int,
) -> i32
    decreases entries.len() - i,
{
    if i < 0 || i >= entries.len() {
        0
    } else {
        let key = entries[i].0;
        let value = entries[i].1;
        if key.len() >= 8 && value.len() >= 4 && key_group(key) == group && key_timestamp(key)
            <= at {
            value_frequency(value)
        } else {
            visible_frequency(entries, group, at, i + 1)
        }
    }
}

/// A row waiting in a batch: the key without its timestamp, the encoded
/// columns that are no part of the key, the timestamp and the frequency.
#[derive(Debug)]
pub struct PendingWrite {
    pub group: Vec<u8>,
    pub rest: Vec<u8>,
    pub timestamp: u64,
    pub freq: i32,
}

/// The view of a pending write.
pub struct PendingWriteView {
    pub group: Seq<u8>,
    pub rest: Seq<u8>,
    pub timestamp: u64,
    pub freq: i32,
}

impl View for PendingWrite {
    type V = PendingWriteView;

    open spec fn view(&self) -> PendingWriteView {
        PendingWriteView {
            group: self.group@,
            rest: self.rest@,
            timestamp: self.timestamp,
            freq: self.freq,
        }
    }
}

/// A sum of frequencies, held within 32 bits.
pub open spec fn clamp_frequency(sum: int) -> i32 {
    if sum > i32::MAX {
        i32::MAX
    } else if sum < i32::MIN {
        i32::MIN
    } else {
        sum as i32
    }
}

/// The entries after one row has been written: a new version of the row at
/// the timestamp of the write, whose frequency is that of the version
/// visible until then plus the frequency written.
pub open spec fn apply_write(entries: Seq<(Seq<u8>, Seq<u8>)>, write: PendingWriteView) -> Seq<
    (Seq<u8>, Seq<u8>),
> {
    put(
        entries,
        write.group + timestamp_suffix(write.timestamp),
        write.rest + frequency_suffix(
            clamp_frequency(
                visible_frequency(entries, write.group, write.timestamp, 0) + write.freq,
            ),
        ),
    )
}

/// The entries after the writes of a batch from `i` on, in their order.
pub open spec fn apply_writes(
    entries: Seq<(Seq<u8>, Seq<u8>)>,
    writes: Seq<PendingWriteView>,
    i: int,
) -> Seq<(Seq<u8>, Seq<u8>)>
    decreases writes.len() - i,
{
    if i < 0 || i >= writes.len() {
        entries
    } else {
        apply_writes(apply_write(entries, writes[i]), writes, i + 1)
    }
}

/// Rows to be written together: all of them or none.
#[derive(Debug)]
pub struct WriteBatch {
    writes: Vec<PendingWrite>,
}

impl View for WriteBatch {
    type V = Seq<PendingWriteView>;

    closed spec fn view(&self) -> Seq<PendingWriteView> {
        Seq::new(self.writes@.len(), |i: int| self.writes@[i]@)
    }
}

/// The write that stands for a row of a table.
pub open spec fn row_write(
    table: Table,
    tuple: Seq<Value>,
    timestamp: u64,
    freq: i32,
) -> PendingWriteView {
    PendingWriteView {
        group: table_prefix(table.spec_id()) + encode_tuple(
            tuple.subrange(0, table.key_count() as int),
            table.spec_pk(),
            0,
        ),
        rest: encode_tuple(
            tuple.subrange(table.key_count() as int, tuple.len() as int),
            Seq::empty(),
            0,
        ),
        timestamp,
        freq,
    }
}

impl WriteBatch {
    pub fn new() -> (b: WriteBatch)
        ensures
            b@ == Seq::<PendingWriteView>::empty(),
    {
        let b = WriteBatch { writes: Vec::new() };
        assert(b@ =~= Seq::<PendingWriteView>::empty());
        b
    }

    /// Adds one versioned row to the batch; a frequency of -1 takes the row
    /// back. A tuple with another number of datums than the table has
    /// columns is refused and the batch left as it was.
    pub fn write_tuple(
        &mut self,
        table: &Table,
        tuple: &[Datum],
        timestamp: LogicalTimestamp,
        freq: i32,
    ) -> (r: Result<(), StorageError>)
        ensures
            r is Ok <==> tuple@.len() == table.spec_columns().len(),
            r is Ok ==> final(self)@ == old(self)@.push(
                row_write(
                    *table,
                    Seq::new(tuple@.len(), |i: int| tuple@[i]@),
                    timestamp.ms,
                    freq,
                ),
            ),
            r is Err ==> final(self)@ == old(self)@,
    {
        if tuple.len() != table.columns.len() {
            return Err(StorageError::KeyValue("tuple does not match the table".to_owned()));
        }
        let keys = table.keys();
        let ghost values = Seq::new(tuple@.len(), |i: int| tuple@[i]@);
        let mut group: Vec<u8> = Vec::new();
        push_be(&mut group, table.id as u128, 4);
        push_tuple(&mut group, tuple, 0, keys, table.pk.as_slice(), 0);
        let mut rest: Vec<u8> = Vec::new();
        let no_orders: Vec<SortOrder> = Vec::new();
        push_tuple(&mut rest, tuple, keys, tuple.len(), no_orders.as_slice(), 0);
        proof {
            assert(Seq::new((keys - 0) as nat, |i: int| tuple@[0 + i]@) =~= values.subrange(
                0,
                keys as int,
            ));
            assert(Seq::new((tuple@.len() - keys) as nat, |i: int| tuple@[keys + i]@)
                =~= values.subrange(keys as int, values.len() as int));
            assert(no_orders@ =~= Seq::<SortOrder>::empty());
        }
        let write = PendingWrite { group, rest, timestamp: timestamp.ms, freq };
        let ghost before = self@;
        self.writes.push(write);
        assert(self@ =~= before.push(row_write(*table, values, timestamp.ms, freq)));
        Ok(())
    }
}

impl Storage {
    /// Returns a handle on the table with the given id, columns and
    /// primary-key orders. Nothing is read or written.
    pub fn table(&self, id: u32, columns: Vec<(String, DataType)>, pk: Vec<SortOrder>) -> (t:
        Table)
        ensures
            t.spec_id() == id,
            t.spec_columns() == columns@,
            t.spec_pk() == pk@,
    {
        Table::new(id, columns, pk)
    }

    /// The frequency of the newest version of a row that is not younger than `at`.
    fn current_frequency(&self, group: &[u8], at: u64) -> (freq: i32)
        ensures
            freq == visible_frequency(self@, group@, at, 0),
    {
        let mut i: usize = 0;
        let n = self.len();
        while i < n
            invariant
                i <= n,
                n == self@.len(),
                visible_frequency(self@, group@, at, 0) == visible_frequency(
                    self@,
                    group@,
                    at,
                    i as int,
                ),
            decreases n - i,
        {
            let entry = self.entry(i);
            let key = entry.key.as_slice();
            let value = entry.value.as_slice();
            if key.len() >= 8 && value.len() >= 4 {
                let entry_group = vstd::slice::slice_subrange(key, 0, key.len() - 8);
                if bytes_eq(entry_group, group) && read_timestamp(key) <= at {
                    return read_frequency(value);
                }
            }
            i += 1;
        }
        0
    }

    /// Writes one row of a batch.
    fn write(&mut self, write: &PendingWrite)
        ensures
            final(self)@ == apply_write(old(self)@, write@),
            old(self).wf() ==> final(self).wf(),
    {
        let prior = self.current_frequency(write.group.as_slice(), write.timestamp);
        let sum: i64 = prior as i64 + write.freq as i64;
        let net: i32 = if sum > i32::MAX as i64 {
            i32::MAX
        } else if sum < i32::MIN as i64 {
            i32::MIN
        } else {
            sum as i32
        };
        let mut key = to_vec(write.group.as_slice());
        push_timestamp(&mut key, LogicalTimestamp::new(write.timestamp));
        let mut value = to_vec(write.rest.as_slice());
        push_frequency(&mut value, net);
        self.put(key, value);
    }

    /// Writes the rows of a batch, in their order, as one change: each row
    /// becomes a new version at its timestamp, whose frequency is that of
    /// the version visible until then plus the frequency written.
    pub fn atomic_write(&mut self, batch: WriteBatch)
        ensures
            final(self)@ == apply_writes(old(self)@, batch@, 0),
            old(self).wf() ==> final(self).wf(),
    {
        let mut i: usize = 0;
        while i < batch.writes.len()
            invariant
                i <= batch.writes@.len(),
                old(self).wf() ==> self.wf(),
                apply_writes(old(self)@, batch@, 0) == apply_writes(self@, batch@, i as int),
            decreases batch.writes@.len() - i,
        {
            self.write(&batch.writes[i]);
            i += 1;
        }
    }
}

/// The encoding of a bound of a scan.
pub open spec fn bound_view(bound: Option<&[Datum]>, orders: Seq<SortOrder>) -> Option<Seq<u8>> {
    match bound {
        Some(tuple) => Some(
            encode_tuple(Seq::new(tuple@.len(), |i: int| tuple@[i]@), orders, 0),
        ),
        None => None,
    }
}

fn encode_bound(bound: Option<&[Datum]>, orders: &[SortOrder]) -> (r: Option<Vec<u8>>)
    ensures
        match r {
            Some(bytes) => bound_view(bound, orders@) == Some(bytes@),
            None => bound_view(bound, orders@) is None,
        },
{
    match bound {
        Some(tuple) => {
            let mut bytes: Vec<u8> = Vec::new();
            push_tuple(&mut bytes, tuple, 0, tuple.len(), orders, 0);
            assert(Seq::new((tuple@.len() - 0) as nat, |i: int| tuple@[0 + i]@) =~= Seq::new(
                tuple@.len(),
                |i: int| tuple@[i]@,
            ));
            Some(bytes)
        },
        None => None,
    }
}

/// Whether the key at hand belongs to the table and lies within the bounds.
fn key_in_range(key: &[u8], table: u32, lower: &Option<Vec<u8>>, upper: &Option<Vec<u8>>) -> (r:
    bool)
    ensures
        r == in_range(
            key@,
            ScanRange {
                table,
                lower: match lower {
                    Some(l) => Some(l@),
                    None => None,
                },
                upper: match upper {
                    Some(u) => Some(u@),
                    None => None,
                },
                at: 0,
            },
        ),
{
    if key.len() < 12 {
        return false;
    }
    let mut prefix: Vec<u8> = Vec::new();
    push_be(&mut prefix, table as u128, 4);
    if !bytes_eq(vstd::slice::slice_subrange(key, 0, 4), prefix.as_slice()) {
        return false;
    }
    let pk = vstd::slice::slice_subrange(key, 4, key.len() - 8);
    match lower {
        Some(l) => {
            if compare_bytes(l.as_slice(), pk) == Comparison::Greater {
                return false;
            }
        },
        None => {},
    }
    match upper {
        Some(u) => {
            let mut bound = to_vec(u.as_slice());
            bound.push(255);
            if compare_bytes(pk, bound.as_slice()) == Comparison::Greater {
                return false;
            }
        },
        None => {},
    }
    true
}

/// What a point lookup hands back of the rows that its scan found: the
/// first row, its primary-key columns apart from the others, or nothing and
/// empty buffers where no row was found.
pub open spec fn point_lookup_result(
    rows: Seq<(Seq<Value>, i32)>,
    found: Option<()>,
    key: Seq<Value>,
    rest: Seq<Value>,
    keys: nat,
) -> bool {
    &&& found is Some <==> rows.len() > 0
    &&& found is Some ==> key + rest == rows[0].0 && key.len() == (if keys <= rows[0].0.len() {
        keys
    } else {
        rows[0].0.len()
    })
    &&& found is None ==> key.len() == 0 && rest.len() == 0
}

impl Table {
    /// What a scan of this table between two bounds at a time looks for.
    pub open spec fn scan_range(
        self,
        lower: Option<&[Datum]>,
        upper: Option<&[Datum]>,
        at: u64,
    ) -> ScanRange {
        ScanRange {
            table: self.spec_id(),
            lower: bound_view(lower, self.spec_pk()),
            upper: bound_view(upper, self.spec_pk()),
            at,
        }
    }

    /// The rows of the table whose primary key lies between `lower` and
    /// `upper`, each in its newest version that is not younger than
    /// `timestamp`, in the order of their keys. A bound may hold only the
    /// first columns of a key.
    pub fn range_scan(
        &self,
        storage: &Storage,
        lower: Option<&[Datum]>,
        upper: Option<&[Datum]>,
        timestamp: LogicalTimestamp,
    ) -> (r: Result<TupleIter, StorageError>)
        ensures
            match r {
                Ok(iter) => scan(
                    storage@,
                    self.scan_range(lower, upper, timestamp.ms),
                    self.key_count(),
                    self.spec_columns().len(),
                ) == Some(iter.remaining()) && iter.current() is None && iter.spec_column_count()
                    == self.spec_columns().len(),
                Err(_) => scan(
                    storage@,
                    self.scan_range(lower, upper, timestamp.ms),
                    self.key_count(),
                    self.spec_columns().len(),
                ) is None,
            },
    {
        let lower_bytes = encode_bound(lower, self.pk.as_slice());
        let upper_bytes = encode_bound(upper, self.pk.as_slice());
        let keys = self.keys();
        let columns = self.columns.len();
        let ghost range = self.scan_range(lower, upper, timestamp.ms);
        let ghost entries = storage@;
        let mut rows: Vec<Row> = Vec::new();
        let mut current: Option<usize> = None;
        let mut taken = false;
        let n = storage.len();
        let mut i: usize = 0;
        assert(rows_view(rows@) =~= Seq::empty());
        while i < n
            invariant
                i <= n,
                n == storage@.len(),
                entries == storage@,
                keys == self.key_count(),
                columns == self.spec_columns().len(),
                range == self.scan_range(lower, upper, timestamp.ms),
                match lower_bytes {
                    Some(bytes) => range.lower == Some(bytes@),
                    None => range.lower is None,
                },
                match upper_bytes {
                    Some(bytes) => range.upper == Some(bytes@),
                    None => range.upper is None,
                },
                range.table == self.id,
                range.at == timestamp.ms,
                current matches Some(j) ==> j < i && entries[j as int].0.len() >= 8,
                scan(entries, range, keys as nat, columns as nat) == scan_from(
                    entries,
                    i as int,
                    match current {
                        Some(j) => Some(key_group(entries[j as int].0)),
                        None => None,
                    },
                    taken,
                    range,
                    keys as nat,
                    columns as nat,
                    rows_view(rows@),
                ),
            decreases n - i,
        {
            let entry = storage.entry(i);
            let key = entry.key.as_slice();
            let value = entry.value.as_slice();
            let inside = key_in_range(key, self.id, &lower_bytes, &upper_bytes);
            proof {
                let probe = ScanRange {
                    table: self.id,
                    lower: range.lower,
                    upper: range.upper,
                    at: 0,
                };
                assert(in_range(key@, probe) == in_range(key@, range));
            }
            if inside {
                let group = vstd::slice::slice_subrange(key, 0, key.len() - 8);
                let same = match current {
                    Some(j) => {
                        let other = storage.entry(j).key.as_slice();
                        bytes_eq(vstd::slice::slice_subrange(other, 0, other.len() - 8), group)
                    },
                    None => false,
                };
                let taken_before = same && taken;
                if !taken_before && read_timestamp(key) <= timestamp.ms {
                    if value.len() >= 4 && read_frequency(value) == 0 {
                        // The row is not there at this time.
                    } else {
                        match read_row(key, value, keys, columns) {
                            Some(row) => {
                                proof {
                                    crate::data::tuple_iter::lemma_rows_view_push(rows@, row);
                                }
                                rows.push(row);
                            },
                            None => {
                                return Err(
                                    StorageError::KeyValue("a stored row does not decode".to_owned()),
                                );
                            },
                        }
                    }
                    taken = true;
                } else {
                    taken = taken_before;
                }
                current = Some(i);
            }
            i += 1;
        }
        Ok(TupleIter::new(rows, columns))
    }

    /// The rows of the table as they stood at `timestamp`.
    pub fn full_scan(&self, storage: &Storage, timestamp: LogicalTimestamp) -> (r: Result<
        TupleIter,
        StorageError,
    >)
        ensures
            match r {
                Ok(iter) => scan(
                    storage@,
                    self.scan_range(None, None, timestamp.ms),
                    self.key_count(),
                    self.spec_columns().len(),
                ) == Some(iter.remaining()) && iter.current() is None && iter.spec_column_count()
                    == self.spec_columns().len(),
                Err(_) => scan(
                    storage@,
                    self.scan_range(None, None, timestamp.ms),
                    self.key_count(),
                    self.spec_columns().len(),
                ) is None,
            },
    {
        self.range_scan(storage, None, None, timestamp)
    }

    /// Looks up the row with the given primary key as it stands now. Where
    /// there is one, `key_buf` takes its primary-key columns and
    /// `value_buf` the others; where there is none the buffers are emptied.
    pub fn system_point_lookup(
        &self,
        storage: &Storage,
        pk: &[Datum],
        key_buf: &mut Vec<Datum<'static>>,
        value_buf: &mut Vec<Datum<'static>>,
    ) -> (r: Result<Option<()>, StorageError>)
        ensures
            match r {
                Ok(found) => scan(
                    storage@,
                    self.scan_range(Some(pk), Some(pk), u64::MAX),
                    self.key_count(),
                    self.spec_columns().len(),
                ) matches Some(rows) && point_lookup_result(
                    rows,
                    found,
                    tuple_view(final(key_buf)@),
                    tuple_view(final(value_buf)@),
                    self.key_count(),
                ),
                Err(_) => scan(
                    storage@,
                    self.scan_range(Some(pk), Some(pk), u64::MAX),
                    self.key_count(),
                    self.spec_columns().len(),
                ) is None,
            },
    {
        key_buf.clear();
        value_buf.clear();
        let keys = self.keys();
        match self.range_scan(storage, Some(pk), Some(pk), LogicalTimestamp::maximum()) {
            Ok(iter) => {
                let ghost found = iter.remaining();
                let mut rows = iter.into_rows();
                if rows.len() == 0 {
                    Ok(None)
                } else {
                    assert(rows_view(rows@)[0] == found[0]);
                    let first = rows.swap_remove(0);
                    let mut tuple = first.0;
                    assert(tuple_view(tuple@) == found[0].0);
                    let cut = if keys <= tuple.len() {
                        keys
                    } else {
                        tuple.len()
                    };
                    let ghost whole = tuple@;
                    let rest = tuple.split_off(cut);
                    assert(tuple_view(tuple@) + tuple_view(rest@) =~= tuple_view(whole));
                    *key_buf = tuple;
                    *value_buf = rest;
                    Ok(Some(()))
                }
            },
            Err(e) => Err(e),
        }
    }
}

} // verus!
