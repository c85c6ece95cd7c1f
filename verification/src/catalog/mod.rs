//! The catalog: the lifecycles and naming of databases and tables.
//!
//! Three system tables describe everything. `prefix_metadata`, keyed by
//! table id, holds the number of columns of each table and the orders of
//! its primary key as a JSON array of booleans. `databases` holds a row per
//! database. `tables`, keyed by database and table name, holds the table
//! id, the columns as a JSON array of name and type pairs, and whether the
//! table belongs to the system.

use vstd::prelude::*;
use vstd::std_specs::hash::DefaultHasherAdditionalSpecFns;
use std::collections::hash_map::DefaultHasher;
use std::hash::Hasher;
use vstd::string::StringSliceAdditionalSpecFns;
use crate::data::{DataType, Datum, LogicalTimestamp, SortOrder, Value};
use crate::data::json::{
    array_items,
    boolean_content,
    encode_array,
    encode_boolean,
    encode_string,
    string_content,
    Json,
    OwnedJson,
};
use crate::data::datum::into_boxed_bytes;
use crate::data::text::{utf8_text};
use crate::storage::{Storage, StorageError, Table, WriteBatch};
use crate::storage::table::{apply_writes, row_write, scan, PendingWriteView, ScanRange};

pub mod error;

pub use error::CatalogError;

verus! {

pub const PREFIX_METADATA_TABLE_ID: u32 = 0;

pub const DATABASES_TABLE_ID: u32 = 2;

pub const TABLES_TABLE_ID: u32 = 4;

/// The number of ids tried for a new table before giving up.
pub const TABLE_ID_PROBES: u32 = 4096;

/// The catalog is responsible for the lifecycles and naming of all the
/// database objects.
#[derive(Debug)]
pub struct Catalog {
    storage: Storage,
    // The lowest level of metadata stored by the catalog.
    // a table of
    // table_id:bigint(pk), column_len:int, pks_sorts:[bool]:json
    prefix_metadata_table: Table,
    // Table listing databases
    // name:text(pk)
    databases_table: Table,
    // Table listing tables
    // database_id:text(pk), table_name:text(pk), table_id:bigint, columns:json, system:bool
    tables_table: Table,
}

/// The number that the id of a new table is picked from: the lower 32
/// bits of what the hasher of std makes of the bytes of the name followed
/// by the byte that ends a text.
pub open spec fn spec_table_seed(name: Seq<u8>) -> u32 {
    (DefaultHasher::spec_finish(seq![name, seq![0xFFu8]]) % 0x1_0000_0000) as u32
}

/// The number that the id of a new table is picked from: a hash of its name.
pub fn table_seed(table_name: &str) -> (seed: u32)
    ensures
        seed == spec_table_seed(table_name.spec_bytes()),
{
    let mut hasher = DefaultHasher::new();
    hasher.write(table_name.as_bytes());
    let end = [0xFFu8];
    hasher.write(end.as_slice());
    assert(end@ =~= seq![0xFFu8]);
    assert(hasher@ =~= seq![table_name.spec_bytes(), seq![0xFFu8]]);
    (hasher.finish() % 0x1_0000_0000) as u32
}

/// The JSON that lists the columns of a table: an array of pairs of name and type.
pub open spec fn columns_json(columns: Seq<(Seq<u8>, DataType)>) -> Seq<u8> {
    encode_array(
        Seq::new(
            columns.len(),
            |i: int|
                encode_array(
                    seq![encode_string(columns[i].0), encode_string(columns[i].1.sql_name(true))],
                ),
        ),
    )
}

/// The JSON that lists the orders of a primary key: an array of booleans,
/// true for descending.
pub open spec fn orders_json(orders: Seq<SortOrder>) -> Seq<u8> {
    encode_array(Seq::new(orders.len(), |i: int| encode_boolean(orders[i] == SortOrder::Desc)))
}

/// The names and types of the columns of a list.
pub open spec fn columns_view(columns: Seq<(String, DataType)>) -> Seq<(Seq<u8>, DataType)> {
    Seq::new(columns.len(), |i: int| (vstd::utf8::encode_utf8(columns[i].0@), columns[i].1))
}

/// The column that an item of the columns JSON describes.
pub open spec fn column_of_item(item: Seq<u8>) -> Option<(Seq<u8>, DataType)> {
    match array_items(item) {
        Some(pair) => if pair.len() == 2 {
            match (string_content(pair[0]), string_content(pair[1])) {
                (Some(name), Some(kind_text)) => match DataType::spec_from_sql_name(kind_text) {
                    Some(datatype) => if vstd::utf8::valid_utf8(name) {
                        Some((name, datatype))
                    } else {
                        None
                    },
                    None => None,
                },
                _ => None,
            }
        } else {
            None
        },
        None => None,
    }
}

/// The row of the `tables` table for a table.
pub open spec fn tables_row(
    database: Seq<u8>,
    table: Seq<u8>,
    id: u32,
    columns: Seq<(Seq<u8>, DataType)>,
    system: bool,
) -> Seq<Value> {
    seq![
        Value::Bytes(database),
        Value::Bytes(table),
        Value::BigInt(id as i64),
        Value::Bytes(columns_json(columns)),
        Value::Boolean(system),
    ]
}

/// The row of the `prefix_metadata` table for a table.
pub open spec fn prefix_row(id: u32, column_count: i32, orders: Seq<SortOrder>) -> Seq<Value> {
    seq![Value::BigInt(id as i64), Value::Integer(column_count), Value::Bytes(orders_json(orders))]
}

/// An id made even by clearing its lowest bit.
pub open spec fn even_id(id: u32) -> u32 {
    if id % 2 == 1 {
        (id - 1) as u32
    } else {
        id
    }
}

/// The id after `id` among the even ids, going round at the end.
pub open spec fn next_id(id: u32) -> u32 {
    if id >= 0xFFFF_FFFE {
        0
    } else {
        (id + 2) as u32
    }
}

/// What a table is: its id, the names and types of its columns, and the
/// orders of its primary-key columns.
pub struct TableModel {
    pub id: u32,
    pub columns: Seq<(Seq<u8>, DataType)>,
    pub pk: Seq<SortOrder>,
}

/// The model of a table.
pub open spec fn table_model(table: Table) -> TableModel {
    TableModel {
        id: table.spec_id(),
        columns: columns_view(table.spec_columns()),
        pk: table.spec_pk(),
    }
}

/// What looking a table up comes to.
pub enum Lookup {
    Found(TableModel),
    /// No table of that name is in the database.
    Missing,
    /// The store cannot be read, or what it holds on the table is not
    /// what the catalog writes.
    Unreadable,
}

/// The number of columns of a row that a point lookup hands back as its
/// key.
pub open spec fn key_part(table: Table, row: Seq<Value>) -> int {
    if table.key_count() <= row.len() {
        table.key_count() as int
    } else {
        row.len() as int
    }
}

/// What looking a table up gave.
pub open spec fn lookup_of(r: Result<Table, CatalogError>) -> Lookup {
    match r {
        Ok(table) => Lookup::Found(table_model(table)),
        Err(CatalogError::TableNotFound(_, _)) => Lookup::Missing,
        Err(_) => Lookup::Unreadable,
    }
}

/// Whether the columns and the key orders of a table can be described
/// in the catalog: there are no more columns than 32 bits count with a
/// sign, and the columns and the orders fit their encodings.
pub open spec fn describable(columns: Seq<(Seq<u8>, DataType)>, orders: Seq<SortOrder>) -> bool {
    &&& columns.len() <= i32::MAX
    &&& orders.len() <= u32::MAX
    &&& forall|k: int| 0 <= k < columns.len() ==> column_fits(#[trigger] columns[k])
}

/// The columns of a system table.
pub open spec fn spec_system_columns(which: u32) -> Seq<(Seq<u8>, DataType)> {
    if which == PREFIX_METADATA_TABLE_ID {
        seq![
            ("table_id".spec_bytes(), DataType::BigInt),
            ("column_len".spec_bytes(), DataType::Integer),
            ("pks_sorts".spec_bytes(), DataType::Json),
        ]
    } else if which == DATABASES_TABLE_ID {
        seq![("name".spec_bytes(), DataType::Text)]
    } else {
        seq![
            ("database_name".spec_bytes(), DataType::Text),
            ("name".spec_bytes(), DataType::Text),
            ("table_id".spec_bytes(), DataType::BigInt),
            ("columns".spec_bytes(), DataType::Json),
            ("system".spec_bytes(), DataType::Boolean),
        ]
    }
}

/// Whether the system tables can be described in the catalog.
pub open spec fn system_describable() -> bool {
    &&& describable(spec_system_columns(PREFIX_METADATA_TABLE_ID), seq![SortOrder::Asc])
    &&& describable(spec_system_columns(DATABASES_TABLE_ID), seq![SortOrder::Asc])
    &&& describable(spec_system_columns(TABLES_TABLE_ID), seq![SortOrder::Asc, SortOrder::Asc])
}

/// A text of ASCII characters has as many bytes as characters.
proof fn lemma_ascii_length(text: &str)
    requires
        text.is_ascii(),
    ensures
        text.spec_bytes().len() == text@.len(),
{
    vstd::utf8::is_ascii_chars_encode_utf8(text@);
}

/// A column whose name and whose type are written in a thousand bytes at
/// most fits the encoding.
proof fn lemma_short_column_fits(column: (Seq<u8>, DataType))
    requires
        column.0.len() <= 1000,
        column.1.sql_name(true).len() <= 1000,
    ensures
        column_fits(column),
{
    let name = encode_string(column.0);
    let kind = encode_string(column.1.sql_name(true));
    crate::data::encoding_core::lemma_be_bytes_len(column.0.len(), 4);
    crate::data::encoding_core::lemma_be_bytes_len(column.1.sql_name(true).len(), 4);
    crate::data::encoding_core::lemma_be_bytes_len(name.len(), 4);
    crate::data::encoding_core::lemma_be_bytes_len(kind.len(), 4);
    crate::data::encoding_core::lemma_be_bytes_len(2, 4);
    let pair = seq![name, kind];
    assert(pair.drop_last() =~= seq![name]);
    assert(seq![name].drop_last() =~= Seq::<Seq<u8>>::empty());
    reveal_with_fuel(crate::data::json::encode_items, 3);
    assert(crate::data::json::encode_items(seq![name]).len() == 4 + name.len());
    assert(crate::data::json::encode_items(pair).len() == 8 + name.len() + kind.len());
}

/// The system tables can be described in the catalog.
pub proof fn lemma_system_describable()
    ensures
        system_describable(),
{
    reveal_strlit("table_id");
    reveal_strlit("column_len");
    reveal_strlit("pks_sorts");
    reveal_strlit("name");
    reveal_strlit("database_name");
    reveal_strlit("columns");
    reveal_strlit("system");
    reveal_strlit("BIGINT");
    reveal_strlit("INTEGER");
    reveal_strlit("JSON");
    reveal_strlit("TEXT");
    reveal_strlit("BOOLEAN");
    lemma_ascii_length("table_id");
    lemma_ascii_length("column_len");
    lemma_ascii_length("pks_sorts");
    lemma_ascii_length("name");
    lemma_ascii_length("database_name");
    lemma_ascii_length("columns");
    lemma_ascii_length("system");
    lemma_ascii_length("BIGINT");
    lemma_ascii_length("INTEGER");
    lemma_ascii_length("JSON");
    lemma_ascii_length("TEXT");
    lemma_ascii_length("BOOLEAN");
    let a = spec_system_columns(PREFIX_METADATA_TABLE_ID);
    let b = spec_system_columns(DATABASES_TABLE_ID);
    let c = spec_system_columns(TABLES_TABLE_ID);
    assert forall|k: int| 0 <= k < a.len() implies column_fits(#[trigger] a[k]) by {
        lemma_short_column_fits(a[k]);
    }
    assert forall|k: int| 0 <= k < b.len() implies column_fits(#[trigger] b[k]) by {
        lemma_short_column_fits(b[k]);
    }
    assert forall|k: int| 0 <= k < c.len() implies column_fits(#[trigger] c[k]) by {
        lemma_short_column_fits(c[k]);
    }
}

/// Whether a store lists a database among the databases of a catalog;
/// nothing where the store cannot be read.
pub open spec fn system_database_listed(store: Seq<(Seq<u8>, Seq<u8>)>, name: Seq<u8>) -> Option<
    bool,
> {
    match scan(
        store,
        ScanRange {
            table: DATABASES_TABLE_ID,
            lower: Some(
                crate::storage::layout::encode_tuple(seq![Value::Bytes(name)], seq![SortOrder::Asc], 0),
            ),
            upper: Some(
                crate::storage::layout::encode_tuple(seq![Value::Bytes(name)], seq![SortOrder::Asc], 0),
            ),
            at: u64::MAX,
        },
        1,
        1,
    ) {
        Some(rows) => Some(rows.len() > 0),
        None => None,
    }
}

fn storage_error(error: StorageError) -> (e: CatalogError)
    ensures
        e == CatalogError::StorageError(error),
{
    CatalogError::StorageError(error)
}

fn corrupt(message: &str) -> (e: CatalogError)
    ensures
        e is StorageError,
{
    CatalogError::StorageError(StorageError::KeyValue(message.to_owned()))
}

impl Catalog {
    /// The store under the catalog.
    pub closed spec fn storage_view(self) -> Seq<(Seq<u8>, Seq<u8>)> {
        self.storage@
    }

    pub closed spec fn spec_databases_table(self) -> Table {
        self.databases_table
    }

    pub closed spec fn spec_tables_table(self) -> Table {
        self.tables_table
    }

    pub closed spec fn spec_prefix_metadata_table(self) -> Table {
        self.prefix_metadata_table
    }

    /// Whether the handles on the system tables are the ones that `new` makes.
    pub closed spec fn wf(self) -> bool {
        &&& self.prefix_metadata_table.spec_id() == PREFIX_METADATA_TABLE_ID
        &&& self.prefix_metadata_table.spec_pk() == seq![SortOrder::Asc]
        &&& self.prefix_metadata_table.spec_columns().len() == 3
        &&& columns_view(self.prefix_metadata_table.spec_columns()) == spec_system_columns(
            PREFIX_METADATA_TABLE_ID,
        )
        &&& self.databases_table.spec_id() == DATABASES_TABLE_ID
        &&& self.databases_table.spec_pk() == seq![SortOrder::Asc]
        &&& self.databases_table.spec_columns().len() == 1
        &&& columns_view(self.databases_table.spec_columns()) == spec_system_columns(
            DATABASES_TABLE_ID,
        )
        &&& self.tables_table.spec_id() == TABLES_TABLE_ID
        &&& self.tables_table.spec_pk() == seq![SortOrder::Asc, SortOrder::Asc]
        &&& self.tables_table.spec_columns().len() == 5
        &&& columns_view(self.tables_table.spec_columns()) == spec_system_columns(TABLES_TABLE_ID)
    }

    /// The rows of a system table whose key starts with `key`, as they stand now.
    pub open spec fn lookup(self, table: Table, key: Seq<Value>) -> Option<Seq<(Seq<Value>, i32)>> {
        scan(
            self.storage_view(),
            ScanRange {
                table: table.spec_id(),
                lower: Some(crate::storage::layout::encode_tuple(key, table.spec_pk(), 0)),
                upper: Some(crate::storage::layout::encode_tuple(key, table.spec_pk(), 0)),
                at: u64::MAX,
            },
            table.key_count(),
            table.spec_columns().len(),
        )
    }

    /// The key orders of the table with an id, as the metadata table
    /// holds them; nothing where it holds none that read.
    pub open spec fn spec_orders(self, id: Value) -> Option<Seq<SortOrder>> {
        match self.lookup(self.spec_prefix_metadata_table(), seq![id]) {
            None => None,
            Some(rows) => if rows.len() == 0 {
                None
            } else {
                let row = rows[0].0;
                let keys = key_part(self.spec_prefix_metadata_table(), row);
                if row.len() - keys < 2 {
                    None
                } else {
                    match row[keys + 1] {
                        Value::Bytes(json) => metadata_orders(json),
                        _ => None,
                    }
                }
            },
        }
    }

    /// The table of a name in a database: its id and its columns as its
    /// row of the tables table gives them, and its key orders as the
    /// metadata table gives them for that id.
    pub open spec fn spec_table(self, database: Seq<u8>, table: Seq<u8>) -> Lookup {
        match self.lookup(
            self.spec_tables_table(),
            seq![Value::Bytes(database), Value::Bytes(table)],
        ) {
            None => Lookup::Unreadable,
            Some(rows) => if rows.len() == 0 {
                Lookup::Missing
            } else {
                let row = rows[0].0;
                let keys = key_part(self.spec_tables_table(), row);
                if keys != 2 || row.len() - keys < 2 {
                    Lookup::Unreadable
                } else {
                    match (row[2], row[3]) {
                        (Value::BigInt(id), Value::Bytes(json)) => match (
                            metadata_columns(json),
                            self.spec_orders(row[2]),
                        ) {
                            (Some(columns), Some(pk)) => Lookup::Found(
                                TableModel { id: id as u32, columns, pk },
                            ),
                            _ => Lookup::Unreadable,
                        },
                        _ => Lookup::Unreadable,
                    }
                }
            },
        }
    }

    /// What creating a database at a time comes to: a row of frequency 1
    /// is written where no database of the name exists. A database that
    /// exists is not created again, and a store that cannot be read is
    /// left as it is.
    pub open spec fn database_created(
        self,
        after: Seq<(Seq<u8>, Seq<u8>)>,
        name: Seq<char>,
        ms: u64,
        r: Result<(), CatalogError>,
    ) -> bool {
        let key = vstd::utf8::encode_utf8(name);
        match self.spec_db_exists(key) {
            None => r matches Err(e) && e is StorageError && after == self.storage_view(),
            Some(true) => r matches Err(CatalogError::DatabaseAlreadyExists(n)) && n@ == name
                && after == self.storage_view(),
            Some(false) => r is Ok && after == apply_writes(
                self.storage_view(),
                seq![self.database_write(key, ms, 1)],
                0,
            ),
        }
    }

    /// What dropping a database at a time comes to: a row of frequency -1
    /// is written where the database exists and holds no table. The
    /// database `default` is never dropped: it counts as not empty. A
    /// database that does not exist is not found, one that holds a table
    /// is not empty, and a store that cannot be read is left as it is.
    pub open spec fn database_dropped(
        self,
        after: Seq<(Seq<u8>, Seq<u8>)>,
        name: Seq<char>,
        ms: u64,
        r: Result<(), CatalogError>,
    ) -> bool {
        let key = vstd::utf8::encode_utf8(name);
        if name == "default"@ {
            r matches Err(CatalogError::DatabaseNotEmpty(n)) && n@ == name && after
                == self.storage_view()
        } else {
            match self.spec_db_exists(key) {
                None => r matches Err(e) && e is StorageError && after == self.storage_view(),
                Some(false) => r matches Err(CatalogError::DatabaseNotFound(n)) && n@ == name
                    && after == self.storage_view(),
                Some(true) => match self.spec_db_has_tables(key) {
                    None => r matches Err(e) && e is StorageError && after == self.storage_view(),
                    Some(true) => r matches Err(CatalogError::DatabaseNotEmpty(n)) && n@ == name
                        && after == self.storage_view(),
                    Some(false) => r is Ok && after == apply_writes(
                        self.storage_view(),
                        seq![self.database_write(key, ms, -1i32)],
                        0,
                    ),
                },
            }
        }
    }

    /// What creating a table at a time comes to, its id picked from a
    /// seed: the two rows that describe the table are written, under the
    /// first free even id from the seed on, every column a part of the
    /// primary key, ascending. The database has to exist and the table must
    /// not; where no id is free among those that are tried the table counts
    /// as existing. A table that cannot be described, and a store that
    /// cannot be read, give a storage error. Every error leaves the store
    /// as it is.
    pub open spec fn table_created(
        self,
        after: Seq<(Seq<u8>, Seq<u8>)>,
        database: Seq<char>,
        table: Seq<char>,
        columns: Seq<(Seq<u8>, DataType)>,
        seed: u32,
        ms: u64,
        r: Result<(), CatalogError>,
    ) -> bool {
        let database_key = vstd::utf8::encode_utf8(database);
        let table_key = vstd::utf8::encode_utf8(table);
        let orders = Seq::new(columns.len(), |i: int| SortOrder::Asc);
        match self.spec_db_exists(database_key) {
            None => r matches Err(e) && e is StorageError && after == self.storage_view(),
            Some(false) => r matches Err(CatalogError::DatabaseNotFound(n)) && n@ == database
                && after == self.storage_view(),
            Some(true) => match self.spec_table_exists(database_key, table_key) {
                None => r matches Err(e) && e is StorageError && after == self.storage_view(),
                Some(true) => r matches Err(CatalogError::TableAlreadyExists(d, t)) && d@
                    == database && t@ == table && after == self.storage_view(),
                Some(false) => match self.probe(even_id(seed), TABLE_ID_PROBES as nat) {
                    None => r matches Err(e) && e is StorageError && after == self.storage_view(),
                    Some(None) => r matches Err(CatalogError::TableAlreadyExists(d, t)) && d@
                        == database && t@ == table && after == self.storage_view(),
                    Some(Some(id)) => if describable(columns, orders) {
                        r is Ok && after == apply_writes(
                            self.storage_view(),
                            self.table_writes(database_key, table_key, id, columns, orders, false, ms),
                            0,
                        )
                    } else {
                        r matches Err(e) && e is StorageError && after == self.storage_view()
                    },
                },
            },
        }
    }

    /// Whether a database of that name exists; nothing where the store cannot be read.
    pub open spec fn spec_db_exists(self, name: Seq<u8>) -> Option<bool> {
        match self.lookup(self.spec_databases_table(), seq![Value::Bytes(name)]) {
            Some(rows) => Some(rows.len() > 0),
            None => None,
        }
    }

    /// Whether a database holds a table; nothing where the store cannot be read.
    pub open spec fn spec_db_has_tables(self, name: Seq<u8>) -> Option<bool> {
        match self.lookup(self.spec_tables_table(), seq![Value::Bytes(name)]) {
            Some(rows) => Some(rows.len() > 0),
            None => None,
        }
    }

    /// Whether a table of that name exists; nothing where the store cannot be read.
    pub open spec fn spec_table_exists(self, database: Seq<u8>, table: Seq<u8>) -> Option<bool> {
        match self.lookup(
            self.spec_tables_table(),
            seq![Value::Bytes(database), Value::Bytes(table)],
        ) {
            Some(rows) => Some(rows.len() > 0),
            None => None,
        }
    }

    /// Whether a table id is in use; nothing where the store cannot be read.
    pub open spec fn spec_id_in_use(self, id: u32) -> Option<bool> {
        match self.lookup(self.spec_prefix_metadata_table(), seq![Value::BigInt(id as i64)]) {
            Some(rows) => Some(rows.len() > 0),
            None => None,
        }
    }

    /// The store under the catalog.
    pub fn storage(&self) -> (s: &Storage)
        ensures
            s@ == self.storage_view(),
    {
        &self.storage
    }

    /// Hands a batch of rows to the store under the catalog.
    pub fn atomic_write(&mut self, batch: WriteBatch)
        ensures
            final(self).storage_view() == apply_writes(old(self).storage_view(), batch@, 0),
            final(self).same_tables(*old(self)),
    {
        self.storage.atomic_write(batch);
    }

    /// Whether two catalogs have the same handles on the system tables.
    pub closed spec fn same_tables(self, other: Catalog) -> bool {
        &&& self.prefix_metadata_table == other.prefix_metadata_table
        &&& self.databases_table == other.databases_table
        &&& self.tables_table == other.tables_table
    }

    pub proof fn lemma_same_tables_reflexive(self)
        ensures
            self.same_tables(self),
    {
    }

    pub proof fn lemma_same_tables_transitive(self, middle: Catalog, first: Catalog)
        requires
            self.same_tables(middle),
            middle.same_tables(first),
        ensures
            self.same_tables(first),
    {
    }

    pub proof fn lemma_same_tables(self, other: Catalog)
        requires
            self.same_tables(other),
        ensures
            self.spec_databases_table() == other.spec_databases_table(),
            self.spec_tables_table() == other.spec_tables_table(),
            self.spec_prefix_metadata_table() == other.spec_prefix_metadata_table(),
            self.wf() == other.wf(),
    {
    }

    fn any_row(&self, table: &Table, key: &[Datum]) -> (r: Result<bool, CatalogError>)
        ensures
            match r {
                Ok(b) => self.lookup(*table, Seq::new(key@.len(), |i: int| key@[i]@)) matches Some(
                    rows,
                ) && b == (rows.len() > 0),
                Err(e) => self.lookup(*table, Seq::new(key@.len(), |i: int| key@[i]@)) is None
                    && e is StorageError,
            },
    {
        match table.range_scan(&self.storage, Some(key), Some(key), LogicalTimestamp::maximum()) {
            Ok(mut iter) => {
                let found = iter.next().is_some();
                Ok(found)
            },
            Err(e) => Err(storage_error(e)),
        }
    }

    /// Whether a database of that name exists.
    pub fn database_exists(&self, database_name: &str) -> (r: Result<bool, CatalogError>)
        ensures
            match r {
                Ok(b) => self.spec_db_exists(database_name.spec_bytes()) == Some(b),
                Err(e) => self.spec_db_exists(database_name.spec_bytes()) is None
                    && e is StorageError,
            },
    {
        self.db_exists(database_name)
    }

    fn db_exists(&self, database_name: &str) -> (r: Result<bool, CatalogError>)
        ensures
            match r {
                Ok(b) => self.spec_db_exists(database_name.spec_bytes()) == Some(b),
                Err(e) => self.spec_db_exists(database_name.spec_bytes()) is None
                    && e is StorageError,
            },
    {
        let db_datum = [Datum::from_text(database_name)];
        assert(Seq::new(db_datum@.len(), |i: int| db_datum@[i]@) =~= seq![
            Value::Bytes(database_name.spec_bytes()),
        ]);
        self.any_row(&self.databases_table, db_datum.as_slice())
    }

    /// Check for if a database with that name exists
    fn check_db_exists(&self, database_name: &str) -> (r: Result<(), CatalogError>)
        ensures
            match r {
                Ok(_) => self.spec_db_exists(database_name.spec_bytes()) == Some(true),
                Err(CatalogError::DatabaseNotFound(name)) => self.spec_db_exists(
                    database_name.spec_bytes(),
                ) == Some(false) && name@ == database_name@,
                Err(e) => self.spec_db_exists(database_name.spec_bytes()) is None
                    && e is StorageError,
            },
    {
        match self.db_exists(database_name) {
            Ok(true) => Ok(()),
            Ok(false) => Err(CatalogError::DatabaseNotFound(database_name.to_owned())),
            Err(e) => Err(e),
        }
    }

    fn check_db_not_exists(&self, database_name: &str) -> (r: Result<(), CatalogError>)
        ensures
            match r {
                Ok(_) => self.spec_db_exists(database_name.spec_bytes()) == Some(false),
                Err(CatalogError::DatabaseAlreadyExists(name)) => self.spec_db_exists(
                    database_name.spec_bytes(),
                ) == Some(true) && name@ == database_name@,
                Err(e) => self.spec_db_exists(database_name.spec_bytes()) is None
                    && e is StorageError,
            },
    {
        match self.db_exists(database_name) {
            Ok(false) => Ok(()),
            Ok(true) => Err(CatalogError::DatabaseAlreadyExists(database_name.to_owned())),
            Err(e) => Err(e),
        }
    }

    /// Check database empty.
    fn check_db_empty(&self, database_name: &str) -> (r: Result<(), CatalogError>)
        ensures
            match r {
                Ok(_) => self.spec_db_has_tables(database_name.spec_bytes()) == Some(false),
                Err(CatalogError::DatabaseNotEmpty(name)) => self.spec_db_has_tables(
                    database_name.spec_bytes(),
                ) == Some(true) && name@ == database_name@,
                Err(e) => self.spec_db_has_tables(database_name.spec_bytes()) is None
                    && e is StorageError,
            },
    {
        let db_datum = [Datum::from_text(database_name)];
        assert(Seq::new(db_datum@.len(), |i: int| db_datum@[i]@) =~= seq![
            Value::Bytes(database_name.spec_bytes()),
        ]);
        match self.any_row(&self.tables_table, db_datum.as_slice()) {
            Ok(false) => Ok(()),
            Ok(true) => Err(CatalogError::DatabaseNotEmpty(database_name.to_owned())),
            Err(e) => Err(e),
        }
    }

    fn table_exists(&self, database_name: &str, table_name: &str) -> (r: Result<
        bool,
        CatalogError,
    >)
        ensures
            match r {
                Ok(b) => self.spec_table_exists(
                    database_name.spec_bytes(),
                    table_name.spec_bytes(),
                ) == Some(b),
                Err(e) => self.spec_table_exists(
                    database_name.spec_bytes(),
                    table_name.spec_bytes(),
                ) is None && e is StorageError,
            },
    {
        let table_datum = [Datum::from_text(database_name), Datum::from_text(table_name)];
        assert(Seq::new(table_datum@.len(), |i: int| table_datum@[i]@) =~= seq![
            Value::Bytes(database_name.spec_bytes()),
            Value::Bytes(table_name.spec_bytes()),
        ]);
        self.any_row(&self.tables_table, table_datum.as_slice())
    }

    /// Check for if a table with that name exists
    fn check_table_exists(&self, database_name: &str, table_name: &str) -> (r: Result<
        (),
        CatalogError,
    >)
        ensures
            match r {
                Ok(_) => self.spec_table_exists(
                    database_name.spec_bytes(),
                    table_name.spec_bytes(),
                ) == Some(true),
                Err(CatalogError::TableNotFound(database, table)) => self.spec_table_exists(
                    database_name.spec_bytes(),
                    table_name.spec_bytes(),
                ) == Some(false) && database@ == database_name@ && table@ == table_name@,
                Err(e) => self.spec_table_exists(
                    database_name.spec_bytes(),
                    table_name.spec_bytes(),
                ) is None && e is StorageError,
            },
    {
        match self.table_exists(database_name, table_name) {
            Ok(true) => Ok(()),
            Ok(false) => Err(
                CatalogError::TableNotFound(database_name.to_owned(), table_name.to_owned()),
            ),
            Err(e) => Err(e),
        }
    }

    fn check_table_not_exists(&self, database_name: &str, table_name: &str) -> (r: Result<
        (),
        CatalogError,
    >)
        ensures
            match r {
                Ok(_) => self.spec_table_exists(
                    database_name.spec_bytes(),
                    table_name.spec_bytes(),
                ) == Some(false),
                Err(CatalogError::TableAlreadyExists(database, table)) => self.spec_table_exists(
                    database_name.spec_bytes(),
                    table_name.spec_bytes(),
                ) == Some(true) && database@ == database_name@ && table@ == table_name@,
                Err(e) => self.spec_table_exists(
                    database_name.spec_bytes(),
                    table_name.spec_bytes(),
                ) is None && e is StorageError,
            },
    {
        match self.table_exists(database_name, table_name) {
            Ok(false) => Ok(()),
            Ok(true) => Err(
                CatalogError::TableAlreadyExists(database_name.to_owned(), table_name.to_owned()),
            ),
            Err(e) => Err(e),
        }
    }
}

/// The columns that the items of a columns JSON describe, from item `i` on,
/// added to `acc`; nothing where an item describes no column.
pub open spec fn columns_of_items(
    items: Seq<Seq<u8>>,
    i: int,
    acc: Seq<(Seq<u8>, DataType)>,
) -> Option<Seq<(Seq<u8>, DataType)>>
    decreases items.len() - i,
{
    if i < 0 || i >= items.len() {
        Some(acc)
    } else {
        match column_of_item(items[i]) {
            Some(column) => columns_of_items(items, i + 1, acc.push(column)),
            None => None,
        }
    }
}

/// The columns that a columns JSON lists.
pub open spec fn metadata_columns(json: Seq<u8>) -> Option<Seq<(Seq<u8>, DataType)>> {
    match array_items(json) {
        Some(items) => columns_of_items(items, 0, Seq::empty()),
        None => None,
    }
}

/// The orders that the items of an orders JSON give, from item `i` on.
pub open spec fn orders_of_items(items: Seq<Seq<u8>>, i: int, acc: Seq<SortOrder>) -> Option<
    Seq<SortOrder>,
>
    decreases items.len() - i,
{
    if i < 0 || i >= items.len() {
        Some(acc)
    } else {
        match boolean_content(items[i]) {
            Some(desc) => orders_of_items(
                items,
                i + 1,
                acc.push(
                    if desc {
                        SortOrder::Desc
                    } else {
                        SortOrder::Asc
                    },
                ),
            ),
            None => None,
        }
    }
}

/// The orders that an orders JSON lists.
pub open spec fn metadata_orders(json: Seq<u8>) -> Option<Seq<SortOrder>> {
    match array_items(json) {
        Some(items) => orders_of_items(items, 0, Seq::empty()),
        None => None,
    }
}

/// Reads the columns that a columns JSON lists.
pub fn read_columns(json: &[u8]) -> (r: Option<Vec<(String, DataType)>>)
    ensures
        match r {
            Some(columns) => metadata_columns(json@) == Some(columns_view(columns@)),
            None => metadata_columns(json@) is None,
        },
{
    let items = match Json::from_bytes(json).iter_array() {
        Some(items) => items,
        None => {
            return None;
        },
    };
    let ghost encoded = array_items(json@)->0;
    let mut columns: Vec<(String, DataType)> = Vec::new();
    let mut i: usize = 0;
    assert(columns_view(columns@) =~= Seq::empty());
    while i < items.len()
        invariant
            i <= items@.len(),
            items@.len() == encoded.len(),
            forall|k: int| 0 <= k < items@.len() ==> (#[trigger] items@[k]).bytes@ == encoded[k],
            metadata_columns(json@) == columns_of_items(
                encoded,
                i as int,
                columns_view(columns@),
            ),
        decreases items@.len() - i,
    {
        let item = items[i];
        let pair = match item.iter_array() {
            Some(pair) => pair,
            None => {
                return None;
            },
        };
        if pair.len() != 2 {
            return None;
        }
        let name = match pair[0].get_string() {
            Some(name) => name,
            None => {
                return None;
            },
        };
        let kind_text = match pair[1].get_string() {
            Some(t) => t,
            None => {
                return None;
            },
        };
        let datatype = match DataType::from_sql_name(kind_text) {
            Some(t) => t,
            None => {
                return None;
            },
        };
        let text = match utf8_text(name) {
            Some(text) => text,
            None => {
                return None;
            },
        };
        let ghost before = columns@;
        columns.push((text.to_owned(), datatype));
        assert(columns_view(columns@) =~= columns_view(before).push((name@, datatype)));
        i += 1;
    }
    Some(columns)
}

/// Reads the orders that an orders JSON lists.
pub fn read_orders(json: &[u8]) -> (r: Option<Vec<SortOrder>>)
    ensures
        match r {
            Some(orders) => metadata_orders(json@) == Some(orders@),
            None => metadata_orders(json@) is None,
        },
{
    let items = match Json::from_bytes(json).iter_array() {
        Some(items) => items,
        None => {
            return None;
        },
    };
    let ghost encoded = array_items(json@)->0;
    let mut orders: Vec<SortOrder> = Vec::new();
    let mut i: usize = 0;
    while i < items.len()
        invariant
            i <= items@.len(),
            items@.len() == encoded.len(),
            forall|k: int| 0 <= k < items@.len() ==> (#[trigger] items@[k]).bytes@ == encoded[k],
            metadata_orders(json@) == orders_of_items(encoded, i as int, orders@),
        decreases items@.len() - i,
    {
        let desc = match items[i].get_boolean() {
            Some(desc) => desc,
            None => {
                return None;
            },
        };
        orders.push(
            if desc {
                SortOrder::Desc
            } else {
                SortOrder::Asc
            },
        );
        i += 1;
    }
    Some(orders)
}

/// Whether the name and the type of a column fit the encoding: each of
/// them, the string that holds it, and the pair of the two strings, is of
/// a length that 32 bits hold.
pub open spec fn column_fits(column: (Seq<u8>, DataType)) -> bool {
    let name = encode_string(column.0);
    let kind = encode_string(column.1.sql_name(true));
    &&& column.0.len() <= u32::MAX
    &&& column.1.sql_name(true).len() <= u32::MAX
    &&& name.len() <= u32::MAX
    &&& kind.len() <= u32::MAX
    &&& encode_array(seq![name, kind]).len() <= u32::MAX
}

/// Writes the columns JSON of a list of columns; nothing where a name or
/// the list is too long for the encoding.
pub fn write_columns(columns: &[(String, DataType)]) -> (r: Option<Vec<u8>>)
    ensures
        r is Some <==> (columns@.len() <= u32::MAX && forall|k: int|
            0 <= k < columns@.len() ==> column_fits(#[trigger] columns_view(columns@)[k])),
        r matches Some(json) ==> json@ == columns_json(columns_view(columns@)),
{
    let ghost view = columns_view(columns@);
    let mut items: Vec<OwnedJson> = Vec::new();
    let mut i: usize = 0;
    while i < columns.len()
        invariant
            i <= columns@.len(),
            view == columns_view(columns@),
            items@.len() == i,
            forall|k: int| 0 <= k < i ==> column_fits(#[trigger] view[k]),
            forall|k: int|
                0 <= k < i ==> (#[trigger] items@[k]).bytes@ == encode_array(
                    seq![encode_string(view[k].0), encode_string(view[k].1.sql_name(true))],
                ),
        decreases columns@.len() - i,
    {
        let name = match OwnedJson::string(columns[i].0.as_str().as_bytes()) {
            Some(j) => j,
            None => {
                assert(!column_fits(view[i as int]));
                return None;
            },
        };
        let mut kind_text: Vec<u8> = Vec::new();
        columns[i].1.write_sql(true, &mut kind_text);
        let kind = match OwnedJson::string(kind_text.as_slice()) {
            Some(j) => j,
            None => {
                assert(!column_fits(view[i as int]));
                return None;
            },
        };
        let mut pair: Vec<OwnedJson> = Vec::new();
        pair.push(name);
        pair.push(kind);
        assert(Seq::new(pair@.len(), |k: int| pair@[k].bytes@) =~= seq![
            encode_string(view[i as int].0),
            encode_string(view[i as int].1.sql_name(true)),
        ]);
        let item = match OwnedJson::array(&pair) {
            Some(j) => j,
            None => {
                assert(pair@[0].bytes@.len() > u32::MAX || pair@[1].bytes@.len() > u32::MAX);
                assert(!column_fits(view[i as int]));
                return None;
            },
        };
        if item.bytes.len() as u64 > 0xFFFF_FFFFu64 {
            assert(!column_fits(view[i as int]));
            return None;
        }
        assert(pair@[0].bytes@.len() <= u32::MAX);
        assert(pair@[1].bytes@.len() <= u32::MAX);
        items.push(item);
        i += 1;
    }
    match OwnedJson::array(&items) {
        Some(j) => {
            assert(Seq::new(items@.len(), |k: int| items@[k].bytes@) =~= Seq::new(
                view.len(),
                |i: int|
                    encode_array(
                        seq![encode_string(view[i].0), encode_string(view[i].1.sql_name(true))],
                    ),
            ));
            Some(j.bytes)
        },
        None => None,
    }
}

/// Writes the orders JSON of a primary key; nothing where the list is too
/// long for the encoding.
pub fn write_orders(orders: &[SortOrder]) -> (r: Option<Vec<u8>>)
    ensures
        r is Some <==> orders@.len() <= u32::MAX,
        r matches Some(json) ==> json@ == orders_json(orders@),
{
    let mut items: Vec<OwnedJson> = Vec::new();
    let mut i: usize = 0;
    while i < orders.len()
        invariant
            i <= orders@.len(),
            items@.len() == i,
            forall|k: int|
                0 <= k < i ==> (#[trigger] items@[k]).bytes@ == encode_boolean(
                    orders@[k] == SortOrder::Desc,
                ),
        decreases orders@.len() - i,
    {
        items.push(OwnedJson::boolean(orders[i].is_desc()));
        i += 1;
    }
    match OwnedJson::array(&items) {
        Some(j) => {
            assert(Seq::new(items@.len(), |k: int| items@[k].bytes@) =~= Seq::new(
                orders@.len(),
                |i: int| encode_boolean(orders@[i] == SortOrder::Desc),
            ));
            Some(j.bytes)
        },
        None => None,
    }
}

fn system_columns(which: u32) -> (columns: Vec<(String, DataType)>)
    ensures
        which == PREFIX_METADATA_TABLE_ID ==> columns@.len() == 3,
        which == DATABASES_TABLE_ID ==> columns@.len() == 1,
        which == TABLES_TABLE_ID ==> columns@.len() == 5,
        columns_view(columns@) == spec_system_columns(which),
{
    let mut columns: Vec<(String, DataType)> = Vec::new();
    if which == PREFIX_METADATA_TABLE_ID {
        columns.push(("table_id".to_owned(), DataType::BigInt));
        columns.push(("column_len".to_owned(), DataType::Integer));
        columns.push(("pks_sorts".to_owned(), DataType::Json));
    } else if which == DATABASES_TABLE_ID {
        columns.push(("name".to_owned(), DataType::Text));
    } else {
        columns.push(("database_name".to_owned(), DataType::Text));
        columns.push(("name".to_owned(), DataType::Text));
        columns.push(("table_id".to_owned(), DataType::BigInt));
        columns.push(("columns".to_owned(), DataType::Json));
        columns.push(("system".to_owned(), DataType::Boolean));
    }
    assert(columns_view(columns@) =~= spec_system_columns(which));
    columns
}

fn ascending_key(columns: usize) -> (orders: Vec<SortOrder>)
    ensures
        orders@ == Seq::new(columns as nat, |i: int| SortOrder::Asc),
{
    let mut orders: Vec<SortOrder> = Vec::new();
    let mut i: usize = 0;
    while i < columns
        invariant
            i <= columns,
            orders@ == Seq::new(i as nat, |i: int| SortOrder::Asc),
        decreases columns - i,
    {
        orders.push(SortOrder::Asc);
        assert(orders@ =~= Seq::new((i + 1) as nat, |i: int| SortOrder::Asc));
        i += 1;
    }
    orders
}

impl Catalog {
    /// The write that puts a database into the catalog or takes it out.
    pub open spec fn database_write(self, name: Seq<u8>, ms: u64, freq: i32) -> PendingWriteView {
        row_write(self.spec_databases_table(), seq![Value::Bytes(name)], ms, freq)
    }

    /// The two writes that put a table into the catalog.
    pub open spec fn table_writes(
        self,
        database: Seq<u8>,
        table: Seq<u8>,
        id: u32,
        columns: Seq<(Seq<u8>, DataType)>,
        orders: Seq<SortOrder>,
        system: bool,
        ms: u64,
    ) -> Seq<PendingWriteView> {
        seq![
            row_write(
                self.spec_tables_table(),
                tables_row(database, table, id, columns, system),
                ms,
                1,
            ),
            row_write(
                self.spec_prefix_metadata_table(),
                prefix_row(id, columns.len() as i32, orders),
                ms,
                1,
            ),
        ]
    }

    /// The first id that is free among `left` even ids from `id` on; `None`
    /// inside where all of them are taken, and nothing where the store
    /// cannot be read.
    pub open spec fn probe(self, id: u32, left: nat) -> Option<Option<u32>>
        decreases left,
    {
        if left == 0 {
            Some(None)
        } else {
            match self.spec_id_in_use(id) {
                None => None,
                Some(false) => Some(Some(id)),
                Some(true) => self.probe(next_id(id), (left - 1) as nat),
            }
        }
    }

    /// Creates a database, doesn't do any checks to see if the database already exists etc.
    fn create_database_impl(&mut self, database_name: &str, timestamp: LogicalTimestamp)
        requires
            old(self).wf(),
        ensures
            final(self).wf(),
            final(self).same_tables(*old(self)),
            final(self).storage_view() == apply_writes(
                old(self).storage_view(),
                seq![old(self).database_write(database_name.spec_bytes(), timestamp.ms, 1)],
                0,
            ),
    {
        self.write_database(database_name, timestamp, 1);
    }

    fn write_database(&mut self, database_name: &str, timestamp: LogicalTimestamp, freq: i32)
        requires
            old(self).wf(),
        ensures
            final(self).wf(),
            final(self).same_tables(*old(self)),
            final(self).storage_view() == apply_writes(
                old(self).storage_view(),
                seq![old(self).database_write(database_name.spec_bytes(), timestamp.ms, freq)],
                0,
            ),
    {
        let mut batch = WriteBatch::new();
        let tuple = [Datum::from_text(database_name)];
        assert(Seq::new(tuple@.len(), |i: int| tuple@[i]@) =~= seq![
            Value::Bytes(database_name.spec_bytes()),
        ]);
        let written = batch.write_tuple(&self.databases_table, tuple.as_slice(), timestamp, freq);
        assert(written is Ok);
        assert(batch@ =~= seq![
            self.database_write(database_name.spec_bytes(), timestamp.ms, freq),
        ]);
        self.storage.atomic_write(batch);
    }

    /// Creates a database at the given time.
    pub fn create_database_at(&mut self, database_name: &str, timestamp: LogicalTimestamp) -> (r:
        Result<(), CatalogError>)
        requires
            old(self).wf(),
        ensures
            final(self).wf(),
            final(self).same_tables(*old(self)),
            old(self).database_created(
                final(self).storage_view(),
                database_name@,
                timestamp.ms,
                r,
            ),
    {
        match self.check_db_not_exists(database_name) {
            Ok(_) => {},
            Err(e) => {
                return Err(e);
            },
        }
        self.create_database_impl(database_name, timestamp);
        Ok(())
    }

    /// Called to create a database
    pub fn create_database(&mut self, database_name: &str) -> (r: Result<(), CatalogError>)
        requires
            old(self).wf(),
        ensures
            final(self).wf(),
            final(self).same_tables(*old(self)),
            exists|ms: u64| #[trigger]
                old(self).database_created(final(self).storage_view(), database_name@, ms, r),
    {
        let now = LogicalTimestamp::now();
        let r = self.create_database_at(database_name, now);
        assert(old(self).database_created(self.storage_view(), database_name@, now.ms, r));
        r
    }

    /// Drops a database at the given time: a row with frequency -1 is written.
    pub fn drop_database_at(&mut self, database_name: &str, timestamp: LogicalTimestamp) -> (r:
        Result<(), CatalogError>)
        requires
            old(self).wf(),
        ensures
            final(self).wf(),
            final(self).same_tables(*old(self)),
            old(self).database_dropped(
                final(self).storage_view(),
                database_name@,
                timestamp.ms,
                r,
            ),
    {
        if crate::functions::registry::str_eq(database_name, "default") {
            // The default database always exists.
            return Err(CatalogError::DatabaseNotEmpty(database_name.to_owned()));
        }
        match self.check_db_exists(database_name) {
            Ok(_) => {},
            Err(e) => {
                return Err(e);
            },
        }
        match self.check_db_empty(database_name) {
            Ok(_) => {},
            Err(e) => {
                return Err(e);
            },
        }
        // Write with freq -1
        self.write_database(database_name, timestamp, -1);
        Ok(())
    }

    /// Called to drop a database
    pub fn drop_database(&mut self, database_name: &str) -> (r: Result<(), CatalogError>)
        requires
            old(self).wf(),
        ensures
            final(self).wf(),
            final(self).same_tables(*old(self)),
            exists|ms: u64| #[trigger]
                old(self).database_dropped(final(self).storage_view(), database_name@, ms, r),
    {
        let now = LogicalTimestamp::now();
        let r = self.drop_database_at(database_name, now);
        assert(old(self).database_dropped(self.storage_view(), database_name@, now.ms, r));
        r
    }

    /// Picks the id of a new table from a hash of its name: the hash made
    /// even, or the first free id after it, two by two. Where none of the
    /// ids tried is free the table counts as existing.
    pub fn table_id_from(&self, seed: u32, database_name: &str, table_name: &str) -> (r: Result<
        u32,
        CatalogError,
    >)
        ensures
            match r {
                Ok(id) => self.probe(even_id(seed), TABLE_ID_PROBES as nat) == Some(Some(id)),
                Err(CatalogError::TableAlreadyExists(database, table)) => self.probe(
                    even_id(seed),
                    TABLE_ID_PROBES as nat,
                ) == Some(None::<u32>) && database@ == database_name@ && table@ == table_name@,
                Err(e) => self.probe(even_id(seed), TABLE_ID_PROBES as nat) is None
                    && e is StorageError,
            },
    {
        // Make sure table_id is even
        let mut id: u32 = if seed % 2 == 1 {
            seed - 1
        } else {
            seed
        };
        let mut tried: u32 = 0;
        while tried < TABLE_ID_PROBES
            invariant
                tried <= TABLE_ID_PROBES,
                self.probe(even_id(seed), TABLE_ID_PROBES as nat) == self.probe(
                    id,
                    (TABLE_ID_PROBES - tried) as nat,
                ),
            decreases TABLE_ID_PROBES - tried,
        {
            let proposed = [Datum::BigInt(id as i64)];
            assert(Seq::new(proposed@.len(), |i: int| proposed@[i]@) =~= seq![
                Value::BigInt(id as i64),
            ]);
            match self.any_row(&self.prefix_metadata_table, proposed.as_slice()) {
                Ok(false) => {
                    return Ok(id);
                },
                Ok(true) => {
                    id = if id >= 0xFFFF_FFFE {
                        0
                    } else {
                        id + 2
                    };
                },
                Err(e) => {
                    return Err(e);
                },
            }
            tried += 1;
        }
        Err(CatalogError::TableAlreadyExists(database_name.to_owned(), table_name.to_owned()))
    }

    /// Adds the two rows of a table to a batch; false, and the batch as it
    /// was, where the table cannot be described in the catalog.
    #[verifier::rlimit(60)]
    fn add_table_rows(
        &self,
        batch: &mut WriteBatch,
        database_name: &str,
        table_name: &str,
        table_id: u32,
        columns: &[(String, DataType)],
        pks: &[SortOrder],
        system: bool,
        timestamp: LogicalTimestamp,
    ) -> (added: bool)
        requires
            self.wf(),
        ensures
            added == describable(columns_view(columns@), pks@),
            added ==> final(batch)@ == old(batch)@ + self.table_writes(
                database_name.spec_bytes(),
                table_name.spec_bytes(),
                table_id,
                columns_view(columns@),
                pks@,
                system,
                timestamp.ms,
            ),
            !added ==> final(batch)@ == old(batch)@,
    {
        assert(columns_view(columns@).len() == columns@.len());
        if columns.len() > i32::MAX as usize {
            return false;
        }
        let columns_bytes = match write_columns(columns) {
            Some(bytes) => bytes,
            None => {
                return false;
            },
        };
        let orders_bytes = match write_orders(pks) {
            Some(bytes) => bytes,
            None => {
                return false;
            },
        };
        let tuple = [
            Datum::from_text(database_name),
            Datum::from_text(table_name),
            Datum::BigInt(table_id as i64),
            Datum::ByteAOwned(into_boxed_bytes(columns_bytes)),
            Datum::Boolean(system),
        ];
        assert(Seq::new(tuple@.len(), |i: int| tuple@[i]@) =~= tables_row(
            database_name.spec_bytes(),
            table_name.spec_bytes(),
            table_id,
            columns_view(columns@),
            system,
        ));
        let first = batch.write_tuple(&self.tables_table, tuple.as_slice(), timestamp, 1);
        assert(first is Ok);
        let tuple = [
            Datum::BigInt(table_id as i64),
            Datum::Integer(columns.len() as i32),
            Datum::ByteAOwned(into_boxed_bytes(orders_bytes)),
        ];
        assert(Seq::new(tuple@.len(), |i: int| tuple@[i]@) =~= prefix_row(
            table_id,
            columns@.len() as i32,
            pks@,
        ));
        assert(columns_view(columns@).len() == columns@.len());
        let second = batch.write_tuple(&self.prefix_metadata_table, tuple.as_slice(), timestamp, 1);
        assert(second is Ok);
        assert(batch@ =~= old(batch)@ + self.table_writes(
            database_name.spec_bytes(),
            table_name.spec_bytes(),
            table_id,
            columns_view(columns@),
            pks@,
            system,
            timestamp.ms,
        ));
        true
    }

    /// Creates a table but doesn't do any checks around the database, table, or id.
    fn create_table_impl(
        &mut self,
        database_name: &str,
        table_name: &str,
        table_id: u32,
        columns: &[(String, DataType)],
        pks: &[SortOrder],
        system: bool,
        timestamp: LogicalTimestamp,
    ) -> (r: Result<(), CatalogError>)
        requires
            old(self).wf(),
        ensures
            final(self).wf(),
            final(self).same_tables(*old(self)),
            r is Ok <==> describable(columns_view(columns@), pks@),
            match r {
                Ok(_) => final(self).storage_view() == apply_writes(
                    old(self).storage_view(),
                    old(self).table_writes(
                        database_name.spec_bytes(),
                        table_name.spec_bytes(),
                        table_id,
                        columns_view(columns@),
                        pks@,
                        system,
                        timestamp.ms,
                    ),
                    0,
                ),
                Err(e) => e is StorageError && final(self).storage_view() == old(self).storage_view(),
            },
    {
        let mut batch = WriteBatch::new();
        if self.add_table_rows(
            &mut batch,
            database_name,
            table_name,
            table_id,
            columns,
            pks,
            system,
            timestamp,
        ) {
            assert(batch@ =~= self.table_writes(
                database_name.spec_bytes(),
                table_name.spec_bytes(),
                table_id,
                columns_view(columns@),
                pks@,
                system,
                timestamp.ms,
            ));
            self.storage.atomic_write(batch);
            Ok(())
        } else {
            Err(corrupt("the table cannot be described in the catalog"))
        }
    }

    /// Creates a table at the given time, its id picked from `seed`. Every
    /// column is part of the primary key, ascending.
    pub fn create_table_at(
        &mut self,
        database_name: &str,
        table_name: &str,
        columns: &[(String, DataType)],
        seed: u32,
        timestamp: LogicalTimestamp,
    ) -> (r: Result<(), CatalogError>)
        requires
            old(self).wf(),
        ensures
            final(self).wf(),
            final(self).same_tables(*old(self)),
            old(self).table_created(
                final(self).storage_view(),
                database_name@,
                table_name@,
                columns_view(columns@),
                seed,
                timestamp.ms,
                r,
            ),
    {
        match self.check_db_exists(database_name) {
            Ok(_) => {},
            Err(e) => {
                return Err(e);
            },
        }
        match self.check_table_not_exists(database_name, table_name) {
            Ok(_) => {},
            Err(e) => {
                return Err(e);
            },
        }
        let id = match self.table_id_from(seed, database_name, table_name) {
            Ok(id) => id,
            Err(e) => {
                return Err(e);
            },
        };
        let pk = ascending_key(columns.len());
        self.create_table_impl(database_name, table_name, id, columns, pk.as_slice(), false, timestamp)
    }

    /// Creates a new table, now: its id is picked from the hash of its
    /// name, and its rows are written at the time of the clock.
    pub fn create_table(
        &mut self,
        database_name: &str,
        table_name: &str,
        columns: &[(String, DataType)],
    ) -> (r: Result<(), CatalogError>)
        requires
            old(self).wf(),
        ensures
            final(self).wf(),
            final(self).same_tables(*old(self)),
            exists|ms: u64| #[trigger]
                old(self).table_created(
                    final(self).storage_view(),
                    database_name@,
                    table_name@,
                    columns_view(columns@),
                    spec_table_seed(table_name.spec_bytes()),
                    ms,
                    r,
                ),
    {
        let seed = table_seed(table_name);
        let now = LogicalTimestamp::now();
        let r = self.create_table_at(database_name, table_name, columns, seed, now);
        assert(old(self).table_created(
            self.storage_view(),
            database_name@,
            table_name@,
            columns_view(columns@),
            seed,
            now.ms,
            r,
        ));
        r
    }

    /// Returns the table with the given name
    pub fn table(&self, database: &str, table: &str) -> (r: Result<Table, CatalogError>)
        ensures
            lookup_of(r) == self.spec_table(database.spec_bytes(), table.spec_bytes()),
            match r {
                Ok(t) => self.lookup(
                    self.spec_tables_table(),
                    seq![Value::Bytes(database.spec_bytes()), Value::Bytes(table.spec_bytes())],
                ) matches Some(rows) && rows.len() > 0 && rows[0].0.len() >= 4 && (
                rows[0].0[2] matches Value::BigInt(id) && t.spec_id() == id as u32) && (
                rows[0].0[3] matches Value::Bytes(json) && metadata_columns(json) == Some(
                    columns_view(t.spec_columns()),
                )),
                Err(CatalogError::TableNotFound(d, n)) => self.lookup(
                    self.spec_tables_table(),
                    seq![Value::Bytes(database.spec_bytes()), Value::Bytes(table.spec_bytes())],
                ) matches Some(rows) && rows.len() == 0 && d@ == database@ && n@ == table@,
                Err(e) => e is StorageError,
            },
    {
        let tables_pk = [Datum::from_text(database), Datum::from_text(table)];
        assert(Seq::new(tables_pk@.len(), |i: int| tables_pk@[i]@) =~= seq![
            Value::Bytes(database.spec_bytes()),
            Value::Bytes(table.spec_bytes()),
        ]);
        let mut key_buf: Vec<Datum<'static>> = Vec::new();
        let mut value: Vec<Datum<'static>> = Vec::new();
        match self.tables_table.system_point_lookup(
            &self.storage,
            tables_pk.as_slice(),
            &mut key_buf,
            &mut value,
        ) {
            Ok(Some(_)) => {},
            Ok(None) => {
                return Err(CatalogError::TableNotFound(database.to_owned(), table.to_owned()));
            },
            Err(e) => {
                return Err(storage_error(e));
            },
        }
        if key_buf.len() != 2 || value.len() < 2 {
            return Err(corrupt("a row of the tables table is too short"));
        }
        let id = match value[0].as_maybe_bigint() {
            Some(id) => id as u32,
            None => {
                return Err(corrupt("the id of a table is no number"));
            },
        };
        let columns = match value[1].as_maybe_bytea() {
            Some(json) => match read_columns(json) {
                Some(columns) => columns,
                None => {
                    return Err(corrupt("the columns of a table do not read"));
                },
            },
            None => {
                return Err(corrupt("the columns of a table are no document"));
            },
        };
        let prefix_pk = [value[0].clone()];
        assert(Seq::new(prefix_pk@.len(), |i: int| prefix_pk@[i]@) =~= seq![value@[0]@]);
        let mut prefix_key: Vec<Datum<'static>> = Vec::new();
        let mut prefix_value: Vec<Datum<'static>> = Vec::new();
        match self.prefix_metadata_table.system_point_lookup(
            &self.storage,
            prefix_pk.as_slice(),
            &mut prefix_key,
            &mut prefix_value,
        ) {
            Ok(Some(_)) => {},
            Ok(None) => {
                return Err(corrupt("a table has no metadata"));
            },
            Err(e) => {
                return Err(storage_error(e));
            },
        }
        if prefix_value.len() < 2 {
            return Err(corrupt("a row of the metadata table is too short"));
        }
        let pk = match prefix_value[1].as_maybe_bytea() {
            Some(json) => match read_orders(json) {
                Some(orders) => orders,
                None => {
                    return Err(corrupt("the key orders of a table do not read"));
                },
            },
            None => {
                return Err(corrupt("the key orders of a table are no document"));
            },
        };
        Ok(self.storage.table(id, columns, pk))
    }

    /// The writes that describe the system itself in a new store: the
    /// databases `default` and `incresql`, and in the latter the three
    /// system tables.
    pub open spec fn bootstrap_writes(self, ms: u64) -> Seq<PendingWriteView> {
        seq![
            self.database_write("default".spec_bytes(), ms, 1),
            self.database_write("incresql".spec_bytes(), ms, 1),
        ] + self.system_table_writes(ms)
    }

    /// Adds the row of a database to a batch.
    fn add_database_row(&self, batch: &mut WriteBatch, name: &str, timestamp: LogicalTimestamp)
        requires
            self.wf(),
        ensures
            final(batch)@ == old(batch)@.push(
                self.database_write(name.spec_bytes(), timestamp.ms, 1),
            ),
    {
        let row = [Datum::from_text(name)];
        assert(Seq::new(row@.len(), |i: int| row@[i]@) =~= seq![Value::Bytes(name.spec_bytes())]);
        let w = batch.write_tuple(&self.databases_table, row.as_slice(), timestamp, 1);
        assert(w is Ok);
    }

    /// The writes that describe the three system tables.
    pub open spec fn system_table_writes(self, ms: u64) -> Seq<PendingWriteView> {
        self.table_writes(
            "incresql".spec_bytes(),
            "prefix_metadata".spec_bytes(),
            PREFIX_METADATA_TABLE_ID,
            columns_view(self.spec_prefix_metadata_table().spec_columns()),
            self.spec_prefix_metadata_table().spec_pk(),
            true,
            ms,
        ) + self.table_writes(
            "incresql".spec_bytes(),
            "databases".spec_bytes(),
            DATABASES_TABLE_ID,
            columns_view(self.spec_databases_table().spec_columns()),
            self.spec_databases_table().spec_pk(),
            true,
            ms,
        ) + self.table_writes(
            "incresql".spec_bytes(),
            "tables".spec_bytes(),
            TABLES_TABLE_ID,
            columns_view(self.spec_tables_table().spec_columns()),
            self.spec_tables_table().spec_pk(),
            true,
            ms,
        )
    }

    /// Adds the rows of the three system tables to a batch. Each of them
    /// can be described in the catalog.
    fn add_system_tables(&self, batch: &mut WriteBatch, timestamp: LogicalTimestamp)
        requires
            self.wf(),
        ensures
            final(batch)@ == old(batch)@ + self.system_table_writes(timestamp.ms),
    {
        proof {
            lemma_system_describable();
        }
        let ghost start = batch@;
        let a = self.add_table_rows(
            batch,
            "incresql",
            "prefix_metadata",
            PREFIX_METADATA_TABLE_ID,
            self.prefix_metadata_table.columns(),
            self.prefix_metadata_table.pk(),
            true,
            timestamp,
        );
        assert(a);
        let ghost first = batch@;
        let b = self.add_table_rows(
            batch,
            "incresql",
            "databases",
            DATABASES_TABLE_ID,
            self.databases_table.columns(),
            self.databases_table.pk(),
            true,
            timestamp,
        );
        assert(b);
        let ghost second = batch@;
        let c = self.add_table_rows(
            batch,
            "incresql",
            "tables",
            TABLES_TABLE_ID,
            self.tables_table.columns(),
            self.tables_table.pk(),
            true,
            timestamp,
        );
        assert(c);
        assert(batch@ =~= start + self.system_table_writes(timestamp.ms));
    }

    /// Describes the system itself in the store, unless it is there already.
    fn bootstrap(&mut self, timestamp: LogicalTimestamp) -> (r: Result<(), CatalogError>)
        requires
            old(self).wf(),
        ensures
            final(self).wf(),
            final(self).same_tables(*old(self)),
            match old(self).spec_db_exists("incresql".spec_bytes()) {
                None => r matches Err(e) && e is StorageError && final(self).storage_view() == old(
                    self,
                ).storage_view(),
                Some(true) => r is Ok && final(self).storage_view() == old(self).storage_view(),
                Some(false) => r is Ok && final(self).storage_view() == apply_writes(
                    old(self).storage_view(),
                    old(self).bootstrap_writes(timestamp.ms),
                    0,
                ),
            },
    {
        match self.db_exists("incresql") {
            Ok(true) => {
                return Ok(());
            },
            Ok(false) => {},
            Err(e) => {
                return Err(e);
            },
        }
        let mut batch = WriteBatch::new();
        self.add_database_row(&mut batch, "default", timestamp);
        self.add_database_row(&mut batch, "incresql", timestamp);
        self.add_system_tables(&mut batch, timestamp);
        assert(batch@ =~= self.bootstrap_writes(timestamp.ms));
        self.storage.atomic_write(batch);
        Ok(())
    }

    /// What opening a catalog over a store at a time comes to. Over a
    /// store that lists the database `incresql` the catalog is the store
    /// as it came. Over any other store that can be read the rows that
    /// describe the system itself are written first: the databases
    /// `default` and `incresql` and the three system tables. A store that
    /// cannot be read gives a storage error.
    pub open spec fn opened(
        store: Seq<(Seq<u8>, Seq<u8>)>,
        ms: u64,
        r: Result<Catalog, CatalogError>,
    ) -> bool {
        match system_database_listed(store, "incresql".spec_bytes()) {
            None => r matches Err(e) && e is StorageError,
            Some(true) => r matches Ok(catalog) && catalog.wf() && catalog.storage_view() == store,
            Some(false) => r matches Ok(catalog) && catalog.wf() && catalog.storage_view()
                == apply_writes(store, catalog.bootstrap_writes(ms), 0),
        }
    }

    /// Creates a catalog over a store as it stands at the given time.
    pub fn new_at(storage: Storage, timestamp: LogicalTimestamp) -> (r: Result<Catalog, CatalogError>)
        ensures
            Catalog::opened(storage@, timestamp.ms, r),
    {
        let prefix_metadata_table = storage.table(
            PREFIX_METADATA_TABLE_ID,
            system_columns(PREFIX_METADATA_TABLE_ID),
            ascending_key(1),
        );
        let databases_table = storage.table(
            DATABASES_TABLE_ID,
            system_columns(DATABASES_TABLE_ID),
            ascending_key(1),
        );
        let tables_table = storage.table(
            TABLES_TABLE_ID,
            system_columns(TABLES_TABLE_ID),
            ascending_key(2),
        );
        let mut catalog = Catalog { storage, prefix_metadata_table, databases_table, tables_table };
        assert(catalog.prefix_metadata_table.spec_pk() =~= seq![SortOrder::Asc]);
        assert(catalog.databases_table.spec_pk() =~= seq![SortOrder::Asc]);
        assert(catalog.tables_table.spec_pk() =~= seq![SortOrder::Asc, SortOrder::Asc]);
        let ghost before = catalog;
        assert(before.spec_db_exists("incresql".spec_bytes()) == system_database_listed(
            storage@,
            "incresql".spec_bytes(),
        ));
        match catalog.bootstrap(timestamp) {
            Ok(_) => {
                assert(catalog.bootstrap_writes(timestamp.ms) == before.bootstrap_writes(
                    timestamp.ms,
                ));
                Ok(catalog)
            },
            Err(e) => Err(e),
        }
    }

    /// Creates a catalog, wrapping the passed in storage
    pub fn new(storage: Storage) -> (r: Result<Catalog, CatalogError>)
        ensures
            exists|ms: u64| #[trigger] Catalog::opened(storage@, ms, r),
    {
        let now = LogicalTimestamp::now();
        let r = Catalog::new_at(storage, now);
        assert(Catalog::opened(storage@, now.ms, r));
        r
    }

    /// Creates a new catalog backed by in-memory storage
    pub fn new_for_test() -> (r: Result<Catalog, CatalogError>)
        ensures
            exists|ms: u64| #[trigger]
                Catalog::opened(Seq::<(Seq<u8>, Seq<u8>)>::empty(), ms, r),
            r is Ok,
    {
        let r = Catalog::new(Storage::new_in_mem());
        assert(system_database_listed(
            Seq::<(Seq<u8>, Seq<u8>)>::empty(),
            "incresql".spec_bytes(),
        ) == Some(false));
        r
    }
}

} // verus!
