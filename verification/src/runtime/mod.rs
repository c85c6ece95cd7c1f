//! The runtime: connections, their sessions, and the running of statements.

use vstd::prelude::*;
use vstd::string::StringSliceAdditionalSpecFns;
use crate::catalog::{columns_view, Catalog, CatalogError};
use crate::data::{DataType, Datum, LogicalTimestamp, Session, Value};
use crate::data::display::value_text;
use crate::data::text::lossy_string;
use crate::data::tuple_iter::{tuple_view, Row, TupleIter};
use crate::executor::ExecutionError;
use crate::executor::point_in_time::{build_executor, run};
use crate::functions::registry::Registry;
use crate::functions::scalar::registered;
use crate::parser::{parse, ParserError, Statement};
use crate::parser::statement_grammar::{spec_parse, statement_model};
use crate::ast::rel::logical::LogicalOperator;
use crate::ast::rel::point_in_time::PointInTimeOperator;
use crate::planner::{fields_view, Field, Planner, PlannerError};
use crate::planner::p1_validation::compile_model::{failure_of, Failure};
use crate::planner::p4_pit_planning::lowerable::model_plain;
use crate::planner::p4_pit_planning::{lowered, not_plain};
use crate::planner::plan_model::{plan_model, PlanModel};
use crate::planner::utils::logical::spec_fields;
use crate::storage::Storage;

pub mod error;

pub use error::QueryError;

verus! {

/// Wraps all the runtime services of incresql.
/// connections are created from a runtime and then sql can then be run against a connection.
#[derive(Debug)]
pub struct Runtime {
    connections_state: ConnectionsState,
    planner: Planner,
}

#[derive(Debug)]
struct ConnectionsState {
    connection_id_counter: u32,
    connections: Vec<Session>,
}

/// What a statement gives: the fields of its rows and the rows.
#[derive(Debug)]
pub struct QueryResult {
    pub fields: Vec<Field>,
    pub rows: TupleIter,
}

/// The place of the session of a connection among the first `n` sessions.
pub open spec fn find_session(sessions: Seq<Session>, connection_id: u32, n: int) -> Option<int>
    decreases n,
{
    if n <= 0 || n > sessions.len() {
        None
    } else {
        match find_session(sessions, connection_id, n - 1) {
            Some(i) => Some(i),
            None => if sessions[n - 1].connection_id == connection_id {
                Some(n - 1)
            } else {
                None
            },
        }
    }
}

/// The text of a row: each value between bars.
pub open spec fn row_text(row: Seq<Value>, fields: Seq<Field>, n: int) -> Seq<u8>
    decreases n,
{
    if n <= 0 || n > row.len() {
        seq![124u8]
    } else {
        row_text(row, fields, n - 1) + value_text(
            row[n - 1],
            if n - 1 < fields.len() {
                fields[n - 1].data_type
            } else {
                DataType::Null
            },
            false,
        ) + seq![124u8]
    }
}

/// Appends the text of a row: `|value|value|...|`.
pub fn write_row(buf: &mut Vec<u8>, tuple: &[Datum], fields: &Vec<Field>)
    ensures
        final(buf)@ == old(buf)@ + row_text(tuple_view(tuple@), fields@, tuple@.len() as int),
{
    buf.push(124);
    let mut i: usize = 0;
    while i < tuple.len()
        invariant
            i <= tuple@.len(),
            buf@ == old(buf)@ + row_text(tuple_view(tuple@), fields@, i as int),
        decreases tuple@.len() - i,
    {
        let datatype = if i < fields.len() {
            fields[i].data_type
        } else {
            DataType::Null
        };
        let ghost before = buf@;
        tuple[i].typed_with(datatype).write(false, buf);
        buf.push(124);
        assert(buf@ =~= old(buf)@ + row_text(tuple_view(tuple@), fields@, i + 1));
        i += 1;
    }
}

/// A line as often as a number says; nothing where the number is not
/// positive.
pub open spec fn repeated(line: Seq<u8>, times: int) -> Seq<u8>
    decreases times,
{
    if times <= 0 {
        Seq::empty()
    } else {
        repeated(line, times - 1) + line
    }
}

/// The text of the first `n` rows: a line for each row, as often as its
/// frequency says.
pub open spec fn rows_text(rows: Seq<(Seq<Value>, i32)>, fields: Seq<Field>, n: int) -> Seq<u8>
    decreases n,
{
    if n <= 0 || n > rows.len() {
        Seq::empty()
    } else {
        rows_text(rows, fields, n - 1) + repeated(
            row_text(rows[n - 1].0, fields, rows[n - 1].0.len() as int) + seq![10u8],
            rows[n - 1].1 as int,
        )
    }
}

impl QueryResult {
    /// The rows that are still to come as text: a line for each row, as
    /// often as its frequency says, each value between bars. No row is
    /// left to come after.
    pub fn render(&mut self) -> (text: String)
        ensures
            final(self).rows.remaining().len() == 0,
            final(self).fields == old(self).fields,
            text@ == crate::data::text::lossy_text(
                rows_text(
                    old(self).rows.remaining(),
                    old(self).fields@,
                    old(self).rows.remaining().len() as int,
                ),
            ),
            vstd::utf8::valid_utf8(
                rows_text(
                    old(self).rows.remaining(),
                    old(self).fields@,
                    old(self).rows.remaining().len() as int,
                ),
            ) ==> text@ == vstd::utf8::decode_utf8(
                rows_text(
                    old(self).rows.remaining(),
                    old(self).fields@,
                    old(self).rows.remaining().len() as int,
                ),
            ),
    {
        let ghost all = self.rows.remaining();
        let ghost done: int = 0;
        let mut buf: Vec<u8> = Vec::new();
        let mut go = true;
        assert(all.skip(0) =~= all);
        while go
            invariant
                self.fields == old(self).fields,
                0 <= done <= all.len(),
                self.rows.remaining() == all.skip(done),
                buf@ == rows_text(all, self.fields@, done),
                !go ==> done == all.len(),
            decreases
                    self.rows.remaining().len() + if go {
                        1int
                    } else {
                        0int
                    },
        {
            match self.rows.next() {
                Some((tuple, freq)) => {
                    let ghost before = buf@;
                    let ghost line = row_text(
                        tuple_view(tuple@),
                        self.fields@,
                        tuple@.len() as int,
                    ) + seq![10u8];
                    let mut times: i32 = 0;
                    assert(buf@ =~= before + repeated(line, 0));
                    while times < freq
                        invariant
                            0 <= times,
                            freq > 0 ==> times <= freq,
                            freq <= 0 ==> times == 0,
                            buf@ == before + repeated(line, times as int),
                            line == row_text(tuple_view(tuple@), self.fields@, tuple@.len() as int)
                                + seq![10u8],
                        decreases freq - times,
                    {
                        let ghost so_far = buf@;
                        write_row(&mut buf, tuple, &self.fields);
                        buf.push(10);
                        assert(buf@ =~= so_far + line);
                        times += 1;
                        assert(buf@ =~= before + repeated(line, times as int));
                    }
                    proof {
                        assert((tuple_view(tuple@), freq) == all[done]);
                        assert(all.skip(done).drop_first() =~= all.skip(done + 1));
                        if freq <= 0 {
                            assert(repeated(line, freq as int) =~= repeated(line, 0));
                        }
                        assert(tuple_view(tuple@).len() == tuple@.len());
                        assert(buf@ == before + repeated(line, freq as int));
                        assert(rows_text(all, self.fields@, done + 1) == rows_text(
                            all,
                            self.fields@,
                            done,
                        ) + repeated(
                            row_text(all[done].0, self.fields@, all[done].0.len() as int) + seq![
                                10u8,
                            ],
                            all[done].1 as int,
                        ));
                        done = done + 1;
                    }
                },
                None => {
                    go = false;
                },
            }
        }
        lossy_string(buf.as_slice())
    }
}

impl Runtime {
    /// The sessions of the connections that are open, in the order in
    /// which they were opened.
    pub closed spec fn sessions(self) -> Seq<Session> {
        self.connections_state.connections@
    }

    /// The id that the next connection takes is one more than this.
    pub closed spec fn counter(self) -> u32 {
        self.connections_state.connection_id_counter
    }

    /// The planner, with the catalog and the functions.
    pub closed spec fn spec_planner(self) -> Planner {
        self.planner
    }

    /// The planner, with the catalog and the functions.
    pub fn planner(&self) -> (p: &Planner)
        ensures
            *p == self.spec_planner(),
    {
        &self.planner
    }

    /// Whether no connection has an id above the counter.
    pub closed spec fn wf(self) -> bool {
        forall|i: int|
            0 <= i < self.sessions().len() ==> (#[trigger] self.sessions()[i]).connection_id
                <= self.counter()
    }

    /// Create a new runtime over a store.
    /// Create a new runtime over a store: the catalog is opened over the
    /// store, and no connection is open. It fails where opening the catalog
    /// fails, with its error.
    pub fn new(storage: Storage) -> (r: Result<Runtime, CatalogError>)
        ensures
            exists|ms: u64| #[trigger] Catalog::opened(storage@, ms, catalog_of(r)),
            r matches Ok(runtime) ==> runtime.sessions().len() == 0 && runtime.counter() == 0
                && runtime.wf() && registered(
                Seq::empty(),
                runtime.spec_planner().function_registry@,
                crate::functions::spec_builtins(),
            ),
    {
        Runtime::new_with_storage(storage)
    }

    fn new_with_storage(storage: Storage) -> (r: Result<Runtime, CatalogError>)
        ensures
            exists|ms: u64| #[trigger] Catalog::opened(storage@, ms, catalog_of(r)),
            r matches Ok(runtime) ==> runtime.sessions().len() == 0 && runtime.counter() == 0
                && runtime.wf() && registered(
                Seq::empty(),
                runtime.spec_planner().function_registry@,
                crate::functions::spec_builtins(),
            ),
    {
        let function_registry = Registry::new(true);
        let opened = Catalog::new(storage);
        let ghost ms = choose|ms: u64| #[trigger] Catalog::opened(storage@, ms, opened);
        let catalog = match opened {
            Ok(catalog) => catalog,
            Err(error) => {
                let r = Err(error);
                assert(Catalog::opened(storage@, ms, catalog_of(r)));
                return r;
            },
        };
        let planner = Planner::new(function_registry, catalog);
        let connections_state = ConnectionsState {
            connection_id_counter: 0,
            connections: Vec::new(),
        };
        let r = Ok(Runtime { connections_state, planner });
        assert(Catalog::opened(storage@, ms, catalog_of(r)));
        r
    }

    /// Creates a new runtime with in-memory storage etc to be used during tests
    pub fn new_for_test() -> (r: Result<Runtime, CatalogError>)
        ensures
            exists|ms: u64| #[trigger]
                Catalog::opened(Seq::<(Seq<u8>, Seq<u8>)>::empty(), ms, catalog_of(r)),
            r matches Ok(runtime) && runtime.sessions().len() == 0 && runtime.counter() == 0
                && runtime.wf() && registered(
                Seq::empty(),
                runtime.spec_planner().function_registry@,
                crate::functions::spec_builtins(),
            ),
    {
        let r = Runtime::new_with_storage(Storage::new_in_mem());
        proof {
            let ms = choose|ms: u64| #[trigger]
                Catalog::opened(Seq::<(Seq<u8>, Seq<u8>)>::empty(), ms, catalog_of(r));
            assert(crate::catalog::system_database_listed(
                Seq::<(Seq<u8>, Seq<u8>)>::empty(),
                "incresql".spec_bytes(),
            ) == Some(false));
        }
        r
    }

    /// Opens a connection and returns its id: one more than the id of the
    /// connection opened before it. Nothing where the ids have run out.
    pub fn new_connection(&mut self) -> (r: Option<u32>)
        requires
            old(self).wf(),
        ensures
            final(self).wf(),
            final(self).spec_planner() == old(self).spec_planner(),
            match r {
                Some(id) => id == old(self).counter() + 1 && final(self).counter() == id && final(self).sessions().len() == old(self).sessions().len() + 1 && final(self).sessions().subrange(0, old(self).sessions().len() as int) == old(self).sessions()
                    && final(self).sessions().last().connection_id == id && !final(self).sessions().last().kill_flag && find_session(
                    old(self).sessions(),
                    id,
                    old(self).sessions().len() as int,
                ) is None,
                None => old(self).counter() == u32::MAX && *final(self) == *old(self),
            },
    {
        if self.connections_state.connection_id_counter == u32::MAX {
            return None;
        }
        let ghost before = self.sessions();
        self.connections_state.connection_id_counter += 1;
        let connection_id = self.connections_state.connection_id_counter;
        let session = Session::new(connection_id);
        self.connections_state.connections.push(session);
        proof {
            assert(self.sessions().subrange(0, before.len() as int) =~= before);
            lemma_no_session_above(before, connection_id, before.len() as int);
        }
        Some(connection_id)
    }

    fn find(&self, connection_id: u32) -> (r: Option<usize>)
        ensures
            match r {
                Some(i) => find_session(self.sessions(), connection_id, self.sessions().len() as int)
                    == Some(i as int) && i < self.sessions().len() && self.sessions()[i as int].connection_id
                    == connection_id,
                None => find_session(self.sessions(), connection_id, self.sessions().len() as int)
                    is None,
            },
    {
        let mut found: Option<usize> = None;
        let mut i: usize = 0;
        while i < self.connections_state.connections.len()
            invariant
                i <= self.sessions().len(),
                match found {
                    Some(k) => find_session(self.sessions(), connection_id, i as int) == Some(
                        k as int,
                    ) && k < i && self.sessions()[k as int].connection_id == connection_id,
                    None => find_session(self.sessions(), connection_id, i as int) is None,
                },
            decreases self.sessions().len() - i,
        {
            if found.is_none() && self.connections_state.connections[i].connection_id
                == connection_id {
                found = Some(i);
            }
            i += 1;
        }
        found
    }

    /// The session of a connection.
    pub fn session(&self, connection_id: u32) -> (r: Option<&Session>)
        ensures
            match r {
                Some(session) => find_session(
                    self.sessions(),
                    connection_id,
                    self.sessions().len() as int,
                ) matches Some(i) && *session == self.sessions()[i],
                None => find_session(self.sessions(), connection_id, self.sessions().len() as int)
                    is None,
            },
    {
        match self.find(connection_id) {
            Some(i) => Some(&self.connections_state.connections[i]),
            None => None,
        }
    }

    /// Marks the connection_id passed as killed, its then up to the executors to bail out.
    pub fn kill_connection(&mut self, connection_id: u32)
        ensures
            final(self).spec_planner() == old(self).spec_planner(),
            final(self).counter() == old(self).counter(),
            final(self).sessions().len() == old(self).sessions().len(),
            old(self).wf() ==> final(self).wf(),
            forall|i: int|
                0 <= i < old(self).sessions().len() ==> {
                    let before = #[trigger] old(self).sessions()[i];
                    let after = final(self).sessions()[i];
                    &&& after.connection_id == before.connection_id
                    &&& after.current_database == before.current_database
                    &&& after.kill_flag == (before.kill_flag || find_session(
                        old(self).sessions(),
                        connection_id,
                        old(self).sessions().len() as int,
                    ) == Some(i))
                },
    {
        match self.find(connection_id) {
            Some(i) => {
                let ghost before = self.sessions();
                let mut session = Session::new(0);
                std::mem::swap(&mut session, &mut self.connections_state.connections[i]);
                session.kill_flag = true;
                self.connections_state.connections[i] = session;
                assert forall|k: int| 0 <= k < before.len() implies {
                    let b = #[trigger] before[k];
                    let a = self.sessions()[k];
                    &&& a.connection_id == b.connection_id
                    &&& a.current_database == b.current_database
                    &&& a.kill_flag == (b.kill_flag || k == i)
                } by {}
            },
            None => {},
        }
    }

    /// Used by connections when they're dropped to clean up any state
    pub fn remove_connection(&mut self, connection_id: u32)
        ensures
            final(self).spec_planner() == old(self).spec_planner(),
            final(self).counter() == old(self).counter(),
            old(self).wf() ==> final(self).wf(),
            match find_session(
                old(self).sessions(),
                connection_id,
                old(self).sessions().len() as int,
            ) {
                Some(i) => final(self).sessions() == old(self).sessions().remove(i),
                None => final(self).sessions() == old(self).sessions(),
            },
    {
        match self.find(connection_id) {
            Some(i) => {
                let ghost before = self.sessions();
                self.connections_state.connections.remove(i);
                assert(self.sessions() =~= before.remove(i as int));
            },
            None => {},
        }
    }

    /// Runs a statement on a connection at the time `now`. Where the
    /// statement creates a table the id of the table is picked from `seed`.
    ///
    /// `USE` changes the database of the session, where the database
    /// exists. A statement that creates or drops a database or creates a
    /// table is handed to the catalog and has no rows. Any other statement
    /// is planned and run; the rows are those of its plan.
    pub fn execute_statement(
        &mut self,
        connection_id: u32,
        statement: Statement,
        now: LogicalTimestamp,
        seed: u32,
    ) -> (r: Result<QueryResult, QueryError>)
        requires
            old(self).wf(),
            old(self).spec_planner().catalog.wf(),
        ensures
            final(self).wf(),
            final(self).spec_planner().catalog.wf(),
            final(self).counter() == old(self).counter(),
            final(self).sessions().len() == old(self).sessions().len(),
            forall|i: int|
                0 <= i < old(self).sessions().len() ==> (#[trigger] final(self).sessions()[i]).connection_id
                    == old(self).sessions()[i].connection_id && final(self).sessions()[i].kill_flag
                    == old(self).sessions()[i].kill_flag,
            find_session(old(self).sessions(), connection_id, old(self).sessions().len() as int)
                is None ==> r == Err::<QueryResult, QueryError>(
                QueryError::UnknownConnection(connection_id),
            ) && final(self).spec_planner().catalog.storage_view() == old(self).spec_planner().catalog.storage_view(),
            match find_session(
                old(self).sessions(),
                connection_id,
                old(self).sessions().len() as int,
            ) {
                Some(i) => change_outcome(
                    old(self).spec_planner().catalog,
                    old(self).sessions()[i],
                    statement,
                    now,
                    seed,
                    final(self).spec_planner().catalog.storage_view(),
                    final(self).sessions()[i],
                    r,
                ) && forall|k: int|
                    0 <= k < old(self).sessions().len() && k != i ==> (
                    #[trigger] final(self).sessions()[k]) == old(self).sessions()[k],
                None => true,
            },
            r is Err ==> forall|i: int|
                0 <= i < old(self).sessions().len() ==> (#[trigger] final(self).sessions()[i])
                    == old(self).sessions()[i],
            r matches Err(e) ==> !(e is ParserError),
            statement_outcome(*old(self), *final(self), connection_id, statement, now, seed, r),
            statement is Query ==> match find_session(
                old(self).sessions(),
                connection_id,
                old(self).sessions().len() as int,
            ) {
                Some(i) => query_outcome(
                    old(self).spec_planner(),
                    old(self).sessions()[i],
                    statement,
                    now,
                    final(self).spec_planner().catalog.storage_view(),
                    r,
                ),
                None => true,
            },
    {
        let index = match self.find(connection_id) {
            Some(index) => index,
            None => {
                return Err(QueryError::UnknownConnection(connection_id));
            },
        };
        match statement {
            Statement::CreateDatabase(name) => {
                let created = self.planner.catalog.create_database_at(name.as_str(), now);
                let ghost c = created;
                let r = answer(created);
                assert(answered(c, r) && old(self).spec_planner().catalog.database_created(
                    self.planner.catalog.storage_view(),
                    name@,
                    now.ms,
                    c,
                ));
                r
            },
            Statement::DropDatabase(name) => {
                let dropped = self.planner.catalog.drop_database_at(name.as_str(), now);
                let ghost c = dropped;
                let r = answer(dropped);
                assert(answered(c, r) && old(self).spec_planner().catalog.database_dropped(
                    self.planner.catalog.storage_view(),
                    name@,
                    now.ms,
                    c,
                ));
                r
            },
            Statement::CreateTable(database, table, columns) => {
                let created = match &database {
                    Some(database) => self.planner.catalog.create_table_at(
                        database.as_str(),
                        table.as_str(),
                        columns.as_slice(),
                        seed,
                        now,
                    ),
                    None => self.planner.catalog.create_table_at(
                        self.connections_state.connections[index].current_database.as_str(),
                        table.as_str(),
                        columns.as_slice(),
                        seed,
                        now,
                    ),
                };
                let ghost c = created;
                let r = answer(created);
                assert(answered(c, r) && old(self).spec_planner().catalog.table_created(
                    self.planner.catalog.storage_view(),
                    match database {
                        Some(database) => database@,
                        None => old(self).sessions()[index as int].current_database@,
                    },
                    table@,
                    columns_view(columns@),
                    seed,
                    now.ms,
                    c,
                ));
                r
            },
            Statement::UseDatabase(name) => {
                match self.planner.catalog.database_exists(name.as_str()) {
                    Ok(true) => {
                        let ghost before = self.sessions();
                        let mut session = Session::new(0);
                        std::mem::swap(&mut session, &mut self.connections_state.connections[index]);
                        session.current_database = name;
                        self.connections_state.connections[index] = session;
                        Ok(no_rows())
                    },
                    Ok(false) => Err(
                        QueryError::CatalogError(CatalogError::DatabaseNotFound(name)),
                    ),
                    Err(error) => Err(QueryError::CatalogError(error)),
                }
            },
            Statement::Query(query) => {
                let session = &self.connections_state.connections[index];
                let plan = match self.planner.plan_for_point_in_time(query, session) {
                    Ok(plan) => plan,
                    Err(error) => {
                        return Err(QueryError::PlannerError(error));
                    },
                };
                let ghost catalog_before = self.planner.catalog;
                let ghost logical = choose|logical: LogicalOperator| #[trigger]
                    lowered(logical, plan.operator) && old(self).spec_planner().spec_plan(
                        query,
                        *session,
                    ) == Ok::<PlanModel, Failure>(plan_model(logical)) && fields_view(plan.fields@)
                        == spec_fields(logical);
                let ghost physical = plan.operator;
                match build_executor(session, &plan.operator, &mut self.planner.catalog, now) {
                    Ok(rows) => {
                        proof {
                            self.planner.catalog.lemma_same_tables(catalog_before);
                            assert(lowered(logical, physical));
                        }
                        Ok(QueryResult { fields: plan.fields, rows })
                    },
                    Err(error) => {
                        proof {
                            self.planner.catalog.lemma_same_tables(catalog_before);
                            assert(lowered(logical, physical));
                        }
                        Err(QueryError::ExecutionError(error))
                    },
                }
            },
        }
    }

    /// Parses a statement and runs it on a connection, now. A text that
    /// is no statement gives the error of the parser and changes nothing;
    /// a statement is run as `execute_statement` runs it, at the time of
    /// the clock, the id of a new table picked from the hash of its name.
    pub fn execute(&mut self, connection_id: u32, sql: &str) -> (r: Result<QueryResult, QueryError>)
        requires
            old(self).wf(),
            old(self).spec_planner().catalog.wf(),
        ensures
            final(self).wf(),
            final(self).spec_planner().catalog.wf(),
            final(self).counter() == old(self).counter(),
            final(self).sessions().len() == old(self).sessions().len(),
            r matches Err(QueryError::ParserError(_)) ==> *final(self) == *old(self),
            (r matches Err(e) && e is ParserError) <==> spec_parse(sql.spec_bytes()) is None,
            (spec_parse(sql.spec_bytes()) is Some && find_session(
                old(self).sessions(),
                connection_id,
                old(self).sessions().len() as int,
            ) is None) ==> r == Err::<QueryResult, QueryError>(
                QueryError::UnknownConnection(connection_id),
            ),
            spec_parse(sql.spec_bytes()) is Some ==> exists|
                statement: Statement,
                now: LogicalTimestamp,
            | #[trigger]
                statement_outcome(
                    *old(self),
                    *final(self),
                    connection_id,
                    statement,
                    now,
                    statement_seed(statement),
                    r,
                ) && spec_parse(sql.spec_bytes()) == Some(statement_model(statement)),
    {
        let statement = match parse(sql) {
            Ok(statement) => statement,
            Err(error) => {
                return Err(QueryError::ParserError(error));
            },
        };
        let seed = table_seed(&statement);
        let now = LogicalTimestamp::now();
        let ghost run = statement;
        let r = self.execute_statement(connection_id, statement, now, seed);
        assert(statement_outcome(*old(self), *self, connection_id, run, now, seed, r));
        r
    }

    /// The number of connections that are open.
    pub fn connection_count(&self) -> (n: usize)
        ensures
            n == self.sessions().len(),
    {
        self.connections_state.connections.len()
    }
}

/// What running a statement on a connection at a time comes to, the id
/// of a new table picked from a seed: a statement on a connection that
/// is not open is refused and changes nothing; a query is answered as
/// `query_outcome` says and every other statement as `change_outcome`
/// says; no session but that of the connection changes.
pub open spec fn statement_outcome(
    before: Runtime,
    after: Runtime,
    connection_id: u32,
    statement: Statement,
    now: LogicalTimestamp,
    seed: u32,
    r: Result<QueryResult, QueryError>,
) -> bool {
    match find_session(before.sessions(), connection_id, before.sessions().len() as int) {
        Some(i) => after.sessions().len() == before.sessions().len() && change_outcome(
            before.spec_planner().catalog,
            before.sessions()[i],
            statement,
            now,
            seed,
            after.spec_planner().catalog.storage_view(),
            after.sessions()[i],
            r,
        ) && query_outcome(
            before.spec_planner(),
            before.sessions()[i],
            statement,
            now,
            after.spec_planner().catalog.storage_view(),
            r,
        ) && forall|k: int|
            0 <= k < before.sessions().len() && k != i ==> (#[trigger] after.sessions()[k])
                == before.sessions()[k],
        None => r == Err::<QueryResult, QueryError>(QueryError::UnknownConnection(connection_id))
            && after == before,
    }
}

/// What running a query comes to.
///
/// The rows are those that the lowering of the planned query gives over
/// the store as it was at the time `now`, with the fields of the plan,
/// and the store is left as running the plan leaves it. An error of the
/// planner is that of validation, or says that the validated query is
/// not plain and cannot be lowered. A statement of a session that was
/// asked to stop is not run; any other error of the run says that the
/// store cannot be read, or that the plan scans files that were not read
/// for it.
pub open spec fn query_outcome(
    planner: Planner,
    session: Session,
    statement: Statement,
    now: LogicalTimestamp,
    store_after: Seq<(Seq<u8>, Seq<u8>)>,
    r: Result<QueryResult, QueryError>,
) -> bool {
    match statement {
        Statement::Query(query) => match r {
            Ok(result) => !session.kill_flag && exists|
                logical: LogicalOperator,
                physical: PointInTimeOperator,
            | #[trigger]
                lowered(logical, physical) && planner.spec_plan(query, session) == Ok::<
                    PlanModel,
                    Failure,
                >(plan_model(logical)) && fields_view(result.fields@) == spec_fields(logical) && run(
                    physical,
                    planner.catalog.storage_view(),
                    now.ms,
                ) == Some((result.rows.remaining(), store_after)) && result.rows.current() is None,
            Err(QueryError::PlannerError(error)) => match planner.spec_validate(query, session) {
                Ok(validated) => failure_of(error) == not_plain() && !model_plain(validated),
                Err(failure) => failure == failure_of(error),
            },
            Err(QueryError::ExecutionError(ExecutionError::Killed)) => session.kill_flag && (
            planner.spec_validate(query, session) matches Ok(validated) && model_plain(validated)),
            Err(QueryError::ExecutionError(ExecutionError::StorageError(_))) => !session.kill_flag
                && exists|logical: LogicalOperator, physical: PointInTimeOperator| #[trigger]
                lowered(logical, physical) && planner.spec_plan(query, session) == Ok::<
                    PlanModel,
                    Failure,
                >(plan_model(logical)) && run(physical, planner.catalog.storage_view(), now.ms)
                    is None,
            Err(_) => false,
        },
        _ => true,
    }
}

/// The catalog of a runtime that was made, or the error in its place.
pub open spec fn catalog_of(r: Result<Runtime, CatalogError>) -> Result<Catalog, CatalogError> {
    match r {
        Ok(runtime) => Ok(runtime.spec_planner().catalog),
        Err(error) => Err(error),
    }
}

/// Whether a result is what the runtime makes of an answer of the
/// catalog: no fields and no rows where the catalog did its work, else
/// the error of the catalog.
pub open spec fn answered(c: Result<(), CatalogError>, r: Result<QueryResult, QueryError>) -> bool {
    match c {
        Ok(_) => r matches Ok(result) && result.fields@.len() == 0
            && result.rows.remaining().len() == 0 && result.rows.current() is None,
        Err(error) => r == Err::<QueryResult, QueryError>(QueryError::CatalogError(error)),
    }
}

/// What running a statement that is no query comes to.
///
/// A statement that creates or drops a database, or creates a table, is
/// answered as the catalog answers it, and the store is left as the
/// catalog leaves it; a table without a database is created in the
/// database of the session. `USE` makes a database that exists the
/// database of the session and leaves the store as it is. Every other
/// statement leaves the session as it is.
pub open spec fn change_outcome(
    catalog: Catalog,
    session: Session,
    statement: Statement,
    now: LogicalTimestamp,
    seed: u32,
    store_after: Seq<(Seq<u8>, Seq<u8>)>,
    session_after: Session,
    r: Result<QueryResult, QueryError>,
) -> bool {
    match statement {
        Statement::CreateDatabase(name) => session_after == session && exists|
            c: Result<(), CatalogError>,
        | #[trigger]
            answered(c, r) && catalog.database_created(store_after, name@, now.ms, c),
        Statement::DropDatabase(name) => session_after == session && exists|
            c: Result<(), CatalogError>,
        | #[trigger]
            answered(c, r) && catalog.database_dropped(store_after, name@, now.ms, c),
        Statement::CreateTable(database, table, columns) => session_after == session && exists|
            c: Result<(), CatalogError>,
        | #[trigger]
            answered(c, r) && catalog.table_created(
                store_after,
                match database {
                    Some(database) => database@,
                    None => session.current_database@,
                },
                table@,
                columns_view(columns@),
                seed,
                now.ms,
                c,
            ),
        Statement::UseDatabase(name) => store_after == catalog.storage_view() && (
        match catalog.spec_db_exists(vstd::utf8::encode_utf8(name@)) {
            Some(true) => answered(Ok(()), r) && session_after.current_database == name
                && session_after.connection_id == session.connection_id
                && session_after.kill_flag == session.kill_flag,
            Some(false) => r == Err::<QueryResult, QueryError>(
                QueryError::CatalogError(CatalogError::DatabaseNotFound(name)),
            ) && session_after == session,
            None => r matches Err(QueryError::CatalogError(error)) && error is StorageError
                && session_after == session,
        }),
        Statement::Query(_) => session_after == session,
    }
}

/// What the runtime makes of an answer of the catalog.
fn answer(c: Result<(), CatalogError>) -> (r: Result<QueryResult, QueryError>)
    ensures
        answered(c, r),
{
    match c {
        Ok(_) => Ok(no_rows()),
        Err(error) => Err(QueryError::CatalogError(error)),
    }
}

/// A result without rows.
pub fn no_rows() -> (r: QueryResult)
    ensures
        r.fields@.len() == 0,
        r.rows.remaining().len() == 0,
        r.rows.current() is None,
{
    let rows: Vec<Row> = Vec::new();
    QueryResult { fields: Vec::new(), rows: TupleIter::new(rows, 0) }
}

/// The number that the id of a new table is picked from: a hash of the
/// name of the table. Any other statement needs none.
pub open spec fn statement_seed(statement: Statement) -> u32 {
    match statement {
        Statement::CreateTable(_, table, _) => crate::catalog::spec_table_seed(
            vstd::utf8::encode_utf8(table@),
        ),
        _ => 0,
    }
}

/// The number that the id of a new table is picked from: a hash of the
/// name of the table. Any other statement needs none.
fn table_seed(statement: &Statement) -> (seed: u32)
    ensures
        seed == statement_seed(*statement),
{
    match statement {
        Statement::CreateTable(_, table, _) => crate::catalog::table_seed(table.as_str()),
        _ => 0,
    }
}

/// No session has an id above the counter, so none has the next id.
pub proof fn lemma_no_session_above(sessions: Seq<Session>, id: u32, n: int)
    requires
        0 <= n <= sessions.len(),
        forall|i: int| 0 <= i < sessions.len() ==> (#[trigger] sessions[i]).connection_id < id,
    ensures
        find_session(sessions, id, n) is None,
    decreases n,
{
    if n > 0 {
        lemma_no_session_above(sessions, id, n - 1);
    }
}

} // verus!
