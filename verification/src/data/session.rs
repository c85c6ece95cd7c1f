//! The state of one connection.

use vstd::prelude::*;

verus! {

/// What a connection carries from statement to statement.
#[derive(Debug)]
pub struct Session {
    pub connection_id: u32,
    /// The database that unqualified table names are looked up in.
    pub current_database: String,
    /// Set to ask a running statement to stop.
    pub kill_flag: bool,
}

impl Session {
    /// A session on the database `default`.
    pub fn new(connection_id: u32) -> (s: Session)
        ensures
            s.connection_id == connection_id,
            s.current_database@ == "default"@,
            !s.kill_flag,
    {
        Session { connection_id, current_database: "default".to_owned(), kill_flag: false }
    }
}

} // verus!
