//! Values, types and their order-preserving binary encoding.

use vstd::prelude::*;
use vstd::string::StringSliceAdditionalSpecFns;

pub mod datatype;
pub mod bytes_order;
pub mod date;
pub mod datum;
pub mod display;
pub mod decimal;
pub mod encoding_core;
pub mod encoding_datum;
pub mod encoding_order;
pub mod encoding_round_trip;
pub mod json;
pub mod jsonpath_utils;
pub mod session;
pub mod text;
pub mod tuple_iter;

pub use datatype::{DataType, DECIMAL_MAX_PRECISION, DECIMAL_MAX_SCALE};
pub use datum::{Datum, TypedDatum, Value};
pub use decimal::Decimal;
pub use session::Session;
pub use tuple_iter::{rows_view, tuple_view, Row, TupleIter};

verus! {

/// General sort order enum.
#[derive(Debug, PartialEq, Eq, Structural, Copy, Clone)]
pub enum SortOrder {
    Asc,
    Desc,
}

impl SortOrder {
    pub fn is_asc(&self) -> (b: bool)
        ensures
            b == (*self == SortOrder::Asc),
    {
        *self == SortOrder::Asc
    }

    pub fn is_desc(&self) -> (b: bool)
        ensures
            b == (*self == SortOrder::Desc),
    {
        *self == SortOrder::Desc
    }

    /// The keyword of this order in SQL text.
    pub open spec fn sql_name(self) -> Seq<u8> {
        match self {
            SortOrder::Asc => "ASC".spec_bytes(),
            SortOrder::Desc => "DESC".spec_bytes(),
        }
    }

    /// Appends the SQL keyword of this order to `buf`.
    pub fn write_sql(&self, buf: &mut Vec<u8>)
        ensures
            final(buf)@ == old(buf)@ + self.sql_name(),
    {
        match self {
            SortOrder::Asc => text::push_text(buf, "ASC"),
            SortOrder::Desc => text::push_text(buf, "DESC"),
        }
    }
}

/// The outcome of comparing two values in the total order.
#[derive(Debug, PartialEq, Eq, Structural, Copy, Clone)]
pub enum Comparison {
    Less,
    Equal,
    Greater,
}

impl Comparison {
    /// The sign of a difference, as a comparison.
    pub open spec fn of_int(difference: int) -> Comparison {
        if difference < 0 {
            Comparison::Less
        } else if difference == 0 {
            Comparison::Equal
        } else {
            Comparison::Greater
        }
    }

    /// -1, 0 or 1.
    pub open spec fn sign(self) -> int {
        match self {
            Comparison::Less => -1,
            Comparison::Equal => 0,
            Comparison::Greater => 1,
        }
    }

    /// The comparison with its two sides exchanged.
    pub open spec fn spec_reverse(self) -> Comparison {
        match self {
            Comparison::Less => Comparison::Greater,
            Comparison::Equal => Comparison::Equal,
            Comparison::Greater => Comparison::Less,
        }
    }

    #[verifier::when_used_as_spec(spec_reverse)]
    pub fn reverse(self) -> (r: Comparison)
        ensures
            r == self.spec_reverse(),
    {
        match self {
            Comparison::Less => Comparison::Greater,
            Comparison::Equal => Comparison::Equal,
            Comparison::Greater => Comparison::Less,
        }
    }
}

/// Timestamps for tracking tuples through the system, used for MVCC style point in time queries.
/// They are ordered by their milliseconds.
#[derive(Debug, PartialEq, Eq, PartialOrd, Ord, Structural, Copy, Clone)]
pub struct LogicalTimestamp {
    pub ms: u64,
}

/// Reads the wall clock through `std::time::SystemTime::now`, as whole
/// milliseconds since the Unix epoch. Nothing is claimed of the value: it
/// differs from call to call, and a clock set before 1970 reads as zero.
#[verifier::external_body]
fn wall_clock_ms() -> u64 {
    match std::time::SystemTime::now().duration_since(std::time::UNIX_EPOCH) {
        Ok(since) => since.as_millis() as u64,
        Err(_) => 0,
    }
}

impl LogicalTimestamp {
    /// Creates a new logical timestamp based on the number of ms since 1970.
    pub fn new(ms: u64) -> (t: Self)
        ensures
            t.ms == ms,
    {
        LogicalTimestamp { ms }
    }

    /// The sentinel that reads the latest version of every row.
    pub fn maximum() -> (t: Self)
        ensures
            t.ms == u64::MAX,
    {
        LogicalTimestamp { ms: u64::MAX }
    }

    /// Creates a new logical timestamp based on the current system time.
    pub fn now() -> Self {
        LogicalTimestamp { ms: wall_clock_ms() }
    }
}

impl Default for LogicalTimestamp {
    fn default() -> (t: Self)
        ensures
            t.ms == 0,
    {
        LogicalTimestamp { ms: 0 }
    }
}

} // verus!
