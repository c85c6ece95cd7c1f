//! Tables of versioned rows over an ordered key-value store.

use vstd::prelude::*;

pub mod error;
pub mod layout;
pub mod row_round_trip;
pub mod store;
pub mod table;

pub use error::StorageError;
pub use store::{Entry, Storage};
pub use table::{Table, WriteBatch};
