//! The SQL parser: text to statements and logical plans.

use vstd::prelude::*;

pub mod atoms;
pub mod error;
pub mod expression;
pub mod expression_grammar;
pub mod grammar;
pub mod select;
pub mod select_grammar;
pub mod statement;
pub mod statement_grammar;

pub use error::ParserError;
pub use select::select;
pub use statement::{parse, Statement};

