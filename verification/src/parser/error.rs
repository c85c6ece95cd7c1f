//! Errors of the parser.

use vstd::prelude::*;

verus! {

/// Why a text is no statement.
#[derive(Debug, PartialEq, Eq)]
pub enum ParserError {
    /// The place in the text, counted in bytes, and what was expected there.
    Syntax { position: usize, expected: String },
}

} // verus!
