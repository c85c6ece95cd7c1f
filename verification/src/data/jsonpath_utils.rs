//! Compiled JSON path expressions.

use vstd::prelude::*;
use crate::data::text::to_vec;

verus! {

/// A JSON path ready for evaluation. It keeps the text it was compiled from,
/// which is what orders, encodes and prints it.
#[derive(Debug)]
pub struct JsonPathExpression {
    original: Vec<u8>,
}

impl View for JsonPathExpression {
    type V = Seq<u8>;

    /// The source text.
    closed spec fn view(&self) -> Seq<u8> {
        self.original@
    }
}

impl JsonPathExpression {
    /// Compiles a path from its text.
    pub fn parse(text: &[u8]) -> (r: Option<JsonPathExpression>)
        ensures
            r matches Some(e) && e@ == text@,
    {
        Some(JsonPathExpression { original: to_vec(text) })
    }

    /// The text the path was compiled from.
    pub fn original(&self) -> (text: &[u8])
        ensures
            text@ == self@,
    {
        self.original.as_slice()
    }
}

impl Clone for JsonPathExpression {
    fn clone(&self) -> (r: Self)
        ensures
            r@ == self@,
    {
        JsonPathExpression { original: to_vec(self.original.as_slice()) }
    }
}

} // verus!
