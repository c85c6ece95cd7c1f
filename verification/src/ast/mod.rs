//! The syntax trees of expressions and of relational operators.

pub mod expr;
pub mod model;
pub mod rel;
