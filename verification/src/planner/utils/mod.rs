//! Helpers on expressions and operators.

pub mod expr;
pub mod expr_laws;
pub mod expr_model;
pub mod logical;
