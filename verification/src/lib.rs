//! An incremental SQL engine: values and their sortable encoding, a
//! multi-version table store, a catalog, a function registry, a planner and
//! streaming executors.

pub mod ast;
pub mod catalog;
pub mod data;
pub mod executor;
pub mod functions;
pub mod parser;
pub mod planner;
pub mod runtime;
pub mod storage;
