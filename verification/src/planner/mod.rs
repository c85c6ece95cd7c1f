//! The planner: validation of a logical plan against the catalog and the
//! function registry, optimization, and lowering to a point-in-time plan.

use vstd::prelude::*;
use crate::catalog::{Catalog, CatalogError};
use crate::data::DataType;
use crate::functions::registry::Registry;
use crate::functions::scalar::registered;

pub mod common;
pub mod error;
pub mod p1_validation;
pub mod p2_optimization;
pub mod p4_pit_planning;
pub mod plan_model;
pub mod utils;

pub use error::PlannerError;
pub use p4_pit_planning::PointInTimePlan;

verus! {

/// A column of the output of an operator.
#[derive(Debug, PartialEq, Eq)]
pub struct Field {
    pub qualifier: Option<String>,
    pub alias: String,
    pub data_type: DataType,
}

/// What a field stands for.
pub struct FieldView {
    pub qualifier: Option<Seq<char>>,
    pub alias: Seq<char>,
    pub data_type: DataType,
}

impl View for Field {
    type V = FieldView;

    open spec fn view(&self) -> FieldView {
        FieldView {
            qualifier: match self.qualifier {
                Some(q) => Some(q@),
                None => None,
            },
            alias: self.alias@,
            data_type: self.data_type,
        }
    }
}

impl Clone for Field {
    fn clone(&self) -> (r: Self)
        ensures
            r@ == self@,
    {
        Field {
            qualifier: match &self.qualifier {
                Some(q) => Some(q.clone()),
                None => None,
            },
            alias: self.alias.clone(),
            data_type: self.data_type,
        }
    }
}

/// The views of a list of fields.
pub open spec fn fields_view(fields: Seq<Field>) -> Seq<FieldView> {
    Seq::new(fields.len(), |i: int| fields[i]@)
}

/// Plans queries against a catalog with the functions of a registry.
#[derive(Debug)]
pub struct Planner {
    pub function_registry: Registry,
    pub catalog: Catalog,
}

impl Planner {
    pub fn new(function_registry: Registry, catalog: Catalog) -> (p: Planner)
        ensures
            p.function_registry == function_registry,
            p.catalog == catalog,
    {
        Planner { function_registry, catalog }
    }

    /// A planner with the built-in functions over a new catalog in memory:
    /// the catalog is that of an empty store after the rows that describe
    /// the system itself were written.
    pub fn new_for_test() -> (r: Result<Planner, CatalogError>)
        ensures
            r matches Ok(p) && p.catalog.wf() && registered(
                Seq::empty(),
                p.function_registry@,
                crate::functions::spec_builtins(),
            ) && exists|ms: u64| #[trigger]
                Catalog::opened(
                    Seq::<(Seq<u8>, Seq<u8>)>::empty(),
                    ms,
                    Ok::<Catalog, CatalogError>(p.catalog),
                ),
    {
        let opened = Catalog::new_for_test();
        let ghost ms = choose|ms: u64| #[trigger]
            Catalog::opened(Seq::<(Seq<u8>, Seq<u8>)>::empty(), ms, opened);
        match opened {
            Ok(catalog) => {
                let p = Planner::new(Registry::new(true), catalog);
                assert(Catalog::opened(
                    Seq::<(Seq<u8>, Seq<u8>)>::empty(),
                    ms,
                    Ok::<Catalog, CatalogError>(p.catalog),
                ));
                Ok(p)
            },
            Err(e) => Err(e),
        }
    }
}

} // verus!
