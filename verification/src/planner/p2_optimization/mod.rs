//! Optimization of a validated plan.

use vstd::prelude::*;
use crate::ast::rel::logical::LogicalOperator;
use crate::data::Session;
use crate::planner::Planner;
use crate::planner::p2_optimization::fold_constants::folded_plan;
use crate::planner::p2_optimization::optimize_model::{lemma_optimized_model, model_optimize};
use crate::planner::p2_optimization::predicate_pushdown::pushed;
use crate::planner::plan_model::plan_model;
use crate::planner::utils::logical::spec_fields;

pub mod fold_constants;
pub mod optimize_model;
pub mod predicate_pushdown;

verus! {

/// Whether `r` is the plan optimized: its constants are folded, and in
/// what that gives the predicates are pushed down.
pub open spec fn optimized(query: LogicalOperator, r: LogicalOperator) -> bool {
    exists|folded: LogicalOperator| #[trigger]
        folded_plan(query, folded) && pushed(folded, Seq::empty(), r)
}

impl Planner {
    /// Optimizes a validated plan: constants are folded and predicates
    /// pushed down. The fields of the plan stay as they are.
    pub fn optimize(&self, query: LogicalOperator, session: &Session) -> (r: LogicalOperator)
        ensures
            optimized(query, r),
            plan_model(r) == model_optimize(plan_model(query)),
            spec_fields(r) == spec_fields(query),
    {
        let folded = fold_constants::fold_constants(query, session);
        let ghost middle = folded;
        let r = predicate_pushdown::predicate_pushdown(folded);
        assert(folded_plan(query, middle) && pushed(middle, Seq::empty(), r));
        proof {
            lemma_optimized_model(query, r);
        }
        r
    }
}

} // verus!
