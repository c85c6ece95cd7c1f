//! What every kind of plan begins with.

use vstd::prelude::*;
use crate::ast::rel::logical::LogicalOperator;
use crate::data::Session;
use crate::planner::{fields_view, Field, Planner, PlannerError};
use crate::planner::p1_validation::compile_model::{failure_of, Failure};
use crate::planner::p1_validation::plan_outcome;
use crate::planner::p2_optimization::optimize_model::{lemma_optimized_model, model_optimize};
use crate::planner::p2_optimization::optimized;
use crate::planner::p4_pit_planning::lowerable;
use crate::planner::p4_pit_planning::lowerable::{
    lemma_optimized_lowerable,
    lemma_plain_model,
    lemma_validated_lowerable,
    model_plain,
};
use crate::planner::plan_model::{plan_model, PlanModel};
use crate::planner::utils::logical::{fields_for_operator, spec_fields};

verus! {

impl Planner {
    /// What planning a query gives: the query validated and then
    /// optimized, or the error that validating it comes to.
    pub open spec fn spec_plan(self, query: LogicalOperator, session: Session) -> Result<
        PlanModel,
        Failure,
    > {
        match self.spec_validate(query, session) {
            Ok(validated) => Ok(model_optimize(validated)),
            Err(failure) => Err(failure),
        }
    }

    /// Validates and optimizes a query. Returns the fields that the query
    /// puts out together with the plan. The query is planned exactly
    /// where it validates; an error is that of validation. The plan can
    /// be lowered exactly where the validated query is plain.
    pub fn plan_common(&self, query: LogicalOperator, session: &Session) -> (r: Result<
        (Vec<Field>, LogicalOperator),
        PlannerError,
    >)
        ensures
            match r {
                Ok((fields, plan)) => self.spec_plan(query, *session) == Ok::<PlanModel, Failure>(
                    plan_model(plan),
                ) && fields_view(fields@) == spec_fields(plan) && (
                self.spec_validate(query, *session) matches Ok(validated) && lowerable(plan)
                    == model_plain(validated)),
                Err(error) => self.spec_plan(query, *session) == Err::<PlanModel, Failure>(
                    failure_of(error),
                ),
            },
    {
        let validated = match self.validate(query, session) {
            Ok(validated) => validated,
            Err(error) => {
                return Err(error);
            },
        };
        let ghost middle = validated;
        let plan = self.optimize(validated, session);
        proof {
            lemma_validated_lowerable(middle);
            lemma_plain_model(middle);
            lemma_optimized_lowerable(middle, plan);
        }
        let fields = fields_for_operator(&plan);
        Ok((fields, plan))
    }

    /// Planning is deterministic: of one query, one session and one
    /// catalog, any two validated plans are the same plan, and so are any
    /// two optimized plans.
    pub proof fn lemma_planning_deterministic(
        self,
        query: LogicalOperator,
        session: Session,
        validated_a: LogicalOperator,
        validated_b: LogicalOperator,
        optimized_a: LogicalOperator,
        optimized_b: LogicalOperator,
    )
        requires
            self.spec_validate(query, session) == Ok::<PlanModel, Failure>(plan_model(validated_a)),
            self.spec_validate(query, session) == Ok::<PlanModel, Failure>(plan_model(validated_b)),
            optimized(validated_a, optimized_a),
            optimized(validated_b, optimized_b),
        ensures
            plan_model(validated_a) == plan_model(validated_b),
            plan_model(optimized_a) == plan_model(optimized_b),
    {
        lemma_optimized_model(validated_a, optimized_a);
        lemma_optimized_model(validated_b, optimized_b);
    }

    /// Errors are deterministic too: of one query, one session and one
    /// catalog, any two errors of validation are of one kind and carry one
    /// text, and a query that validates gives no error.
    pub proof fn lemma_errors_deterministic(
        self,
        query: LogicalOperator,
        session: Session,
        a: Result<LogicalOperator, PlannerError>,
        b: Result<LogicalOperator, PlannerError>,
    )
        requires
            plan_outcome(a) == self.spec_validate(query, session),
            plan_outcome(b) == self.spec_validate(query, session),
        ensures
            match (a, b) {
                (Ok(first), Ok(second)) => plan_model(first) == plan_model(second),
                (Err(first), Err(second)) => failure_of(first) == failure_of(second),
                _ => false,
            },
    {
    }
}

} // verus!
