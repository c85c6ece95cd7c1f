//! Relational operators: the logical plan and the point-in-time plan.

pub mod logical;
pub mod point_in_time;
