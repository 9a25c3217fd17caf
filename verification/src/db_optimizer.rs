//! Planning: turning resolved plans into operator trees, and logical plans
//! into physical ones.
pub mod build_plan;
pub mod planner;

pub use build_plan::build_plan;
pub use planner::plan;

use crate::db_types::LogicalPlan;
use vstd::prelude::*;

verus! {

/// Rewrites a logical plan; no rewrite is implemented yet, and the default
/// plan comes back.
pub fn optimize(_lplan: LogicalPlan) -> (plan: LogicalPlan)
    ensures
        plan matches LogicalPlan::Scan { table_name, column_indices } && table_name@.len() == 0
            && column_indices@.len() == 0,
{
    LogicalPlan::default()
}

} // verus!
