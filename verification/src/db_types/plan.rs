//! Query plans at the three stages of planning: unresolved (names), resolved
//! (catalog entries) and logical (operator trees).
pub mod logical_plan;
pub mod resolved_plan;

pub use crate::lsdb_types::plan::unresolved_plan::{
    UnresolvedExpr, UnresolvedFunctionArgs, UnresolvedPlan, UnresolvedSelectItem,
};
pub use logical_plan::{
    AggregateExpr, AggregateFunction, ColumnRef, LogicalPlan, OutputColumn, ProjectionExpr,
    ScanColumn,
};
pub use resolved_plan::{
    ResolvedAggregate, ResolvedAggregateFunction, ResolvedColumn, ResolvedExpr, ResolvedPlan,
    ResolvedSelectItem, ResolvedTable,
};
