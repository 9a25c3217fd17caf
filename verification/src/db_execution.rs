//! Execution: physical plans and query results.
pub mod query_result;

pub use query_result::{QueryResult, ResultColumn, ResultColumnChunk};

use crate::db_catalog::Database;
use crate::db_types::{LogicalPlan, PhysicalPlan};
use vstd::prelude::*;

verus! {

/// The physical plan of a logical plan; not implemented yet: the default
/// plan comes back.
pub fn physical_plan(_lplan: LogicalPlan) -> (plan: PhysicalPlan)
    ensures
        plan matches PhysicalPlan::TableScan { table_name, column_indices } && table_name@.len() == 0
            && column_indices@.len() == 0,
{
    PhysicalPlan::default()
}

/// Runs a physical plan; not implemented yet: the result is empty.
pub fn execute<'a>(_pplan: PhysicalPlan, _database: &'a Database) -> (result: QueryResult<'a>)
    ensures
        result.spec_columns().len() == 0,
        result.spec_row_count() == 0,
{
    QueryResult::new(Vec::new(), 0)
}

} // verus!
