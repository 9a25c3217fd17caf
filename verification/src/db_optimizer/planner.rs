//! Physical planning.
use vstd::prelude::*;

use crate::db_types::{LogicalPlan, PhysicalPlan};

verus! {

/// Convert a logical plan into a physical plan.
///
/// Phase 1: direct passthrough. No rewrites, no cost model.
pub fn plan(logical: &LogicalPlan) -> (physical: PhysicalPlan)
    ensures
        match (*logical, physical) {
            (
                LogicalPlan::Scan { table_name, column_indices },
                PhysicalPlan::TableScan { table_name: name, column_indices: indices },
            ) => name@ == table_name@ && indices@ == column_indices@,
        },
{
    match logical {
        LogicalPlan::Scan { table_name, column_indices } => {
            let indices = column_indices.clone();
            assert(indices@ =~= column_indices@);
            PhysicalPlan::TableScan { table_name: table_name.clone(), column_indices: indices }
        },
    }
}

} // verus!
