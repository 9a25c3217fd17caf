//! Physical plans: operators as they are executed.
use vstd::prelude::*;

verus! {

/// A full scan of the columns at `column_indices` of the table `table_name`.
pub enum PhysicalPlan {
    TableScan { table_name: String, column_indices: Vec<usize> },
}

impl Default for PhysicalPlan {
    /// A scan of no columns of the table with the empty name.
    fn default() -> (plan: Self)
        ensures
            plan matches PhysicalPlan::TableScan { table_name, column_indices } && table_name@.len() == 0
                && column_indices@.len() == 0,
    {
        PhysicalPlan::TableScan { table_name: String::new(), column_indices: Vec::new() }
    }
}

} // verus!
