//! The first-phase logical plan: a scan of chosen columns of one table.
use vstd::prelude::*;

verus! {

/// A scan of the columns at `column_indices` of the table `table_name`.
pub enum LogicalPlan {
    Scan { table_name: String, column_indices: Vec<usize> },
}

impl Default for LogicalPlan {
    /// A scan of no columns of the table with the empty name.
    fn default() -> (plan: Self)
        ensures
            plan matches LogicalPlan::Scan { table_name, column_indices } && table_name@.len() == 0
                && column_indices@.len() == 0,
    {
        LogicalPlan::Scan { table_name: String::new(), column_indices: Vec::new() }
    }
}

} // verus!
