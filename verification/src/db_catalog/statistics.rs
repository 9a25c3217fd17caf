//! Table-level statistics.
use vstd::prelude::*;

verus! {

/// Statistics kept for a table; none are collected yet.
#[derive(Debug)]
pub struct TableStatistics {}

impl TableStatistics {
    pub fn new() -> (statistics: Self) {
        Self {  }
    }
}

impl Default for TableStatistics {
    fn default() -> (statistics: Self) {
        Self::new()
    }
}

} // verus!
