//! Plans before name resolution.
pub mod unresolved_plan;
