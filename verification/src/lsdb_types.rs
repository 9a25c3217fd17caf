//! Types of the second-generation engine: schemas and unresolved plans.
pub mod plan;
pub mod table_schema;
