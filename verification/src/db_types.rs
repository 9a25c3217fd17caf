//! Shared types of the query pipeline: column definitions, plans and query
//! output.
pub mod column_definition;
pub mod logical_plan;
pub mod physical_plan;
pub mod plan;

pub use crate::db_core::dtype::DataTypeKind;
pub use crate::lsdb_types::table_schema::TableSchema;
pub use column_definition::ColumnDefinition;
pub use logical_plan::LogicalPlan;
pub use physical_plan::PhysicalPlan;
