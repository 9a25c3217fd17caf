//! The catalog: tables with their schemas, buffered writes and partitions,
//! and the database that names them.
pub mod columns;
pub mod database;
pub mod statistics;
pub mod table;

pub use database::Database;
pub use statistics::TableStatistics;
pub use table::{DBTable, TableMeta};
