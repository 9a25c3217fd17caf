//! A small columnar database: typed schemas, columnar row storage, ASCII
//! table rendering, SQL binding and logical planning, with contracts proved
//! by Verus.
pub mod database;
pub mod db_catalog;
pub mod db_core;
pub mod db_execution;
pub mod db_optimizer;
pub mod db_sql;
pub mod db_storage;
pub mod db_types;
pub mod dtype;
pub mod error;
pub mod format_table;
pub mod lsdb_types;
pub mod render;
pub mod table;
pub mod text;
