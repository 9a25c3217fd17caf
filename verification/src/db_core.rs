//! Core storage types: data types, column definitions, schemas, table
//! metadata and zone maps.
pub mod column_def;
pub mod dtype;
pub mod stringt;
pub mod table_format;
pub mod table_meta;
pub mod table_schema;
