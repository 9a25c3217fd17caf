//! Typed errors of the fallible database operations.
use vstd::prelude::*;

verus! {

/// Typed error enum for all fallible database operations.
#[derive(Debug, Clone, PartialEq, Eq)]
pub enum Error {
    /// A type name that names no supported data type.
    UnknownDataType { data_type_name: String },
    /// A table name that names no table of the database.
    TableNotFound { table_name: String },
    /// Inserted bytes that do not split into whole rows.
    InvalidRowBytes { length_bytes_actual: usize, size_bytes_row: usize },
    /// A table name that is already taken.
    TableAlreadyExists { table_name: String },
}

} // verus!
