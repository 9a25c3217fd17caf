//! A named, typed column of a table schema.
use vstd::prelude::*;

use crate::db_core::dtype::{spec_parse, DataTypeKind};
use crate::text::string_of;

verus! {

#[derive(Debug, PartialEq, Eq)]
pub struct ColumnDef {
    data_type: DataTypeKind,
    width: u32,
    name: String,
}

impl ColumnDef {
    /// The column's data type.
    pub closed spec fn spec_data_type(&self) -> DataTypeKind {
        self.data_type
    }

    /// The column's name.
    pub closed spec fn spec_name(&self) -> Seq<char> {
        self.name@
    }

    /// The stored byte width agrees with the data type.
    pub closed spec fn wf(&self) -> bool {
        self.width == self.data_type.spec_byte_width()
    }

    pub fn new(name: &str, data_type: DataTypeKind) -> (column: Self)
        requires
            name@.len() > 0,
        ensures
            column.wf(),
            column.spec_name() == name@,
            column.spec_data_type() == data_type,
    {
        Self { data_type, width: data_type.byte_width() as u32, name: string_of(name) }
    }

    pub fn from_type_name(name: &str, data_type_name: &str) -> (column: Self)
        requires
            name@.len() > 0,
            data_type_name@.len() > 0,
            spec_parse(data_type_name@) is Some,
        ensures
            column.wf(),
            column.spec_name() == name@,
            column.spec_data_type() == spec_parse(data_type_name@).unwrap(),
    {
        match DataTypeKind::parse(data_type_name) {
            Ok(kind) => Self::new(name, kind),
            Err(_) => {
                proof {
                    assert(false);
                }
                Self::new(name, DataTypeKind::U8)
            },
        }
    }

    pub fn byte_width(&self) -> (width: usize)
        ensures
            width == self.spec_data_type().spec_byte_width(),
    {
        self.data_type.byte_width()
    }

    pub fn data_type(&self) -> (kind: DataTypeKind)
        ensures
            kind == self.spec_data_type(),
    {
        self.data_type
    }

    pub fn name(&self) -> (name: &str)
        ensures
            name@ == self.spec_name(),
    {
        self.name.as_str()
    }
}

} // verus!
