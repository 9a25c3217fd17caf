//! A named, typed column of a table schema.
use vstd::prelude::*;

use crate::db_core::dtype::{spec_parse, DataTypeKind};
use crate::text::string_of;

verus! {

#[derive(Debug, PartialEq, Eq)]
pub struct ColumnDefinition {
    dtype: DataTypeKind,
    width: u32,
    name: String,
}

impl ColumnDefinition {
    /// The column's data type.
    pub closed spec fn spec_data_type(&self) -> DataTypeKind {
        self.dtype
    }

    /// The column's name.
    pub closed spec fn spec_name(&self) -> Seq<char> {
        self.name@
    }

    /// The stored byte width.
    pub closed spec fn spec_width(&self) -> u32 {
        self.width
    }

    /// The stored byte width agrees with the data type.
    pub closed spec fn wf(&self) -> bool {
        self.width == self.dtype.spec_byte_width()
    }

    /// The stored width of a well-formed column is its type's width: two
    /// columns with the same name and type agree in name, type and width.
    pub proof fn lemma_same_arguments_agree(a: ColumnDefinition, b: ColumnDefinition)
        requires
            a.wf(),
            b.wf(),
            a.spec_name() == b.spec_name(),
            a.spec_data_type() == b.spec_data_type(),
        ensures
            a.spec_width() == b.spec_width(),
            a.spec_width() == a.spec_data_type().spec_byte_width(),
    {
    }

    pub fn new(name: &str, data_type: DataTypeKind) -> (column: Self)
        requires
            name@.len() > 0,
        ensures
            column.wf(),
            column.spec_name() == name@,
            column.spec_data_type() == data_type,
    {
        Self { dtype: data_type, width: data_type.byte_width() as u32, name: string_of(name) }
    }

    pub fn from_type_name(name: &str, data_type_name: &str) -> (column: Self)
        requires
            name@.len() > 0,
            data_type_name@.len() > 0,
            spec_parse(data_type_name@) is Some,
        ensures
            column.wf(),
            column.spec_name() == name@,
            column.spec_data_type() == spec_parse(data_type_name@).unwrap(),
    {
        match DataTypeKind::parse(data_type_name) {
            Ok(kind) => Self::new(name, kind),
            Err(_) => {
                proof {
                    assert(false);
                }
                Self::new(name, DataTypeKind::U8)
            },
        }
    }

    pub fn byte_width(&self) -> (width: usize)
        ensures
            width == self.spec_data_type().spec_byte_width(),
    {
        self.dtype.byte_width()
    }

    pub fn data_type(&self) -> (kind: DataTypeKind)
        ensures
            kind == self.spec_data_type(),
    {
        self.dtype
    }

    pub fn name(&self) -> (name: &str)
        ensures
            name@ == self.spec_name(),
    {
        self.name.as_str()
    }
}

} // verus!
