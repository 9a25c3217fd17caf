//! One column's bytes within a table partition, with statistics of the values.
use vstd::prelude::*;

use crate::db_storage::column_statistics::ColumnSegmentStatistics;
use crate::db_storage::zone_map::{spec_zone_updated, spec_zone_width, ZoneMap};
use crate::db_types::{ColumnDefinition, TableSchema};

verus! {

/// The values of one column of a partition, packed back to back, with the
/// index of the column's definition in the table schema.
#[derive(Debug)]
pub struct ColumnSegment {
    data: Vec<u8>,
    column_def_index: usize,
    stats: ColumnSegmentStatistics,
}

impl ColumnSegment {
    /// The bytes pushed so far.
    pub closed spec fn spec_data(&self) -> Seq<u8> {
        self.data@
    }

    /// Index of the column's definition in the table schema.
    pub closed spec fn spec_column_index(&self) -> usize {
        self.column_def_index
    }

    /// Zone map of the values pushed so far.
    pub closed spec fn spec_zone_map(&self) -> ZoneMap {
        self.stats.spec_zone_map()
    }

    pub fn new(column_index: usize) -> (segment: Self)
        ensures
            segment.spec_data() == Seq::<u8>::empty(),
            segment.spec_column_index() == column_index,
            segment.spec_zone_map().spec_min() == Seq::new(8, |i: int| 0u8),
            segment.spec_zone_map().spec_max() == Seq::new(8, |i: int| 0u8),
    {
        Self { data: Vec::new(), column_def_index: column_index, stats: ColumnSegmentStatistics::new() }
    }

    /// Reserves room for `additional` more bytes.
    pub fn reserve(&mut self, additional: usize)
        ensures
            final(self).spec_data() == old(self).spec_data(),
            final(self).spec_column_index() == old(self).spec_column_index(),
            final(self).spec_zone_map() == old(self).spec_zone_map(),
    {
        self.data.reserve(additional);
    }

    /// Appends one value of this column and records it in the statistics.
    pub fn push_dtype_val(&mut self, bytes: &[u8], schema: &TableSchema)
        requires
            old(self).spec_column_index() < schema.spec_columns().len(),
            bytes@.len() >= spec_zone_width(schema.spec_columns()[old(self).spec_column_index() as int].spec_data_type()),
        ensures
            final(self).spec_data() == old(self).spec_data() + bytes@,
            final(self).spec_column_index() == old(self).spec_column_index(),
            spec_zone_updated(
                old(self).spec_zone_map(),
                final(self).spec_zone_map(),
                bytes@,
                schema.spec_columns()[old(self).spec_column_index() as int].spec_data_type(),
            ),
    {
        self.stats.update(bytes, schema, self.column_def_index);
        self.data.extend_from_slice(bytes);
    }

    /// The column's definition in `schema`.
    pub fn definition<'a>(&self, schema: &'a TableSchema) -> (definition: &'a ColumnDefinition)
        requires
            self.spec_column_index() < schema.spec_columns().len(),
        ensures
            *definition == schema.spec_columns()[self.spec_column_index() as int],
    {
        schema.column_at(self.column_def_index)
    }

    /// The column's definition in `schema`, under the core segment's name.
    pub fn def<'a>(&self, schema: &'a TableSchema) -> (definition: &'a ColumnDefinition)
        requires
            self.spec_column_index() < schema.spec_columns().len(),
        ensures
            *definition == schema.spec_columns()[self.spec_column_index() as int],
    {
        schema.column_at(self.column_def_index)
    }

    pub fn data(&self) -> (data: &[u8])
        ensures
            data@ == self.spec_data(),
    {
        self.data.as_slice()
    }
}

} // verus!
