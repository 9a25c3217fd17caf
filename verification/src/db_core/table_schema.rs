//! Table schemas of the core crate: ordered column definitions and the byte
//! width of a row.
use vstd::prelude::*;

use crate::db_core::column_def::ColumnDef;
use crate::db_core::dtype::{spec_parse, DataTypeKind};

verus! {

/// Sum of the byte widths of the first `count` columns.
pub open spec fn spec_width_sum(columns: Seq<ColumnDef>, count: int) -> int
    decreases count,
{
    if count <= 0 {
        0
    } else {
        spec_width_sum(columns, count - 1) + columns[count - 1].spec_data_type().spec_byte_width()
    }
}

#[derive(Debug, PartialEq, Eq)]
pub struct TableSchema {
    columns: Vec<ColumnDef>,
    row_width_bytes: usize,
}

impl TableSchema {
    pub closed spec fn spec_columns(&self) -> Seq<ColumnDef> {
        self.columns@
    }

    pub closed spec fn spec_row_width(&self) -> usize {
        self.row_width_bytes
    }

    /// At least one column, and the row width is the sum of the column
    /// widths.
    pub closed spec fn wf(&self) -> bool {
        &&& self.columns@.len() > 0
        &&& self.row_width_bytes == spec_width_sum(self.columns@, self.columns@.len() as int)
    }

    pub fn new(columns: Vec<ColumnDef>) -> (schema: Self)
        requires
            columns@.len() > 0,
            spec_width_sum(columns@, columns@.len() as int) <= usize::MAX,
        ensures
            schema.wf(),
            schema.spec_columns() == columns@,
            schema.spec_row_width() == spec_width_sum(columns@, columns@.len() as int),
    {
        let mut row_byte_width: usize = 0;
        let n = columns.len();
        let mut i: usize = 0;
        while i < n
            invariant
                n == columns@.len(),
                0 <= i <= n,
                row_byte_width == spec_width_sum(columns@, i as int),
                spec_width_sum(columns@, n as int) <= usize::MAX,
            decreases n - i,
        {
            proof {
                lemma_width_sum_mono(columns@, i + 1, n as int);
            }
            row_byte_width = row_byte_width + columns[i].byte_width();
            i = i + 1;
        }
        Self { columns, row_width_bytes: row_byte_width }
    }

    pub fn from_fields(fields: &[(&str, &str)]) -> (schema: Self)
        requires
            fields@.len() > 0,
            fields@.len() <= usize::MAX / 8,
            forall|i: int|
                0 <= i < fields@.len() ==> (#[trigger] fields@[i]).0@.len() > 0 && fields@[i].1@.len() > 0
                    && spec_parse(fields@[i].1@) is Some,
        ensures
            schema.wf(),
            schema.spec_columns().len() == fields@.len(),
            forall|i: int|
                0 <= i < fields@.len() ==> (#[trigger] schema.spec_columns()[i]).spec_name() == fields@[i].0@
                    && schema.spec_columns()[i].spec_data_type() == spec_parse(fields@[i].1@).unwrap(),
    {
        let n = fields.len();
        let mut columns: Vec<ColumnDef> = Vec::new();
        let mut i: usize = 0;
        while i < n
            invariant
                n == fields@.len(),
                0 <= i <= n,
                forall|k: int|
                    0 <= k < fields@.len() ==> (#[trigger] fields@[k]).0@.len() > 0 && fields@[k].1@.len() > 0
                        && spec_parse(fields@[k].1@) is Some,
                columns@.len() == i,
                forall|k: int|
                    0 <= k < i ==> (#[trigger] columns@[k]).spec_name() == fields@[k].0@
                        && columns@[k].spec_data_type() == spec_parse(fields@[k].1@).unwrap(),
            decreases n - i,
        {
            let (name, data_type_name) = fields[i];
            columns.push(ColumnDef::from_type_name(name, data_type_name));
            i = i + 1;
        }
        proof {
            lemma_width_sum_bound(columns@, n as int);
        }
        Self::new(columns)
    }

    pub fn column_count(&self) -> (count: usize)
        ensures
            count == self.spec_columns().len(),
    {
        self.columns.len()
    }

    pub fn columns(&self) -> (columns: &[ColumnDef])
        ensures
            columns@ == self.spec_columns(),
    {
        self.columns.as_slice()
    }

    pub fn row_byte_width(&self) -> (width: usize)
        ensures
            width == self.spec_row_width(),
    {
        self.row_width_bytes
    }
}

/// Width sums grow with the number of columns.
pub proof fn lemma_width_sum_mono(columns: Seq<ColumnDef>, a: int, b: int)
    requires
        0 <= a <= b <= columns.len(),
    ensures
        0 <= spec_width_sum(columns, a) <= spec_width_sum(columns, b),
    decreases b - a,
{
    if a < b {
        lemma_width_sum_mono(columns, a, b - 1);
    } else {
        lemma_width_sum_nonneg(columns, a);
    }
}

/// Width sums are non-negative.
pub proof fn lemma_width_sum_nonneg(columns: Seq<ColumnDef>, a: int)
    ensures
        0 <= spec_width_sum(columns, a),
    decreases a,
{
    if a > 0 {
        lemma_width_sum_nonneg(columns, a - 1);
    }
}

/// Each column is at most 8 bytes wide.
pub proof fn lemma_width_sum_bound(columns: Seq<ColumnDef>, count: int)
    requires
        0 <= count <= columns.len(),
    ensures
        spec_width_sum(columns, count) <= 8 * count,
    decreases count,
{
    if count > 0 {
        lemma_width_sum_bound(columns, count - 1);
    }
}

} // verus!
