//! Table schemas: ordered column definitions and the byte size of a row.
use vstd::prelude::*;

use crate::db_core::dtype::spec_parse;
use crate::db_types::column_definition::ColumnDefinition;

verus! {

/// Sum of the byte widths of the first `count` columns.
pub open spec fn spec_size_sum(columns: Seq<ColumnDefinition>, count: int) -> int
    decreases count,
{
    if count <= 0 {
        0
    } else {
        spec_size_sum(columns, count - 1) + columns[count - 1].spec_data_type().spec_byte_width()
    }
}

#[derive(Debug, PartialEq, Eq)]
pub struct TableSchema {
    columns: Vec<ColumnDefinition>,
    row_size_bytes: usize,
}

impl TableSchema {
    pub closed spec fn spec_columns(&self) -> Seq<ColumnDefinition> {
        self.columns@
    }

    pub closed spec fn spec_row_size(&self) -> usize {
        self.row_size_bytes
    }

    /// At least one column, and the row size is the sum of the column widths.
    pub closed spec fn wf(&self) -> bool {
        &&& self.columns@.len() > 0
        &&& self.row_size_bytes == spec_size_sum(self.columns@, self.columns@.len() as int)
    }

    /// Facts that follow from well-formedness.
    pub proof fn lemma_wf(&self)
        requires
            self.wf(),
        ensures
            self.spec_columns().len() > 0,
            self.spec_row_size() == spec_size_sum(self.spec_columns(), self.spec_columns().len() as int),
    {
    }

    /// A valid schema has rows of at least one byte.
    pub proof fn lemma_row_size_positive(&self)
        requires
            self.wf(),
        ensures
            self.spec_row_size() > 0,
    {
        lemma_size_sum_mono(self.columns@, 1, self.columns@.len() as int);
        assert(spec_size_sum(self.columns@, 1) == spec_size_sum(self.columns@, 0)
            + self.columns@[0].spec_data_type().spec_byte_width());
    }

    pub fn new(columns: Vec<ColumnDefinition>) -> (schema: Self)
        requires
            columns@.len() > 0,
            spec_size_sum(columns@, columns@.len() as int) <= usize::MAX,
        ensures
            schema.wf(),
            schema.spec_columns() == columns@,
    {
        let mut row_size_bytes: usize = 0;
        let n = columns.len();
        let mut i: usize = 0;
        while i < n
            invariant
                n == columns@.len(),
                0 <= i <= n,
                row_size_bytes == spec_size_sum(columns@, i as int),
                spec_size_sum(columns@, n as int) <= usize::MAX,
            decreases n - i,
        {
            proof {
                lemma_size_sum_mono(columns@, i + 1, n as int);
            }
            row_size_bytes = row_size_bytes + columns[i].byte_width();
            i = i + 1;
        }
        Self { columns, row_size_bytes }
    }

    pub fn from_fields(fields: &[(&str, &str)]) -> (schema: Self)
        requires
            fields@.len() > 0,
            fields@.len() <= usize::MAX / 8,
            forall|i: int|
                0 <= i < fields@.len() ==> (#[trigger] fields@[i]).0@.len() > 0 && fields@[i].1@.len() > 0
                    && spec_parse(fields@[i].1@) is Some,
        ensures
            schema.wf(),
            schema.spec_columns().len() == fields@.len(),
            forall|i: int|
                0 <= i < fields@.len() ==> (#[trigger] schema.spec_columns()[i]).spec_name() == fields@[i].0@
                    && schema.spec_columns()[i].spec_data_type() == spec_parse(fields@[i].1@).unwrap(),
    {
        let n = fields.len();
        let mut columns: Vec<ColumnDefinition> = Vec::new();
        let mut i: usize = 0;
        while i < n
            invariant
                n == fields@.len(),
                0 <= i <= n,
                forall|k: int|
                    0 <= k < fields@.len() ==> (#[trigger] fields@[k]).0@.len() > 0 && fields@[k].1@.len() > 0
                        && spec_parse(fields@[k].1@) is Some,
                columns@.len() == i,
                forall|k: int|
                    0 <= k < i ==> (#[trigger] columns@[k]).spec_name() == fields@[k].0@
                        && columns@[k].spec_data_type() == spec_parse(fields@[k].1@).unwrap(),
            decreases n - i,
        {
            let (name, data_type_name) = fields[i];
            columns.push(ColumnDefinition::from_type_name(name, data_type_name));
            i = i + 1;
        }
        proof {
            lemma_size_sum_bound(columns@, n as int);
        }
        Self::new(columns)
    }

    pub fn column_count(&self) -> (count: usize)
        ensures
            count == self.spec_columns().len(),
    {
        self.columns.len()
    }

    pub fn columns(&self) -> (columns: &[ColumnDefinition])
        ensures
            columns@ == self.spec_columns(),
    {
        self.columns.as_slice()
    }

    pub fn row_size_bytes(&self) -> (size: usize)
        ensures
            size == self.spec_row_size(),
    {
        self.row_size_bytes
    }

    pub fn column_at(&self, index: usize) -> (column: &ColumnDefinition)
        requires
            index < self.spec_columns().len(),
        ensures
            *column == self.spec_columns()[index as int],
    {
        &self.columns[index]
    }
}

/// Size sums grow with the number of columns.
pub proof fn lemma_size_sum_mono(columns: Seq<ColumnDefinition>, a: int, b: int)
    requires
        0 <= a <= b <= columns.len(),
    ensures
        0 <= spec_size_sum(columns, a) <= spec_size_sum(columns, b),
    decreases b - a,
{
    if a < b {
        lemma_size_sum_mono(columns, a, b - 1);
    } else {
        lemma_size_sum_nonneg(columns, a);
    }
}

/// The size sum over a concatenation of columns is the sum of the parts,
/// and every column adds at least one byte.
pub proof fn lemma_size_sum_concat(a: Seq<ColumnDefinition>, b: Seq<ColumnDefinition>, count: int)
    requires
        0 <= count <= b.len(),
    ensures
        spec_size_sum(a + b, a.len() + count) == spec_size_sum(a, a.len() as int) + spec_size_sum(b, count),
        spec_size_sum(a, a.len() as int) >= a.len(),
    decreases count,
{
    lemma_size_sum_at_least_count(a, a.len() as int);
    if count > 0 {
        lemma_size_sum_concat(a, b, count - 1);
        assert((a + b)[a.len() + count - 1] == b[count - 1]);
    } else {
        lemma_size_sum_prefix(a + b, a, a.len() as int);
    }
}

/// The size sum of the first `count` columns depends on those columns only.
proof fn lemma_size_sum_prefix(s: Seq<ColumnDefinition>, t: Seq<ColumnDefinition>, count: int)
    requires
        0 <= count <= s.len(),
        count <= t.len(),
        forall|i: int| 0 <= i < count ==> s[i].spec_data_type() == t[i].spec_data_type(),
    ensures
        spec_size_sum(s, count) == spec_size_sum(t, count),
    decreases count,
{
    if count > 0 {
        lemma_size_sum_prefix(s, t, count - 1);
    }
}

/// Each column adds at least one byte.
proof fn lemma_size_sum_at_least_count(columns: Seq<ColumnDefinition>, count: int)
    requires
        0 <= count <= columns.len(),
    ensures
        spec_size_sum(columns, count) >= count,
    decreases count,
{
    if count > 0 {
        lemma_size_sum_at_least_count(columns, count - 1);
    }
}

/// Row sizes add up: the schema of the columns of two schemas, one after
/// the other, has the sum of their row sizes, each at least its column
/// count; and schemas whose columns have the same types have the same row
/// size.
pub proof fn lemma_row_size_concat(s1: TableSchema, s2: TableSchema, s12: TableSchema)
    requires
        s1.wf(),
        s2.wf(),
        s12.wf(),
        s12.spec_columns().len() == s1.spec_columns().len() + s2.spec_columns().len(),
        forall|i: int|
            0 <= i < s12.spec_columns().len() ==> (#[trigger] s12.spec_columns()[i]).spec_data_type() == (
            s1.spec_columns() + s2.spec_columns())[i].spec_data_type(),
    ensures
        s12.spec_row_size() == s1.spec_row_size() + s2.spec_row_size(),
        s1.spec_row_size() >= s1.spec_columns().len(),
{
    let a = s1.spec_columns();
    let b = s2.spec_columns();
    s1.lemma_wf();
    s2.lemma_wf();
    s12.lemma_wf();
    lemma_size_sum_concat(a, b, b.len() as int);
    lemma_size_sum_prefix(s12.spec_columns(), a + b, s12.spec_columns().len() as int);
}

/// The cached row size of a schema is determined by its columns' types:
/// schemas whose columns have the same types have the same row size.
pub proof fn lemma_row_size_determined_by_types(s1: TableSchema, s2: TableSchema)
    requires
        s1.wf(),
        s2.wf(),
        s1.spec_columns().len() == s2.spec_columns().len(),
        forall|i: int|
            0 <= i < s1.spec_columns().len() ==> (#[trigger] s1.spec_columns()[i]).spec_data_type()
                == s2.spec_columns()[i].spec_data_type(),
    ensures
        s1.spec_row_size() == s2.spec_row_size(),
{
    s1.lemma_wf();
    s2.lemma_wf();
    lemma_size_sum_prefix(s1.spec_columns(), s2.spec_columns(), s1.spec_columns().len() as int);
}

/// Size sums are non-negative.
pub proof fn lemma_size_sum_nonneg(columns: Seq<ColumnDefinition>, a: int)
    ensures
        0 <= spec_size_sum(columns, a),
    decreases a,
{
    if a > 0 {
        lemma_size_sum_nonneg(columns, a - 1);
    }
}

/// Each column is at most 8 bytes wide.
pub proof fn lemma_size_sum_bound(columns: Seq<ColumnDefinition>, count: int)
    requires
        0 <= count <= columns.len(),
    ensures
        spec_size_sum(columns, count) <= 8 * count,
    decreases count,
{
    if count > 0 {
        lemma_size_sum_bound(columns, count - 1);
    }
}

} // verus!
