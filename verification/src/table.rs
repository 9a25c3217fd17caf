//! Table storage: identifiers, column byte buffers and row groups that store
//! tightly packed rows column by column.
use vstd::prelude::*;

use crate::dtype::DataTypeKind;
use crate::error::Error;

verus! {

/// Maximum rows per segment. Safety bound to prevent unbounded growth.
pub const CAPACITY_ROWS_SEGMENT: u32 = 65_536;

/// Unique identifier for a table within the database.
#[derive(Debug, Clone, Copy, PartialEq, Eq, Hash, Structural)]
pub struct TableId(u32);

impl TableId {
    /// The identifier's number.
    pub closed spec fn spec_value(self) -> u32 {
        self.0
    }

    /// An identifier is its number: identifiers built from the same number
    /// are equal.
    pub proof fn lemma_value_determines(a: TableId, b: TableId)
        requires
            a.spec_value() == b.spec_value(),
        ensures
            a == b,
    {
    }

    pub fn new(value: u32) -> (id: Self)
        ensures
            id.spec_value() == value,
    {
        Self(value)
    }

    pub fn value(self) -> (value: u32)
        ensures
            value == self.spec_value(),
    {
        self.0
    }

    /// Return the next sequential identifier.
    pub fn next(self) -> (next: Self)
        requires
            self.spec_value() < u32::MAX,
        ensures
            next.spec_value() == self.spec_value() + 1,
    {
        Self(self.0 + 1)
    }
}

/// Sum of the first `count` entries of `widths`.
pub open spec fn spec_prefix_sum(widths: Seq<usize>, count: int) -> int
    decreases count,
{
    if count <= 0 {
        0
    } else {
        spec_prefix_sum(widths, count - 1) + widths[count - 1]
    }
}

/// Sum of all entries of `widths`: the byte size of one row.
pub open spec fn spec_row_size(widths: Seq<usize>) -> int {
    spec_prefix_sum(widths, widths.len() as int)
}

/// Prefix sums of non-negative widths grow with the prefix.
pub proof fn lemma_prefix_sum_mono(widths: Seq<usize>, a: int, b: int)
    requires
        0 <= a <= b <= widths.len(),
    ensures
        0 <= spec_prefix_sum(widths, a) <= spec_prefix_sum(widths, b),
    decreases b - a,
{
    if a < b {
        lemma_prefix_sum_mono(widths, a, b - 1);
    } else {
        lemma_prefix_sum_nonneg(widths, a);
    }
}

/// Prefix sums of non-negative widths are non-negative.
pub proof fn lemma_prefix_sum_nonneg(widths: Seq<usize>, a: int)
    ensures
        0 <= spec_prefix_sum(widths, a),
    decreases a,
{
    if a > 0 {
        lemma_prefix_sum_nonneg(widths, a - 1);
    }
}

/// The bytes of row `row` in a buffer of rows of `row_size` bytes, restricted
/// to the `width` bytes that start `offset` bytes into the row.
pub open spec fn spec_row_field(
    bytes: Seq<u8>,
    row: int,
    row_size: int,
    offset: int,
    width: int,
) -> Seq<u8> {
    bytes.subrange(row * row_size + offset, row * row_size + offset + width)
}

/// A single column's raw byte storage within a segment.
#[derive(Debug, Clone)]
pub struct ColumnSegment {
    data: Vec<u8>,
}

impl ColumnSegment {
    /// The bytes stored so far.
    pub closed spec fn spec_data(&self) -> Seq<u8> {
        self.data@
    }

    fn new() -> (segment: Self)
        ensures
            segment.spec_data() == Seq::<u8>::empty(),
    {
        Self { data: Vec::new() }
    }

    /// Append raw bytes for one or more values in this column.
    fn append_bytes(&mut self, bytes: &[u8])
        requires
            bytes@.len() > 0,
        ensures
            final(self).spec_data() == old(self).spec_data() + bytes@,
    {
        self.data.extend_from_slice(bytes);
        assert(self.data@ =~= old(self).data@ + bytes@);
    }

    pub fn data(&self) -> (data: &[u8])
        ensures
            data@ == self.spec_data(),
    {
        self.data.as_slice()
    }
}

/// `r * w + w <= count * w` whenever `r < count`.
pub proof fn lemma_row_in_bounds(r: int, count: int, w: int)
    requires
        0 <= r < count,
        0 <= w,
    ensures
        0 <= r * w,
        r * w + w <= count * w,
{
    assert(0 <= r * w) by (nonlinear_arith)
        requires
            0 <= r,
            0 <= w,
    ;
    assert(r * w + w <= count * w) by (nonlinear_arith)
        requires
            0 <= r < count,
            0 <= w,
    ;
}

/// A group of column segments forming a horizontal partition of a table.
#[derive(Debug, Clone)]
pub struct TableSegment {
    columns: Vec<ColumnSegment>,
    column_byte_widths: Vec<usize>,
    row_count: u32,
}

impl TableSegment {
    /// Byte widths of the columns.
    pub closed spec fn spec_widths(&self) -> Seq<usize> {
        self.column_byte_widths@
    }

    /// Number of rows stored.
    pub closed spec fn spec_row_count(&self) -> nat {
        self.row_count as nat
    }

    /// Bytes stored in column `column`.
    pub closed spec fn spec_column(&self, column: int) -> Seq<u8> {
        self.columns@[column].spec_data()
    }

    /// The value of row `row` in column `column`: the bytes that were
    /// inserted for that cell.
    pub open spec fn spec_cell(&self, row: int, column: int) -> Seq<u8> {
        let w = self.spec_widths()[column] as int;
        self.spec_column(column).subrange(row * w, row * w + w)
    }

    /// Internal consistency: one buffer per column, positive widths whose sum
    /// fits in a `usize`, and every buffer holds exactly `row_count` values.
    pub closed spec fn wf(&self) -> bool {
        &&& self.columns@.len() == self.column_byte_widths@.len()
        &&& self.column_byte_widths@.len() > 0
        &&& forall|c: int|
            0 <= c < self.column_byte_widths@.len() ==> #[trigger] self.column_byte_widths@[c] > 0
        &&& spec_row_size(self.column_byte_widths@) <= usize::MAX
        &&& self.row_count <= CAPACITY_ROWS_SEGMENT
        &&& forall|c: int|
            0 <= c < self.columns@.len() ==> #[trigger] self.columns@[c].spec_data().len()
                == self.row_count * self.column_byte_widths@[c]
    }

    /// Create a new empty segment with the given column byte widths.
    pub fn new(column_byte_widths: Vec<usize>) -> (segment: Self)
        requires
            column_byte_widths@.len() > 0,
            forall|c: int|
                0 <= c < column_byte_widths@.len() ==> #[trigger] column_byte_widths@[c] > 0,
            spec_row_size(column_byte_widths@) <= usize::MAX,
        ensures
            segment.wf(),
            segment.spec_widths() == column_byte_widths@,
            segment.spec_row_count() == 0,
    {
        let column_count = column_byte_widths.len();
        let mut columns: Vec<ColumnSegment> = Vec::new();
        let mut i: usize = 0;
        while i < column_count
            invariant
                column_count == column_byte_widths@.len(),
                0 <= i <= column_count,
                columns@.len() == i,
                forall|c: int| 0 <= c < i ==> #[trigger] columns@[c].spec_data().len() == 0,
            decreases column_count - i,
        {
            columns.push(ColumnSegment::new());
            i = i + 1;
        }
        Self { columns, column_byte_widths, row_count: 0 }
    }

    /// Byte size of one row: the sum of the column widths.
    fn row_size(&self) -> (size: usize)
        requires
            self.wf(),
        ensures
            size == spec_row_size(self.spec_widths()),
            size > 0,
    {
        let n = self.column_byte_widths.len();
        let mut size: usize = 0;
        let mut i: usize = 0;
        while i < n
            invariant
                n == self.column_byte_widths@.len(),
                self.wf(),
                0 <= i <= n,
                size == spec_prefix_sum(self.column_byte_widths@, i as int),
            decreases n - i,
        {
            proof {
                lemma_prefix_sum_mono(self.column_byte_widths@, i + 1, n as int);
            }
            size = size + self.column_byte_widths[i];
            i = i + 1;
        }
        proof {
            lemma_prefix_sum_mono(self.column_byte_widths@, 1, n as int);
            assert(spec_prefix_sum(self.column_byte_widths@, 1) == spec_prefix_sum(self.column_byte_widths@, 0) + self.column_byte_widths@[0]);
            assert(self.column_byte_widths@[0] > 0);
        }
        size
    }

    /// Insert tightly-packed array-of-structs byte data.
    ///
    /// Each row is `sum(column_byte_widths)` bytes wide.
    pub fn insert_rows(&mut self, bytes: &[u8]) -> (result: Result<(), Error>)
        requires
            old(self).wf(),
            bytes@.len() > 0,
            (bytes@.len() as int) % spec_row_size(old(self).spec_widths()) == 0 ==> old(self).spec_row_count()
                + (bytes@.len() as int) / spec_row_size(old(self).spec_widths())
                <= CAPACITY_ROWS_SEGMENT,
        ensures
            final(self).wf(),
            final(self).spec_widths() == old(self).spec_widths(),
            ({
                let rs = spec_row_size(old(self).spec_widths());
                if (bytes@.len() as int) % rs != 0 {
                    &&& result == Err::<(), Error>(
                        Error::InvalidRowBytes {
                            length_bytes_actual: bytes@.len() as usize,
                            size_bytes_row: rs as usize,
                        },
                    )
                    &&& *final(self) == *old(self)
                } else {
                    &&& result == Ok::<(), Error>(())
                    &&& final(self).spec_row_count() == old(self).spec_row_count() + (bytes@.len() as int)
                        / rs
                    &&& forall|r: int, c: int|
                        0 <= r < old(self).spec_row_count() && 0 <= c < old(
                            self,
                        ).spec_widths().len() ==> #[trigger] final(self).spec_cell(r, c) == old(
                            self,
                        ).spec_cell(r, c)
                    &&& forall|k: int, c: int|
                        0 <= k < (bytes@.len() as int) / rs && 0 <= c < old(self).spec_widths().len()
                            ==> #[trigger] final(self).spec_cell(
                            old(self).spec_row_count() + k,
                            c,
                        ) == spec_row_field(
                            bytes@,
                            k,
                            rs,
                            spec_prefix_sum(old(self).spec_widths(), c),
                            old(self).spec_widths()[c] as int,
                        )
                }
            }),
    {
        let size_bytes_row = self.row_size();
        if bytes.len() % size_bytes_row != 0 {
            return Err(
                Error::InvalidRowBytes {
                    length_bytes_actual: bytes.len(),
                    size_bytes_row,
                },
            );
        }
        let count_rows_new = bytes.len() / size_bytes_row;
        let ghost rs = size_bytes_row as int;
        let ghost old_count = old(self).row_count as int;
        let ghost widths = old(self).column_byte_widths@;
        let column_count = self.column_byte_widths.len();
        proof {
            assert(count_rows_new * rs == bytes@.len()) by (nonlinear_arith)
                requires
                    (bytes@.len() as int) % rs == 0,
                    rs > 0,
                    count_rows_new == (bytes@.len() as int) / rs,
            ;
        }
        let total = bytes.len();
        let mut row_index: usize = 0;
        while row_index < count_rows_new
            invariant
                total == bytes@.len(),
                old_count == old(self).row_count,
                self.wf(),
                self.column_byte_widths@ == widths,
                column_count == widths.len(),
                rs == spec_row_size(widths),
                rs == size_bytes_row,
                rs > 0,
                count_rows_new * rs == bytes@.len(),
                old_count + count_rows_new <= CAPACITY_ROWS_SEGMENT,
                0 <= row_index <= count_rows_new,
                self.row_count == old_count + row_index,
                forall|r: int, c: int|
                    0 <= r < old_count && 0 <= c < widths.len() ==> #[trigger] self.spec_cell(r, c)
                        == old(self).spec_cell(r, c),
                forall|k: int, c: int|
                    0 <= k < row_index && 0 <= c < widths.len() ==> #[trigger] self.spec_cell(
                        old_count + k,
                        c,
                    ) == spec_row_field(
                        bytes@,
                        k,
                        rs,
                        spec_prefix_sum(widths, c),
                        widths[c] as int,
                    ),
            decreases count_rows_new - row_index,
        {
            let ghost before = *self;
            let ghost count = self.row_count as int;
            proof {
                assert(row_index * rs + rs <= count_rows_new * rs) by (nonlinear_arith)
                    requires
                        row_index < count_rows_new,
                        rs > 0,
                ;
                assert(0 <= row_index * rs) by (nonlinear_arith)
                    requires
                        row_index >= 0,
                        rs > 0,
                ;
            }
            let mut offset: usize = row_index * size_bytes_row;
            let mut column_index: usize = 0;
            while column_index < column_count
                invariant
                    self.columns@.len() == column_count,
                    self.column_byte_widths@ == widths,
                    column_count == widths.len(),
                    self.row_count == before.row_count,
                    count == before.row_count,
                    before.wf(),
                    before.column_byte_widths@ == widths,
                    rs > 0,
                    rs == spec_row_size(widths),
                    row_index < count_rows_new,
                    total == bytes@.len(),
                    count_rows_new * rs == bytes@.len(),
                    row_index * rs + rs <= bytes@.len(),
                    0 <= column_index <= column_count,
                    offset == row_index * rs + spec_prefix_sum(widths, column_index as int),
                    forall|c: int|
                        0 <= c < column_index ==> #[trigger] self.columns@[c].spec_data()
                            == before.columns@[c].spec_data() + spec_row_field(
                            bytes@,
                            row_index as int,
                            rs,
                            spec_prefix_sum(widths, c),
                            widths[c] as int,
                        ),
                    forall|c: int|
                        column_index <= c < column_count ==> #[trigger] self.columns@[c]
                            == before.columns@[c],
                decreases column_count - column_index,
            {
                let width = self.column_byte_widths[column_index];
                proof {
                    lemma_prefix_sum_mono(widths, column_index + 1, column_count as int);
                    lemma_prefix_sum_nonneg(widths, column_index as int);
                    assert(widths[column_index as int] > 0);
                    assert(spec_prefix_sum(widths, column_index + 1) == spec_prefix_sum(widths, column_index as int) + widths[column_index as int]);
                }
                let end = offset + width;
                let piece = vstd::slice::slice_subrange(bytes, offset, end);
                self.columns[column_index].append_bytes(piece);
                proof {
                    assert(piece@ =~= spec_row_field(
                        bytes@,
                        row_index as int,
                        rs,
                        spec_prefix_sum(widths, column_index as int),
                        widths[column_index as int] as int,
                    ));
                }
                column_index = column_index + 1;
                offset = end;
            }
            self.row_count = self.row_count + 1;
            proof {
                assert forall|c: int| 0 <= c < column_count implies #[trigger] self.columns@[c].spec_data().len()
                    == (count + 1) * widths[c] by {
                    assert((count + 1) * widths[c] == count * widths[c] + widths[c]) by (nonlinear_arith);
                    lemma_prefix_sum_mono(widths, c + 1, column_count as int);
                    lemma_prefix_sum_nonneg(widths, c);
                    assert(spec_prefix_sum(widths, c + 1) == spec_prefix_sum(widths, c) + widths[c]);
                }
                assert forall|r: int, c: int|
                    0 <= r < count && 0 <= c < column_count implies #[trigger] self.spec_cell(r, c)
                        == before.spec_cell(r, c) by {
                    let w = widths[c] as int;
                    lemma_row_in_bounds(r, count, w);
                    assert(self.spec_cell(r, c) =~= before.spec_cell(r, c));
                }
                assert forall|c: int| 0 <= c < column_count implies #[trigger] self.spec_cell(count, c)
                    == spec_row_field(bytes@, row_index as int, rs, spec_prefix_sum(widths, c), widths[c] as int) by {
                    let w = widths[c] as int;
                    assert(0 <= count * w) by (nonlinear_arith) requires count >= 0, w >= 0;
                    lemma_prefix_sum_mono(widths, c + 1, column_count as int);
                    lemma_prefix_sum_nonneg(widths, c);
                    assert(spec_prefix_sum(widths, c + 1) == spec_prefix_sum(widths, c) + widths[c]);
                    assert(self.spec_cell(count, c) =~= spec_row_field(bytes@, row_index as int, rs, spec_prefix_sum(widths, c), w));
                }
                assert forall|r: int, c: int|
                    0 <= r < old_count && 0 <= c < widths.len() implies #[trigger] self.spec_cell(r, c)
                        == old(self).spec_cell(r, c) by {
                    assert(r < count);
                    assert(self.spec_cell(r, c) == before.spec_cell(r, c));
                    assert(before.spec_cell(r, c) == old(self).spec_cell(r, c));
                }
                assert forall|k: int, c: int|
                    0 <= k < row_index + 1 && 0 <= c < widths.len() implies #[trigger] self.spec_cell(
                        old_count + k,
                        c,
                    ) == spec_row_field(
                        bytes@,
                        k,
                        rs,
                        spec_prefix_sum(widths, c),
                        widths[c] as int,
                    ) by {
                    if k == row_index {
                        assert(old_count + k == count);
                        assert(self.spec_cell(count, c) == spec_row_field(bytes@, row_index as int, rs, spec_prefix_sum(widths, c), widths[c] as int));
                    } else {
                        assert(old_count + k < count);
                        lemma_row_in_bounds(old_count + k, count, widths[c] as int);
                        assert(self.spec_cell(old_count + k, c) =~= before.spec_cell(old_count + k, c));
                        assert(before.spec_cell(old_count + k, c) == spec_row_field(
                        bytes@,
                        k,
                        rs,
                        spec_prefix_sum(widths, c),
                        widths[c] as int,
                    ));
                    }
                }
            }
            row_index = row_index + 1;
        }
        Ok(())
    }
}

} // verus!

verus! {

impl TableSegment {
    pub fn columns(&self) -> (columns: &[ColumnSegment])
        ensures
            columns@.len() == self.spec_widths().len() || !self.wf(),
            forall|c: int| 0 <= c < columns@.len() ==> #[trigger] columns@[c].spec_data() == self.spec_column(c),
    {
        self.columns.as_slice()
    }

    pub fn row_count(&self) -> (count: u32)
        ensures
            count == self.spec_row_count(),
    {
        self.row_count
    }

    /// Facts that follow from well-formedness.
    pub proof fn lemma_wf(&self)
        requires
            self.wf(),
        ensures
            self.spec_widths().len() > 0,
            forall|c: int| 0 <= c < self.spec_widths().len() ==> #[trigger] self.spec_widths()[c] > 0,
            spec_row_size(self.spec_widths()) <= usize::MAX,
            self.spec_row_count() <= CAPACITY_ROWS_SEGMENT,
            forall|c: int|
                0 <= c < self.spec_widths().len() ==> #[trigger] self.spec_column(c).len()
                    == self.spec_row_count() * self.spec_widths()[c],
    {
    }
}

/// Byte widths of a sequence of data types.
pub open spec fn spec_widths_of(types: Seq<DataTypeKind>) -> Seq<usize> {
    types.map_values(|kind: DataTypeKind| kind.spec_byte_width() as usize)
}

/// Each width is at most 8 bytes, so a prefix of `count` widths sums to at
/// most `8 * count`.
pub proof fn lemma_prefix_sum_of_types(types: Seq<DataTypeKind>, count: int)
    requires
        0 <= count <= types.len(),
    ensures
        spec_prefix_sum(spec_widths_of(types), count) <= 8 * count,
    decreases count,
{
    if count > 0 {
        lemma_prefix_sum_of_types(types, count - 1);
    }
}

/// Inserting `bytes` into `table` cannot exceed the capacity of its last
/// row group.
pub open spec fn spec_insert_fits(table: DatabaseTable, bytes: Seq<u8>) -> bool {
    let last = table.spec_row_groups().last();
    let rs = spec_row_size(last.spec_widths());
    (bytes.len() as int) % rs == 0 ==> last.spec_row_count() + (bytes.len() as int) / rs
        <= CAPACITY_ROWS_SEGMENT
}

/// `after` is `before` with `bytes` inserted as whole rows into its last row
/// group, and `result` reports the outcome: an error, and no change, when
/// `bytes` does not split into whole rows.
pub open spec fn spec_inserted(
    before: DatabaseTable,
    after: DatabaseTable,
    bytes: Seq<u8>,
    result: Result<(), Error>,
) -> bool {
    let last_index = before.spec_row_groups().len() - 1;
    let old_group = before.spec_row_groups()[last_index];
    let new_group = after.spec_row_groups()[last_index];
    let rs = spec_row_size(old_group.spec_widths());
    &&& after.wf()
    &&& after.spec_id() == before.spec_id()
    &&& after.spec_name() == before.spec_name()
    &&& after.spec_field_names() == before.spec_field_names()
    &&& after.spec_data_types() == before.spec_data_types()
    &&& after.spec_row_groups().len() == before.spec_row_groups().len()
    &&& forall|g: int|
        0 <= g < before.spec_row_groups().len() - 1 ==> #[trigger] after.spec_row_groups()[g]
            == before.spec_row_groups()[g]
    &&& if (bytes.len() as int) % rs != 0 {
        &&& result == Err::<(), Error>(
            Error::InvalidRowBytes {
                length_bytes_actual: bytes.len() as usize,
                size_bytes_row: rs as usize,
            },
        )
        &&& after.spec_row_groups() == before.spec_row_groups()
    } else {
        &&& result == Ok::<(), Error>(())
        &&& new_group.spec_row_count() == old_group.spec_row_count() + (bytes.len() as int) / rs
        &&& forall|r: int, c: int|
            0 <= r < old_group.spec_row_count() && 0 <= c < old_group.spec_widths().len()
                ==> #[trigger] new_group.spec_cell(r, c) == old_group.spec_cell(r, c)
        &&& forall|k: int, c: int|
            0 <= k < (bytes.len() as int) / rs && 0 <= c < old_group.spec_widths().len()
                ==> #[trigger] new_group.spec_cell(old_group.spec_row_count() + k, c)
                == spec_row_field(
                bytes,
                k,
                rs,
                spec_prefix_sum(old_group.spec_widths(), c),
                old_group.spec_widths()[c] as int,
            )
    }
}

/// Core table structure holding schema and row group data.
#[derive(Debug, Clone)]
pub struct DatabaseTable {
    id: TableId,
    name: String,
    field_names: Vec<String>,
    data_types: Vec<DataTypeKind>,
    row_groups: Vec<TableSegment>,
}

impl DatabaseTable {
    pub closed spec fn spec_id(&self) -> TableId {
        self.id
    }

    pub closed spec fn spec_name(&self) -> Seq<char> {
        self.name@
    }

    pub closed spec fn spec_field_names(&self) -> Seq<String> {
        self.field_names@
    }

    pub closed spec fn spec_data_types(&self) -> Seq<DataTypeKind> {
        self.data_types@
    }

    pub closed spec fn spec_row_groups(&self) -> Seq<TableSegment> {
        self.row_groups@
    }

    /// Consistency: one type per field, at least one field, at least one row
    /// group, and every row group stores the fields' byte widths.
    pub open spec fn wf(&self) -> bool {
        &&& self.spec_field_names().len() == self.spec_data_types().len()
        &&& self.spec_data_types().len() > 0
        &&& self.spec_row_groups().len() > 0
        &&& forall|g: int|
            0 <= g < self.spec_row_groups().len() ==> {
                &&& (#[trigger] self.spec_row_groups()[g]).wf()
                &&& self.spec_row_groups()[g].spec_widths() == spec_widths_of(
                    self.spec_data_types(),
                )
            }
    }

    /// Create a new table with one empty row group.
    pub fn new(
        id: TableId,
        name: String,
        field_names: Vec<String>,
        data_types: Vec<DataTypeKind>,
    ) -> (table: Self)
        requires
            field_names@.len() == data_types@.len(),
            field_names@.len() > 0,
            data_types@.len() <= usize::MAX / 8,
        ensures
            table.wf(),
            table.spec_id() == id,
            table.spec_name() == name@,
            table.spec_field_names() == field_names@,
            table.spec_data_types() == data_types@,
            table.spec_row_groups().len() == 1,
            table.spec_row_groups()[0].spec_row_count() == 0,
    {
        let n = data_types.len();
        let mut column_byte_widths: Vec<usize> = Vec::new();
        let mut i: usize = 0;
        while i < n
            invariant
                n == data_types@.len(),
                0 <= i <= n,
                column_byte_widths@ == spec_widths_of(data_types@).take(i as int),
            decreases n - i,
        {
            column_byte_widths.push(data_types[i].byte_width());
            assert(spec_widths_of(data_types@).take(i as int + 1) =~= spec_widths_of(
                data_types@,
            ).take(i as int).push(data_types@[i as int].spec_byte_width() as usize));
            i = i + 1;
        }
        assert(spec_widths_of(data_types@).take(n as int) =~= spec_widths_of(data_types@));
        proof {
            lemma_prefix_sum_of_types(data_types@, n as int);
        }
        let initial_segment = TableSegment::new(column_byte_widths);
        let mut row_groups: Vec<TableSegment> = Vec::new();
        row_groups.push(initial_segment);
        Self { id, name, field_names, data_types, row_groups }
    }

    /// Insert tightly-packed row data into the active (last) row group.
    pub fn insert(&mut self, bytes: &[u8]) -> (result: Result<(), Error>)
        requires
            old(self).wf(),
            bytes@.len() > 0,
            spec_insert_fits(*old(self), bytes@),
        ensures
            spec_inserted(*old(self), *final(self), bytes@, result),
    {
        let last_index = self.row_groups.len() - 1;
        let result = self.row_groups[last_index].insert_rows(bytes);
        proof {
            if result.is_err() {
                assert(self.row_groups@ =~= old(self).row_groups@);
            }
        }
        result
    }
}


impl DatabaseTable {
    pub fn id(&self) -> (id: TableId)
        ensures
            id == self.spec_id(),
    {
        self.id
    }

    pub fn name(&self) -> (name: &str)
        ensures
            name@ == self.spec_name(),
    {
        self.name.as_str()
    }

    pub fn field_names(&self) -> (names: &[String])
        ensures
            names@ == self.spec_field_names(),
    {
        self.field_names.as_slice()
    }

    pub fn data_types(&self) -> (types: &[DataTypeKind])
        ensures
            types@ == self.spec_data_types(),
    {
        self.data_types.as_slice()
    }

    pub fn row_groups(&self) -> (groups: &[TableSegment])
        ensures
            groups@ == self.spec_row_groups(),
    {
        self.row_groups.as_slice()
    }
}

} // verus!
