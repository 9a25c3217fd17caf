//! A horizontal partition of a table: up to a fixed number of rows, stored
//! column by column.
use vstd::prelude::*;

use crate::db_storage::column_segment::ColumnSegment;
use crate::db_storage::zone_map::{
    lemma_new_zone_folds_nothing, lemma_zone_update_folds, spec_prefix_value, spec_zone_fold, spec_zone_width,
};
use crate::db_types::TableSchema;
use crate::lsdb_types::table_schema::{lemma_size_sum_mono, spec_size_sum};
use crate::table::{lemma_row_in_bounds, spec_row_field};

verus! {

/// Maximum number of rows in one partition.
pub const CAPACITY_ROWS_SEGMENT: u32 = 64 * 2048;

/// Byte width of column `c` of `schema`.
pub open spec fn spec_column_width(schema: TableSchema, c: int) -> int {
    schema.spec_columns()[c].spec_data_type().spec_byte_width() as int
}

/// Byte offset of column `c` within a row of `schema`.
pub open spec fn spec_column_offset(schema: TableSchema, c: int) -> int {
    spec_size_sum(schema.spec_columns(), c)
}

/// The zone width of every column type is its byte width.
proof fn lemma_zone_width(schema: TableSchema, c: int)
    requires
        0 <= c < schema.spec_columns().len(),
    ensures
        spec_zone_width(schema.spec_columns()[c].spec_data_type()) == spec_column_width(schema, c),
        1 <= spec_column_width(schema, c) <= 8,
{
}

/// Appending `piece` of `w` bytes to a buffer of `count` values of `w` bytes
/// keeps the earlier values and makes `piece` value number `count`.
proof fn lemma_append_value(data: Seq<u8>, piece: Seq<u8>, count: int, w: int)
    requires
        0 <= count,
        0 < w,
        data.len() == count * w,
        piece.len() == w,
    ensures
        (data + piece).len() == (count + 1) * w,
        (data + piece).subrange(count * w, count * w + w) == piece,
        forall|j: int|
            0 <= j < count ==> #[trigger] (data + piece).subrange(j * w, j * w + w) == data.subrange(j * w, j * w + w),
{
    assert((count + 1) * w == count * w + w) by (nonlinear_arith);
    assert((data + piece).subrange(count * w, count * w + w) =~= piece);
    assert forall|j: int| 0 <= j < count implies #[trigger] (data + piece).subrange(j * w, j * w + w) == data.subrange(
        j * w,
        j * w + w,
    ) by {
        lemma_row_in_bounds(j, count, w);
        assert((data + piece).subrange(j * w, j * w + w) =~= data.subrange(j * w, j * w + w));
    }
}

/// The first `count` cells of row `row`, concatenated.
pub open spec fn spec_cells_prefix(partition: TablePartition, schema: TableSchema, row: int, count: int) -> Seq<u8>
    decreases count,
{
    if count <= 0 {
        Seq::empty()
    } else {
        spec_cells_prefix(partition, schema, row, count - 1) + partition.spec_cell(schema, row, count - 1)
    }
}

/// The first `count` rows, each packed, concatenated.
pub open spec fn spec_rows_prefix(partition: TablePartition, schema: TableSchema, count: int) -> Seq<u8>
    decreases count,
{
    if count <= 0 {
        Seq::empty()
    } else {
        spec_rows_prefix(partition, schema, count - 1) + partition.spec_row(schema, count - 1)
    }
}

/// Cells cut from row `k` of packed rows at the column offsets put the row
/// back together.
proof fn lemma_cells_rebuild_row(partition: TablePartition, schema: TableSchema, bytes: Seq<u8>, row: int, k: int, m: int)
    requires
        schema.wf(),
        0 <= m <= schema.spec_columns().len(),
        0 <= k,
        k * schema.spec_row_size() + schema.spec_row_size() <= bytes.len(),
        forall|c: int|
            0 <= c < schema.spec_columns().len() ==> #[trigger] partition.spec_cell(schema, row, c) == spec_row_field(
                bytes,
                k,
                schema.spec_row_size() as int,
                spec_column_offset(schema, c),
                spec_column_width(schema, c),
            ),
    ensures
        spec_cells_prefix(partition, schema, row, m) == bytes.subrange(
            k * schema.spec_row_size(),
            k * schema.spec_row_size() + spec_column_offset(schema, m),
        ),
    decreases m,
{
    let rs = schema.spec_row_size() as int;
    schema.lemma_wf();
    lemma_size_sum_mono(schema.spec_columns(), m, schema.spec_columns().len() as int);
    if m == 0 {
        assert(bytes.subrange(k * rs, k * rs) =~= Seq::<u8>::empty());
    } else {
        lemma_cells_rebuild_row(partition, schema, bytes, row, k, m - 1);
        lemma_size_sum_mono(schema.spec_columns(), m - 1, m);
        assert(spec_column_offset(schema, m) == spec_column_offset(schema, m - 1) + spec_column_width(schema, m - 1));
        assert(bytes.subrange(k * rs, k * rs + spec_column_offset(schema, m)) =~= bytes.subrange(
            k * rs,
            k * rs + spec_column_offset(schema, m - 1),
        ) + bytes.subrange(k * rs + spec_column_offset(schema, m - 1), k * rs + spec_column_offset(schema, m)));
    }
}

/// Rows with equal cells are equal.
proof fn lemma_same_cells_same_row(a: TablePartition, b: TablePartition, schema: TableSchema, ra: int, rb: int, m: int)
    requires
        forall|c: int| 0 <= c < m ==> #[trigger] a.spec_cell(schema, ra, c) == b.spec_cell(schema, rb, c),
    ensures
        spec_cells_prefix(a, schema, ra, m) == spec_cells_prefix(b, schema, rb, m),
    decreases m,
{
    if m > 0 {
        lemma_same_cells_same_row(a, b, schema, ra, rb, m - 1);
    }
}

/// Rows with equal cells make equal packed prefixes.
proof fn lemma_same_rows_prefix(a: TablePartition, b: TablePartition, schema: TableSchema, n: int)
    requires
        forall|r: int, c: int|
            0 <= r < n && 0 <= c < schema.spec_columns().len() ==> #[trigger] a.spec_cell(schema, r, c) == b.spec_cell(
                schema,
                r,
                c,
            ),
    ensures
        spec_rows_prefix(a, schema, n) == spec_rows_prefix(b, schema, n),
    decreases n,
{
    if n > 0 {
        lemma_same_rows_prefix(a, b, schema, n - 1);
        lemma_same_cells_same_row(a, b, schema, n - 1, n - 1, schema.spec_columns().len() as int);
    }
}

/// The zone map of `segment` holds the minimum and maximum of `cells`, read
/// as values of `dtype`.
pub open spec fn spec_zone_holds(segment: ColumnSegment, dtype: crate::db_core::dtype::DataTypeKind, cells: Seq<Seq<u8>>) -> bool {
    let width = spec_zone_width(dtype);
    &&& segment.spec_zone_map().spec_min().len() == 8
    &&& segment.spec_zone_map().spec_max().len() == 8
    &&& spec_prefix_value(segment.spec_zone_map().spec_min(), width) == spec_zone_fold(dtype, cells).0
    &&& spec_prefix_value(segment.spec_zone_map().spec_max(), width) == spec_zone_fold(dtype, cells).1
}

/// The first `m` cells of a row are `spec_column_offset(schema, m)` bytes
/// long, and cell `c` sits at its column's offset among them.
proof fn lemma_cells_prefix_layout(partition: TablePartition, schema: TableSchema, row: int, m: int)
    requires
        schema.wf(),
        partition.wf(schema),
        0 <= row < partition.spec_row_count(),
        0 <= m <= schema.spec_columns().len(),
    ensures
        spec_cells_prefix(partition, schema, row, m).len() == spec_column_offset(schema, m),
        forall|c: int|
            0 <= c < m ==> spec_cells_prefix(partition, schema, row, m).subrange(
                spec_column_offset(schema, c),
                spec_column_offset(schema, c) + spec_column_width(schema, c),
            ) == #[trigger] partition.spec_cell(schema, row, c),
    decreases m,
{
    if m > 0 {
        lemma_cells_prefix_layout(partition, schema, row, m - 1);
        let w = spec_column_width(schema, m - 1);
        lemma_size_sum_mono(schema.spec_columns(), m - 1, m);
        assert(spec_column_offset(schema, m) == spec_column_offset(schema, m - 1) + w);
        assert(partition.spec_columns()[m - 1].spec_data().len() == partition.spec_row_count() * w);
        lemma_row_in_bounds(row, partition.spec_row_count() as int, w);
        let before = spec_cells_prefix(partition, schema, row, m - 1);
        let cell = partition.spec_cell(schema, row, m - 1);
        assert(cell.len() == w);
        assert forall|c: int| 0 <= c < m implies (before + cell).subrange(
            spec_column_offset(schema, c),
            spec_column_offset(schema, c) + spec_column_width(schema, c),
        ) == #[trigger] partition.spec_cell(schema, row, c) by {
            if c < m - 1 {
                lemma_size_sum_mono(schema.spec_columns(), c + 1, m - 1);
                lemma_size_sum_mono(schema.spec_columns(), c, c + 1);
                assert(spec_column_offset(schema, c + 1) == spec_column_offset(schema, c) + spec_column_width(schema, c));
                assert(spec_column_offset(schema, c) + spec_column_width(schema, c) <= before.len());
                assert(0 <= spec_column_offset(schema, c));
                assert((before + cell).subrange(
                    spec_column_offset(schema, c),
                    spec_column_offset(schema, c) + spec_column_width(schema, c),
                ) =~= before.subrange(
                    spec_column_offset(schema, c),
                    spec_column_offset(schema, c) + spec_column_width(schema, c),
                ));
            } else {
                assert((before + cell).subrange(
                    spec_column_offset(schema, c),
                    spec_column_offset(schema, c) + spec_column_width(schema, c),
                ) =~= cell);
            }
        }
    }
}

/// The packed rows of a partition are `spec_row_size` bytes each, and
/// cell `c` of row `r` sits at the row's start plus the column's offset.
pub proof fn lemma_packed_layout(partition: TablePartition, schema: TableSchema, n: int)
    requires
        schema.wf(),
        partition.wf(schema),
        0 <= n <= partition.spec_row_count(),
    ensures
        spec_rows_prefix(partition, schema, n).len() == n * schema.spec_row_size(),
        forall|r: int, c: int|
            0 <= r < n && 0 <= c < schema.spec_columns().len() ==> spec_rows_prefix(partition, schema, n).subrange(
                r * schema.spec_row_size() + spec_column_offset(schema, c),
                r * schema.spec_row_size() + spec_column_offset(schema, c) + spec_column_width(schema, c),
            ) == #[trigger] partition.spec_cell(schema, r, c),
    decreases n,
{
    let rs = schema.spec_row_size() as int;
    schema.lemma_wf();
    if n > 0 {
        lemma_packed_layout(partition, schema, n - 1);
        let ncols = schema.spec_columns().len() as int;
        lemma_cells_prefix_layout(partition, schema, n - 1, ncols);
        let before = spec_rows_prefix(partition, schema, n - 1);
        let row = partition.spec_row(schema, n - 1);
        assert(row.len() == rs);
        assert(before.len() == (n - 1) * rs);
        assert(spec_rows_prefix(partition, schema, n) == before + row);
        assert(n * rs == (n - 1) * rs + rs) by (nonlinear_arith);
        assert forall|r: int, c: int| 0 <= r < n && 0 <= c < ncols implies (before + row).subrange(
            r * rs + spec_column_offset(schema, c),
            r * rs + spec_column_offset(schema, c) + spec_column_width(schema, c),
        ) == #[trigger] partition.spec_cell(schema, r, c) by {
            lemma_size_sum_mono(schema.spec_columns(), c + 1, ncols);
            lemma_size_sum_mono(schema.spec_columns(), c, c + 1);
            assert(spec_column_offset(schema, c + 1) == spec_column_offset(schema, c) + spec_column_width(schema, c));
            if r < n - 1 {
                lemma_row_in_bounds(r, n - 1, rs);
                assert((before + row).subrange(
                    r * rs + spec_column_offset(schema, c),
                    r * rs + spec_column_offset(schema, c) + spec_column_width(schema, c),
                ) =~= before.subrange(
                    r * rs + spec_column_offset(schema, c),
                    r * rs + spec_column_offset(schema, c) + spec_column_width(schema, c),
                ));
            } else {
                assert((before + row).subrange(
                    r * rs + spec_column_offset(schema, c),
                    r * rs + spec_column_offset(schema, c) + spec_column_width(schema, c),
                ) =~= row.subrange(spec_column_offset(schema, c), spec_column_offset(schema, c) + spec_column_width(schema, c)));
            }
        }
    }
}

/// Rows stored column by column: one segment per schema column.
#[derive(Debug)]
pub struct TablePartition {
    columns: Vec<ColumnSegment>,
    row_count: u32,
}

impl TablePartition {
    /// Number of rows stored.
    pub closed spec fn spec_row_count(&self) -> nat {
        self.row_count as nat
    }

    /// The column segments.
    pub closed spec fn spec_columns(&self) -> Seq<ColumnSegment> {
        self.columns@
    }

    /// The bytes of row `row` in column `c`.
    pub open spec fn spec_cell(&self, schema: TableSchema, row: int, c: int) -> Seq<u8> {
        let w = spec_column_width(schema, c);
        self.spec_columns()[c].spec_data().subrange(row * w, row * w + w)
    }

    /// Row `row` as packed bytes: its cells in column order.
    pub open spec fn spec_row(&self, schema: TableSchema, row: int) -> Seq<u8> {
        spec_cells_prefix(*self, schema, row, schema.spec_columns().len() as int)
    }

    /// All rows as packed bytes, in order: what was inserted.
    pub open spec fn spec_packed(&self, schema: TableSchema) -> Seq<u8> {
        spec_rows_prefix(*self, schema, self.spec_row_count() as int)
    }

    /// The first `count` cells of column `c`, in row order.
    pub open spec fn spec_column_cells(&self, schema: TableSchema, c: int, count: nat) -> Seq<Seq<u8>> {
        Seq::new(count, |r: int| self.spec_cell(schema, r, c))
    }

    /// One segment per column of `schema`, each for its own column, holding
    /// exactly one value per row, with a zone map of the minimum and maximum
    /// of its values; and no more rows than the capacity.
    pub open spec fn wf(&self, schema: TableSchema) -> bool {
        &&& self.spec_columns().len() == schema.spec_columns().len()
        &&& self.spec_row_count() <= CAPACITY_ROWS_SEGMENT
        &&& forall|c: int|
            0 <= c < self.spec_columns().len() ==> {
                &&& (#[trigger] self.spec_columns()[c]).spec_column_index() == c
                &&& self.spec_columns()[c].spec_data().len() == self.spec_row_count() * spec_column_width(schema, c)
                &&& spec_zone_holds(
                    self.spec_columns()[c],
                    schema.spec_columns()[c].spec_data_type(),
                    self.spec_column_cells(schema, c, self.spec_row_count()),
                )
            }
    }

    pub fn new(schema: &TableSchema) -> (partition: Self)
        ensures
            partition.wf(*schema),
            partition.spec_row_count() == 0,
    {
        let column_count = schema.column_count();
        let mut columns: Vec<ColumnSegment> = Vec::new();
        let mut c: usize = 0;
        while c < column_count
            invariant
                column_count == schema.spec_columns().len(),
                c <= column_count,
                columns@.len() == c,
                forall|k: int|
                    0 <= k < c ==> {
                        &&& (#[trigger] columns@[k]).spec_column_index() == k
                        &&& columns@[k].spec_data().len() == 0
                        &&& columns@[k].spec_zone_map().spec_min() == Seq::new(8, |i: int| 0u8)
                        &&& columns@[k].spec_zone_map().spec_max() == Seq::new(8, |i: int| 0u8)
                    },
            decreases column_count - c,
        {
            columns.push(ColumnSegment::new(c));
            c = c + 1;
        }
        let partition = Self { columns, row_count: 0 };
        proof {
            assert forall|k: int| 0 <= k < partition.spec_columns().len() implies {
                &&& (#[trigger] partition.spec_columns()[k]).spec_column_index() == k
                &&& partition.spec_columns()[k].spec_data().len() == partition.spec_row_count() * spec_column_width(
                    *schema,
                    k,
                )
                &&& spec_zone_holds(
                    partition.spec_columns()[k],
                    schema.spec_columns()[k].spec_data_type(),
                    partition.spec_column_cells(*schema, k, partition.spec_row_count()),
                )
            } by {
                lemma_new_zone_folds_nothing(
                    partition.spec_columns()[k].spec_zone_map(),
                    schema.spec_columns()[k].spec_data_type(),
                );
                assert(partition.spec_column_cells(*schema, k, 0) =~= Seq::<Seq<u8>>::empty());
            }
        }
        partition
    }

    /// Insert tightly-packed array-of-structs byte data: `bytes` holds rows
    /// of `schema.row_size_bytes()` bytes each (a trailing partial row is
    /// ignored), and each row's fields are appended to their columns.
    pub fn insert_rows(&mut self, schema: &TableSchema, bytes: &[u8])
        requires
            schema.wf(),
            old(self).wf(*schema),
            old(self).spec_row_count() + (bytes@.len() as int) / (schema.spec_row_size() as int) <= CAPACITY_ROWS_SEGMENT,
        ensures
            final(self).wf(*schema),
            final(self).spec_row_count() == old(self).spec_row_count() + (bytes@.len() as int) / (
            schema.spec_row_size() as int),
            forall|r: int, c: int|
                0 <= r < old(self).spec_row_count() && 0 <= c < schema.spec_columns().len() ==> #[trigger] final(self).spec_cell(*schema, r, c)
                    == old(self).spec_cell(*schema, r, c),
            forall|k: int, c: int|
                0 <= k < (bytes@.len() as int) / (schema.spec_row_size() as int) && 0 <= c < schema.spec_columns().len()
                    ==> #[trigger] final(self).spec_cell(*schema, old(self).spec_row_count() + k, c) == spec_row_field(
                    bytes@,
                    k,
                    schema.spec_row_size() as int,
                    spec_column_offset(*schema, c),
                    spec_column_width(*schema, c),
                ),
            final(self).spec_packed(*schema) == old(self).spec_packed(*schema) + bytes@.subrange(
                0,
                (bytes@.len() as int) / (schema.spec_row_size() as int) * schema.spec_row_size(),
            ),
    {
        proof {
            schema.lemma_wf();
            lemma_size_sum_mono(schema.spec_columns(), 1, schema.spec_columns().len() as int);
            lemma_zone_width(*schema, 0);
            assert(spec_size_sum(schema.spec_columns(), 1) == spec_size_sum(schema.spec_columns(), 0)
                + spec_column_width(*schema, 0));
        }
        let row_byte_width = schema.row_size_bytes();
        let row_count = bytes.len() / row_byte_width;
        let ghost rs = row_byte_width as int;
        let ghost old_count = self.row_count as int;
        let ghost before = *self;
        let column_count = schema.column_count();
        proof {
            assert(row_count * rs <= bytes@.len()) by (nonlinear_arith)
                requires
                    row_count == (bytes@.len() as int) / rs,
                    rs > 0,
            ;
        }
        let mut col_byte_start: usize = 0;
        let mut col_index: usize = 0;
        while col_index < column_count
            invariant
                schema.wf(),
                column_count == schema.spec_columns().len(),
                rs == schema.spec_row_size(),
                rs == spec_size_sum(schema.spec_columns(), column_count as int),
                rs == row_byte_width,
                rs > 0,
                row_count == (bytes@.len() as int) / rs,
                row_count * rs <= bytes@.len(),
                old_count == before.row_count,
                old_count + row_count <= CAPACITY_ROWS_SEGMENT,
                before.wf(*schema),
                self.row_count == before.row_count,
                self.columns@.len() == column_count,
                col_index <= column_count,
                col_byte_start == spec_column_offset(*schema, col_index as int),
                forall|c: int|
                    col_index <= c < column_count ==> #[trigger] self.columns@[c] == before.columns@[c],
                forall|c: int|
                    0 <= c < col_index ==> spec_zone_holds(
                        #[trigger] self.columns@[c],
                        schema.spec_columns()[c].spec_data_type(),
                        self.spec_column_cells(*schema, c, (old_count + row_count) as nat),
                    ),
                forall|c: int|
                    0 <= c < col_index ==> {
                        &&& (#[trigger] self.columns@[c]).spec_column_index() == c
                        &&& self.columns@[c].spec_data().len() == (old_count + row_count) * spec_column_width(
                            *schema,
                            c,
                        )
                    },
                forall|r: int, c: int|
                    0 <= r < old_count && 0 <= c < col_index ==> #[trigger] self.spec_cell(*schema, r, c)
                        == before.spec_cell(*schema, r, c),
                forall|k: int, c: int|
                    0 <= k < row_count && 0 <= c < col_index ==> #[trigger] self.spec_cell(*schema, old_count + k, c)
                        == spec_row_field(bytes@, k, rs, spec_column_offset(*schema, c), spec_column_width(*schema, c)),
            decreases column_count - col_index,
        {
            let col_byte_width = schema.column_at(col_index).byte_width();
            let ghost c = col_index as int;
            let ghost w = col_byte_width as int;
            proof {
                lemma_zone_width(*schema, c);
                lemma_size_sum_mono(schema.spec_columns(), c + 1, column_count as int);
                assert(spec_column_offset(*schema, c + 1) == spec_column_offset(*schema, c) + w);
                assert(row_count * rs <= bytes@.len());
            }
            let col_byte_end = col_byte_start + col_byte_width;
            let ghost mid = *self;
            proof {
                assert(mid.spec_column_cells(*schema, c, old_count as nat) =~= before.spec_column_cells(
                    *schema,
                    c,
                    old_count as nat,
                ));
                assert(before.spec_columns()[c] == before.columns@[c]);
            }
            self.append_column_values(schema, bytes, col_index, col_byte_start, row_count);
            proof {
                assert forall|c2: int| 0 <= c2 < col_index + 1 implies spec_zone_holds(
                    #[trigger] self.columns@[c2],
                    schema.spec_columns()[c2].spec_data_type(),
                    self.spec_column_cells(*schema, c2, (old_count + row_count) as nat),
                ) by {
                    if c2 != c {
                        assert(self.spec_column_cells(*schema, c2, (old_count + row_count) as nat) =~= mid.spec_column_cells(
                            *schema,
                            c2,
                            (old_count + row_count) as nat,
                        ));
                    }
                }
                assert forall|r: int, c2: int|
                    0 <= r < old_count && 0 <= c2 < col_index + 1 implies #[trigger] self.spec_cell(*schema, r, c2)
                    == before.spec_cell(*schema, r, c2) by {
                    if c2 != c {
                        assert(mid.spec_cell(*schema, r, c2) == before.spec_cell(*schema, r, c2));
                    }
                }
                assert forall|k: int, c2: int|
                    0 <= k < row_count && 0 <= c2 < col_index + 1 implies #[trigger] self.spec_cell(
                    *schema,
                    old_count + k,
                    c2,
                ) == spec_row_field(bytes@, k, rs, spec_column_offset(*schema, c2), spec_column_width(*schema, c2)) by {
                    if c2 != c {
                        assert(mid.spec_cell(*schema, old_count + k, c2) == spec_row_field(
                            bytes@,
                            k,
                            rs,
                            spec_column_offset(*schema, c2),
                            spec_column_width(*schema, c2),
                        ));
                    }
                }
            }
            col_byte_start = col_byte_end;
            col_index = col_index + 1;
        }
        let ghost done = *self;
        self.row_count = self.row_count + row_count as u32;
        proof {
            assert forall|c: int| 0 <= c < column_count implies spec_zone_holds(
                #[trigger] self.spec_columns()[c],
                schema.spec_columns()[c].spec_data_type(),
                self.spec_column_cells(*schema, c, self.spec_row_count()),
            ) by {
                assert(self.spec_column_cells(*schema, c, self.spec_row_count()) =~= done.spec_column_cells(
                    *schema,
                    c,
                    (old_count + row_count) as nat,
                ));
                assert(spec_zone_holds(
                    done.columns@[c],
                    schema.spec_columns()[c].spec_data_type(),
                    done.spec_column_cells(*schema, c, (old_count + row_count) as nat),
                ));
            }
            assert forall|r: int, c: int|
                0 <= r < old_count && 0 <= c < column_count implies #[trigger] self.spec_cell(*schema, r, c)
                == before.spec_cell(*schema, r, c) by {
                assert(done.spec_cell(*schema, r, c) == before.spec_cell(*schema, r, c));
            }
            assert forall|k: int, c: int|
                0 <= k < row_count && 0 <= c < column_count implies #[trigger] self.spec_cell(*schema, old_count + k, c)
                == spec_row_field(bytes@, k, rs, spec_column_offset(*schema, c), spec_column_width(*schema, c)) by {
                assert(done.spec_cell(*schema, old_count + k, c) == spec_row_field(
                    bytes@,
                    k,
                    rs,
                    spec_column_offset(*schema, c),
                    spec_column_width(*schema, c),
                ));
            }
            self.lemma_packed_after_insert(before, *schema, bytes@, row_count as int);
        }
    }

    /// The packed rows after inserting `n` rows of `bytes` are the packed rows
    /// before followed by those rows.
    proof fn lemma_packed_after_insert(&self, before: TablePartition, schema: TableSchema, bytes: Seq<u8>, n: int)
        requires
            schema.wf(),
            0 <= n,
            n * schema.spec_row_size() <= bytes.len(),
            self.spec_row_count() == before.spec_row_count() + n,
            forall|r: int, c: int|
                0 <= r < before.spec_row_count() && 0 <= c < schema.spec_columns().len() ==> #[trigger] self.spec_cell(
                    schema,
                    r,
                    c,
                ) == before.spec_cell(schema, r, c),
            forall|k: int, c: int|
                0 <= k < n && 0 <= c < schema.spec_columns().len() ==> #[trigger] self.spec_cell(
                    schema,
                    before.spec_row_count() + k,
                    c,
                ) == spec_row_field(
                    bytes,
                    k,
                    schema.spec_row_size() as int,
                    spec_column_offset(schema, c),
                    spec_column_width(schema, c),
                ),
        ensures
            self.spec_packed(schema) == before.spec_packed(schema) + bytes.subrange(0, n * schema.spec_row_size()),
    {
        schema.lemma_wf();
        self.lemma_packed_prefix_after_insert(before, schema, bytes, n, n);
    }

    /// The first `j` inserted rows extend the packed rows before by the first
    /// `j` rows of `bytes`.
    proof fn lemma_packed_prefix_after_insert(&self, before: TablePartition, schema: TableSchema, bytes: Seq<u8>, n: int, j: int)
        requires
            schema.wf(),
            0 <= j <= n,
            n * schema.spec_row_size() <= bytes.len(),
            forall|r: int, c: int|
                0 <= r < before.spec_row_count() && 0 <= c < schema.spec_columns().len() ==> #[trigger] self.spec_cell(
                    schema,
                    r,
                    c,
                ) == before.spec_cell(schema, r, c),
            forall|k: int, c: int|
                0 <= k < n && 0 <= c < schema.spec_columns().len() ==> #[trigger] self.spec_cell(
                    schema,
                    before.spec_row_count() + k,
                    c,
                ) == spec_row_field(
                    bytes,
                    k,
                    schema.spec_row_size() as int,
                    spec_column_offset(schema, c),
                    spec_column_width(schema, c),
                ),
        ensures
            spec_rows_prefix(*self, schema, before.spec_row_count() + j) == before.spec_packed(schema) + bytes.subrange(
                0,
                j * schema.spec_row_size(),
            ),
        decreases j,
    {
        let rs = schema.spec_row_size() as int;
        let old_count = before.spec_row_count() as int;
        schema.lemma_wf();
        if j == 0 {
            lemma_same_rows_prefix(*self, before, schema, old_count);
            assert(bytes.subrange(0, 0) =~= Seq::<u8>::empty());
            assert(spec_rows_prefix(*self, schema, old_count) =~= before.spec_packed(schema) + bytes.subrange(0, 0));
        } else {
            self.lemma_packed_prefix_after_insert(before, schema, bytes, n, j - 1);
            lemma_row_in_bounds(j - 1, n, rs);
            assert forall|c: int| 0 <= c < schema.spec_columns().len() implies #[trigger] self.spec_cell(
                schema,
                old_count + (j - 1),
                c,
            ) == spec_row_field(bytes, j - 1, rs, spec_column_offset(schema, c), spec_column_width(schema, c)) by {}
            lemma_cells_rebuild_row(*self, schema, bytes, old_count + (j - 1), j - 1, schema.spec_columns().len() as int);
            assert(j * rs == (j - 1) * rs + rs) by (nonlinear_arith);
            assert(bytes.subrange(0, j * rs) =~= bytes.subrange(0, (j - 1) * rs) + bytes.subrange((j - 1) * rs, (j - 1) * rs + rs));
        }
    }

    /// Appends column `col_index`'s field of each of the first `row_count`
    /// rows of `bytes` to that column's segment.
    fn append_column_values(
        &mut self,
        schema: &TableSchema,
        bytes: &[u8],
        col_index: usize,
        col_byte_start: usize,
        row_count: usize,
    )
        requires
            schema.wf(),
            col_index < schema.spec_columns().len(),
            old(self).spec_columns().len() == schema.spec_columns().len(),
            old(self).spec_columns()[col_index as int].spec_column_index() == col_index,
            old(self).spec_columns()[col_index as int].spec_data().len() == old(self).spec_row_count()
                * spec_column_width(*schema, col_index as int),
            col_byte_start == spec_column_offset(*schema, col_index as int),
            row_count * schema.spec_row_size() <= bytes@.len(),
            row_count <= CAPACITY_ROWS_SEGMENT,
            spec_zone_holds(
                old(self).spec_columns()[col_index as int],
                schema.spec_columns()[col_index as int].spec_data_type(),
                old(self).spec_column_cells(*schema, col_index as int, old(self).spec_row_count()),
            ),
        ensures
            spec_zone_holds(
                final(self).spec_columns()[col_index as int],
                schema.spec_columns()[col_index as int].spec_data_type(),
                final(self).spec_column_cells(*schema, col_index as int, (old(self).spec_row_count() + row_count) as nat),
            ),
            final(self).spec_columns().len() == old(self).spec_columns().len(),
            final(self).spec_row_count() == old(self).spec_row_count(),
            forall|o: int|
                0 <= o < old(self).spec_columns().len() && o != col_index ==> #[trigger] final(self).spec_columns()[o]
                    == old(self).spec_columns()[o],
            final(self).spec_columns()[col_index as int].spec_column_index() == col_index,
            final(self).spec_columns()[col_index as int].spec_data().len() == (old(self).spec_row_count() + row_count)
                * spec_column_width(*schema, col_index as int),
            forall|r: int|
                0 <= r < old(self).spec_row_count() ==> #[trigger] final(self).spec_cell(*schema, r, col_index as int)
                    == old(self).spec_cell(*schema, r, col_index as int),
            forall|k: int|
                0 <= k < row_count ==> #[trigger] final(self).spec_cell(
                    *schema,
                    old(self).spec_row_count() + k,
                    col_index as int,
                ) == spec_row_field(
                    bytes@,
                    k,
                    schema.spec_row_size() as int,
                    col_byte_start as int,
                    spec_column_width(*schema, col_index as int),
                ),
    {
        let ghost c = col_index as int;
        let ghost old_count = self.row_count as int;
        let ghost before = *self;
        let ghost rs = schema.spec_row_size() as int;
        proof {
            schema.lemma_wf();
            lemma_zone_width(*schema, c);
            lemma_size_sum_mono(schema.spec_columns(), c + 1, schema.spec_columns().len() as int);
            assert(spec_column_offset(*schema, c + 1) == spec_column_offset(*schema, c) + spec_column_width(*schema, c));
        }
        let row_byte_width = schema.row_size_bytes();
        let col_byte_width = schema.column_at(col_index).byte_width();
        let ghost w = col_byte_width as int;
        let col_byte_end = col_byte_start + col_byte_width;
        assert((row_count as int) * w <= 131072 * 8) by (nonlinear_arith)
            requires
                row_count <= 131072,
                0 <= w <= 8,
        ;
        let reserve_bytes = row_count * col_byte_width;
        self.columns[col_index].reserve(reserve_bytes);
        proof {
            assert(self.spec_column_cells(*schema, c, old_count as nat) =~= before.spec_column_cells(
                *schema,
                c,
                old_count as nat,
            ));
        }
        let total = bytes.len();
        let mut row_index: usize = 0;
        while row_index < row_count
            invariant
                total == bytes@.len(),
                schema.wf(),
                rs == schema.spec_row_size(),
                rs == row_byte_width,
                rs > 0,
                row_count * rs <= bytes@.len(),
                c == col_index,
                0 <= c < schema.spec_columns().len(),
                w == col_byte_width,
                w == spec_column_width(*schema, c),
                1 <= w <= 8,
                spec_zone_width(schema.spec_columns()[c].spec_data_type()) == w,
                col_byte_end == col_byte_start + w,
                col_byte_end <= rs,
                old_count == before.row_count,
                self.row_count == before.row_count,
                self.columns@.len() == before.columns@.len(),
                before.columns@.len() == schema.spec_columns().len(),
                row_index <= row_count,
                forall|o: int| 0 <= o < before.columns@.len() && o != c ==> #[trigger] self.columns@[o] == before.columns@[o],
                self.columns@[c].spec_column_index() == c,
                self.columns@[c].spec_data().len() == (old_count + row_index) * w,
                spec_zone_holds(
                    self.columns@[c],
                    schema.spec_columns()[c].spec_data_type(),
                    self.spec_column_cells(*schema, c, (old_count + row_index) as nat),
                ),
                forall|r: int|
                    0 <= r < old_count ==> #[trigger] self.spec_cell(*schema, r, c) == before.spec_cell(*schema, r, c),
                forall|k: int|
                    0 <= k < row_index ==> #[trigger] self.spec_cell(*schema, old_count + k, c) == spec_row_field(
                        bytes@,
                        k,
                        rs,
                        col_byte_start as int,
                        w,
                    ),
            decreases row_count - row_index,
        {
            proof {
                lemma_row_in_bounds(row_index as int, row_count as int, rs);
            }
            let row_start = row_index * row_byte_width;
            let value = vstd::slice::slice_subrange(bytes, row_start + col_byte_start, row_start + col_byte_end);
            let ghost data = self.columns@[c].spec_data();
            let ghost prev = *self;
            self.columns[col_index].push_dtype_val(value, schema);
            proof {
                lemma_append_value(data, value@, old_count + row_index, w);
                let m = (old_count + row_index) as nat;
                assert(self.spec_column_cells(*schema, c, m + 1) =~= prev.spec_column_cells(*schema, c, m).push(value@)) by {
                    assert forall|r: int| 0 <= r < m + 1 implies #[trigger] self.spec_column_cells(*schema, c, m + 1)[r]
                        == prev.spec_column_cells(*schema, c, m).push(value@)[r] by {
                        if r < m {
                            assert((data + value@).subrange(r * w, r * w + w) == data.subrange(r * w, r * w + w));
                        }
                    }
                }
                lemma_zone_update_folds(
                    prev.columns@[c].spec_zone_map(),
                    self.columns@[c].spec_zone_map(),
                    prev.spec_column_cells(*schema, c, m),
                    value@,
                    schema.spec_columns()[c].spec_data_type(),
                );
                assert forall|r: int| 0 <= r < old_count implies #[trigger] self.spec_cell(*schema, r, c)
                    == before.spec_cell(*schema, r, c) by {
                    assert(prev.spec_cell(*schema, r, c) == before.spec_cell(*schema, r, c));
                    lemma_row_in_bounds(r, old_count + row_index, w);
                }
                assert forall|k: int| 0 <= k < row_index + 1 implies #[trigger] self.spec_cell(*schema, old_count + k, c)
                    == spec_row_field(bytes@, k, rs, col_byte_start as int, w) by {
                    if k < row_index {
                        assert(prev.spec_cell(*schema, old_count + k, c) == spec_row_field(
                            bytes@,
                            k,
                            rs,
                            col_byte_start as int,
                            w,
                        ));
                        lemma_row_in_bounds(old_count + k, old_count + row_index, w);
                    } else {
                        assert(value@ =~= spec_row_field(bytes@, k, rs, col_byte_start as int, w));
                    }
                }
            }
            row_index = row_index + 1;
        }
    }

    pub fn columns(&self) -> (columns: &[ColumnSegment])
        ensures
            columns@ == self.spec_columns(),
    {
        self.columns.as_slice()
    }

    pub fn row_count(&self) -> (count: u32)
        ensures
            count == self.spec_row_count(),
    {
        self.row_count
    }

    /// Number of rows that still fit.
    pub fn rows_available(&self) -> (available: u32)
        requires
            self.spec_row_count() <= CAPACITY_ROWS_SEGMENT,
        ensures
            available == CAPACITY_ROWS_SEGMENT - self.spec_row_count(),
    {
        CAPACITY_ROWS_SEGMENT - self.row_count
    }
}

} // verus!
