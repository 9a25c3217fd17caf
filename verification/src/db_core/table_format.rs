//! Formatted text of a catalog table's stored rows.
use vstd::prelude::*;

use crate::db_catalog::table::spec_partitions_bytes;
use crate::db_catalog::DBTable;
use crate::db_core::dtype::DataTypeKind;
use crate::db_storage::table_partition::{
    lemma_packed_layout, spec_column_offset, spec_column_width, TablePartition,
};
use crate::db_types::TableSchema;
use crate::format_table::render_table;
use crate::render::{spec_rows_texts, spec_table_text, spec_texts};

verus! {

/// Rows of the first `count` partitions, as (partition, row) pairs in
/// storage order.
pub open spec fn spec_partition_locations(partitions: Seq<TablePartition>, count: int) -> Seq<(int, int)>
    decreases count,
{
    if count <= 0 {
        Seq::empty()
    } else {
        spec_partition_locations(partitions, count - 1) + Seq::new(
            partitions[count - 1].spec_row_count(),
            |r: int| (count - 1, r),
        )
    }
}

/// `text` is how one value of `kind` stored as `bytes` is rendered:
/// non-float values as `spec_format` says, float values by `format_float`.
pub open spec fn spec_value_rendering<F: Fn(DataTypeKind, &[u8]) -> String>(
    format_float: F,
    kind: DataTypeKind,
    bytes: Seq<u8>,
    text: Seq<char>,
) -> bool {
    if kind.spec_is_float() {
        exists|b: &[u8], s: String|
            #![trigger call_ensures(format_float, (kind, b), s)]
            b@ == bytes && s@ == text && call_ensures(format_float, (kind, b), s)
    } else {
        text == kind.spec_format(bytes)
    }
}

/// `format_float` can render any float value of the right width.
pub open spec fn spec_renders_floats<F: Fn(DataTypeKind, &[u8]) -> String>(format_float: F) -> bool {
    forall|kind: DataTypeKind, b: &[u8]|
        kind.spec_is_float() && b@.len() == kind.spec_byte_width() ==> #[trigger] call_requires(
            format_float,
            (kind, b),
        )
}

/// `rows` holds, in storage order, the rendering of every row stored in
/// the partitions of `table`.
pub open spec fn spec_rendered_rows<F: Fn(DataTypeKind, &[u8]) -> String>(
    table: DBTable,
    format_float: F,
    rows: Seq<Seq<Seq<char>>>,
) -> bool {
    let partitions = table.spec_partitions();
    let schema = table.spec_schema();
    let locations = spec_partition_locations(partitions, partitions.len() as int);
    let columns = schema.spec_columns();
    &&& rows.len() == locations.len()
    &&& forall|i: int| 0 <= i < rows.len() ==> (#[trigger] rows[i]).len() == columns.len()
    &&& forall|i: int, c: int|
        0 <= i < rows.len() && 0 <= c < columns.len() ==> spec_value_rendering(
            format_float,
            columns[c].spec_data_type(),
            partitions[locations[i].0].spec_cell(schema, locations[i].1, c),
            #[trigger] rows[i][c],
        )
}

/// The column names of a schema.
pub open spec fn spec_column_names(schema: TableSchema) -> Seq<Seq<char>> {
    schema.spec_columns().map_values(|c: crate::db_types::ColumnDefinition| c.spec_name())
}

/// `formatted` is the ASCII table of the rows stored in the partitions of
/// `table`, with float values rendered by `format_float`.
pub open spec fn spec_table_formatted<F: Fn(DataTypeKind, &[u8]) -> String>(
    table: DBTable,
    format_float: F,
    formatted: OutputTable,
) -> bool {
    exists|rows: Seq<Seq<Seq<char>>>|
        spec_rendered_rows(table, format_float, rows) && formatted.spec_output() == spec_table_text(
            table.spec_name(),
            spec_column_names(table.spec_schema()),
            rows,
        )
}

/// Formatted text representation of a table.
pub struct OutputTable {
    output: String,
}

impl OutputTable {
    /// The formatted text.
    pub closed spec fn spec_output(&self) -> Seq<char> {
        self.output@
    }

    /// The formatted text, as `Display` shows it.
    pub fn to_string(&self) -> (text: String)
        ensures
            text@ == self.spec_output(),
    {
        self.output.clone()
    }

    /// Build a formatted ASCII table from all partitions; rows still in the
    /// write buffer are not shown. Floating-point values are rendered by
    /// `format_float`.
    pub fn from_table<F: Fn(DataTypeKind, &[u8]) -> String>(table: &DBTable, format_float: F) -> (formatted: Self)
        requires
            table.wf(),
            spec_renders_floats(format_float),
        ensures
            spec_table_formatted(*table, format_float, formatted),
    {
        let rows = render_rows(table, &format_float);
        let schema = table.schema();
        let column_count = schema.column_count();
        let mut headers: Vec<String> = Vec::new();
        let mut c: usize = 0;
        while c < column_count
            invariant
                column_count == schema.spec_columns().len(),
                c <= column_count,
                headers@.len() == c,
                forall|k: int| 0 <= k < c ==> (#[trigger] headers@[k])@ == schema.spec_columns()[k].spec_name(),
            decreases column_count - c,
        {
            headers.push(schema.column_at(c).name().to_owned());
            c = c + 1;
        }
        proof {
            schema.lemma_wf();
            assert(spec_texts(headers@) =~= spec_column_names(*schema));
        }
        let output = render_table(table.name(), headers.as_slice(), &rows);
        OutputTable { output }
    }
}

/// Renders every row stored in the partitions of `table`, in storage order.
fn render_rows<F: Fn(DataTypeKind, &[u8]) -> String>(table: &DBTable, format_float: &F) -> (rows: Vec<Vec<String>>)
    requires
        table.wf(),
        spec_renders_floats(*format_float),
    ensures
        spec_rendered_rows(*table, *format_float, spec_rows_texts(rows@)),
        forall|k: int| 0 <= k < rows@.len() ==> (#[trigger] rows@[k])@.len() == table.spec_schema().spec_columns().len(),
{
    let schema = table.schema();
    let partitions = table.table_partitions();
    let column_count = schema.column_count();
    let partition_count = partitions.len();
    let ghost all = table.spec_partitions();
    let mut rows: Vec<Vec<String>> = Vec::new();
    let mut p: usize = 0;
    while p < partition_count
        invariant
            table.wf(),
            spec_renders_floats(*format_float),
            *schema == table.spec_schema(),
            partitions@ == all,
            all == table.spec_partitions(),
            column_count == schema.spec_columns().len(),
            partition_count == partitions@.len(),
            0 <= p <= partition_count,
            rows@.len() == spec_partition_locations(all, p as int).len(),
            forall|i: int| 0 <= i < rows@.len() ==> (#[trigger] rows@[i])@.len() == column_count,
            forall|i: int, c: int|
                0 <= i < rows@.len() && 0 <= c < column_count ==> spec_value_rendering(
                    *format_float,
                    schema.spec_columns()[c].spec_data_type(),
                    all[spec_partition_locations(all, p as int)[i].0].spec_cell(
                        *schema,
                        spec_partition_locations(all, p as int)[i].1,
                        c,
                    ),
                    #[trigger] rows@[i]@[c]@,
                ),
        decreases partition_count - p,
    {
        let partition = &partitions[p];
        let count = partition.row_count() as usize;
        let ghost base = rows@.len();
        proof {
            assert(all[p as int].wf(*schema));
        }
        let mut row_index: usize = 0;
        while row_index < count
            invariant
                table.wf(),
                spec_renders_floats(*format_float),
                *schema == table.spec_schema(),
                partitions@ == all,
                all == table.spec_partitions(),
                column_count == schema.spec_columns().len(),
                partition_count == partitions@.len(),
                0 <= p < partition_count,
                *partition == all[p as int],
                partition.wf(*schema),
                count == partition.spec_row_count(),
                0 <= row_index <= count,
                base == spec_partition_locations(all, p as int).len(),
                rows@.len() == base + row_index,
                forall|i: int| 0 <= i < rows@.len() ==> (#[trigger] rows@[i])@.len() == column_count,
                forall|i: int, c: int|
                    0 <= i < rows@.len() && 0 <= c < column_count ==> spec_value_rendering(
                        *format_float,
                        schema.spec_columns()[c].spec_data_type(),
                        all[spec_partition_locations(all, p + 1)[i].0].spec_cell(
                            *schema,
                            spec_partition_locations(all, p + 1)[i].1,
                            c,
                        ),
                        #[trigger] rows@[i]@[c]@,
                    ),
            decreases count - row_index,
        {
            let cells = render_row(schema, partition, row_index, format_float);
            rows.push(cells);
            row_index = row_index + 1;
        }
        p = p + 1;
    }
    let ghost row_texts = spec_rows_texts(rows@);
    assert(spec_rendered_rows(*table, *format_float, row_texts)) by {
        assert forall|i: int| 0 <= i < row_texts.len() implies (#[trigger] row_texts[i]).len() == column_count by {
            assert(row_texts[i] == spec_texts(rows@[i]@));
        }
        assert forall|i: int, c: int|
            0 <= i < row_texts.len() && 0 <= c < column_count implies spec_value_rendering(
                *format_float,
                schema.spec_columns()[c].spec_data_type(),
                all[spec_partition_locations(all, all.len() as int)[i].0].spec_cell(
                    *schema,
                    spec_partition_locations(all, all.len() as int)[i].1,
                    c,
                ),
                #[trigger] row_texts[i][c],
            ) by {
            assert(row_texts[i][c] == rows@[i]@[c]@);
        }
    }
    rows
}

/// Renders row `row_index` of `partition`, one string per column.
fn render_row<F: Fn(DataTypeKind, &[u8]) -> String>(
    schema: &TableSchema,
    partition: &TablePartition,
    row_index: usize,
    format_float: &F,
) -> (cells: Vec<String>)
    requires
        partition.wf(*schema),
        row_index < partition.spec_row_count(),
        spec_renders_floats(*format_float),
    ensures
        cells@.len() == schema.spec_columns().len(),
        forall|c: int|
            0 <= c < schema.spec_columns().len() ==> spec_value_rendering(
                *format_float,
                schema.spec_columns()[c].spec_data_type(),
                partition.spec_cell(*schema, row_index as int, c),
                #[trigger] cells@[c]@,
            ),
{
    let column_count = schema.column_count();
    let columns = partition.columns();
    let mut cells: Vec<String> = Vec::new();
    let mut c: usize = 0;
    while c < column_count
        invariant
            partition.wf(*schema),
            row_index < partition.spec_row_count(),
            spec_renders_floats(*format_float),
            column_count == schema.spec_columns().len(),
            columns@ == partition.spec_columns(),
            0 <= c <= column_count,
            cells@.len() == c,
            forall|j: int|
                0 <= j < c ==> spec_value_rendering(
                    *format_float,
                    schema.spec_columns()[j].spec_data_type(),
                    partition.spec_cell(*schema, row_index as int, j),
                    #[trigger] cells@[j]@,
                ),
        decreases column_count - c,
    {
        let column = schema.column_at(c);
        let kind = column.data_type();
        let width = column.byte_width();
        let column_data = columns[c].data();
        proof {
            assert(partition.spec_columns()[c as int].spec_data().len() == partition.spec_row_count()
                * spec_column_width(*schema, c as int));
            crate::table::lemma_row_in_bounds(row_index as int, partition.spec_row_count() as int, width as int);
        }
        let data_len = column_data.len();
        let start = row_index * width;
        let end = start + width;
        let piece = vstd::slice::slice_subrange(column_data, start, end);
        assert(piece@ == partition.spec_cell(*schema, row_index as int, c as int));
        let cell = if kind.is_float() {
            let text = format_float(kind, piece);
            proof {
                assert(call_ensures(*format_float, (kind, piece), text));
            }
            text
        } else {
            kind.format_bytes(piece)
        };
        cells.push(cell);
        c = c + 1;
    }
    cells
}

/// Every location of the first `count` partitions names one of them and
/// one of its stored rows.
proof fn lemma_locations_in_range(partitions: Seq<TablePartition>, count: int)
    requires
        0 <= count <= partitions.len(),
    ensures
        forall|i: int|
            0 <= i < spec_partition_locations(partitions, count).len() ==> {
                let location = #[trigger] spec_partition_locations(partitions, count)[i];
                &&& 0 <= location.0 < count
                &&& 0 <= location.1 < partitions[location.0].spec_row_count()
            },
    decreases count,
{
    if count > 0 {
        lemma_locations_in_range(partitions, count - 1);
        let prefix = spec_partition_locations(partitions, count - 1);
        let tail = Seq::new(partitions[count - 1].spec_row_count(), |r: int| (count - 1, r));
        let locations = spec_partition_locations(partitions, count);
        assert(locations == prefix + tail);
        assert forall|i: int| 0 <= i < locations.len() implies {
            let location = #[trigger] locations[i];
            &&& 0 <= location.0 < count
            &&& 0 <= location.1 < partitions[location.0].spec_row_count()
        } by {
            if i < prefix.len() {
                assert(locations[i] == prefix[i]);
            } else {
                assert(locations[i] == tail[i - prefix.len()]);
            }
        }
    }
}

/// The packed bytes of the first `count` partitions hold their rows in
/// location order: row `i` occupies bytes `i * rs` up to `(i + 1) * rs`,
/// with each cell at its column's offset.
pub proof fn lemma_partitions_layout(partitions: Seq<TablePartition>, schema: TableSchema, count: int)
    requires
        schema.wf(),
        0 <= count <= partitions.len(),
        forall|p: int| 0 <= p < partitions.len() ==> (#[trigger] partitions[p]).wf(schema),
    ensures
        spec_partitions_bytes(partitions, schema, count).len() == spec_partition_locations(partitions, count).len()
            * schema.spec_row_size(),
        forall|i: int|
            0 <= i < spec_partition_locations(partitions, count).len() ==> {
                let location = #[trigger] spec_partition_locations(partitions, count)[i];
                &&& 0 <= location.0 < count
                &&& 0 <= location.1 < partitions[location.0].spec_row_count()
            },
        forall|i: int, c: int|
            0 <= i < spec_partition_locations(partitions, count).len() && 0 <= c < schema.spec_columns().len() ==> {
                let location = spec_partition_locations(partitions, count)[i];
                #[trigger] spec_partitions_bytes(partitions, schema, count).subrange(
                    i * schema.spec_row_size() + spec_column_offset(schema, c),
                    i * schema.spec_row_size() + spec_column_offset(schema, c) + spec_column_width(schema, c),
                ) == partitions[location.0].spec_cell(schema, location.1, c)
            },
    decreases count,
{
    let rs = schema.spec_row_size() as int;
    schema.lemma_wf();
    lemma_locations_in_range(partitions, count);
    if count > 0 {
        lemma_partitions_layout(partitions, schema, count - 1);
        let last = partitions[count - 1];
        let n = last.spec_row_count() as int;
        lemma_packed_layout(last, schema, n);
        let before = spec_partitions_bytes(partitions, schema, count - 1);
        let packed = last.spec_packed(schema);
        let prefix = spec_partition_locations(partitions, count - 1);
        let tail = Seq::new(n as nat, |r: int| (count - 1, r));
        let locations = spec_partition_locations(partitions, count);
        assert(locations == prefix + tail);
        assert(spec_partitions_bytes(partitions, schema, count) == before + packed);
        assert(locations.len() == prefix.len() + n);
        assert(locations.len() * rs == prefix.len() * rs + n * rs) by (nonlinear_arith)
            requires
                locations.len() == prefix.len() + n,
        ;
        assert(packed.len() == n * rs);
        assert forall|i: int, c: int|
            0 <= i < locations.len() && 0 <= c < schema.spec_columns().len() implies {
                let location = locations[i];
                #[trigger] spec_partitions_bytes(partitions, schema, count).subrange(
                    i * rs + spec_column_offset(schema, c),
                    i * rs + spec_column_offset(schema, c) + spec_column_width(schema, c),
                ) == partitions[location.0].spec_cell(schema, location.1, c)
            } by {
            crate::lsdb_types::table_schema::lemma_size_sum_mono(schema.spec_columns(), c + 1, schema.spec_columns().len() as int);
            crate::lsdb_types::table_schema::lemma_size_sum_mono(schema.spec_columns(), c, c + 1);
            assert(spec_column_offset(schema, c + 1) == spec_column_offset(schema, c) + spec_column_width(schema, c));
            let lo = i * rs + spec_column_offset(schema, c);
            let hi = lo + spec_column_width(schema, c);
            if i < prefix.len() {
                assert(locations[i] == prefix[i]);
                crate::table::lemma_row_in_bounds(i, prefix.len() as int, rs);
                assert(hi <= before.len());
                assert((before + packed).subrange(lo, hi) =~= before.subrange(lo, hi));
                assert(before.subrange(lo, hi) == partitions[prefix[i].0].spec_cell(schema, prefix[i].1, c));
            } else {
                let r = i - prefix.len();
                assert(locations[i] == tail[r]);
                assert(i * rs == prefix.len() * rs + r * rs) by (nonlinear_arith)
                    requires
                        i == prefix.len() + r,
                ;
                crate::table::lemma_row_in_bounds(r, n, rs);
                assert(last.spec_cell(schema, r, c) == packed.subrange(
                    r * rs + spec_column_offset(schema, c),
                    r * rs + spec_column_offset(schema, c) + spec_column_width(schema, c),
                ));
                assert((before + packed).subrange(lo, hi) =~= packed.subrange(
                    r * rs + spec_column_offset(schema, c),
                    r * rs + spec_column_offset(schema, c) + spec_column_width(schema, c),
                ));
            }
        }
    } else {
        assert(spec_partition_locations(partitions, count).len() == 0);
        assert(spec_partition_locations(partitions, count).len() * rs == 0);
    }
}

/// What printing a flushed table shows: one row per stored row, in
/// insertion order, whose field `c` renders the bytes of that field in the
/// table's contents.
pub proof fn lemma_printed_rows<F: Fn(DataTypeKind, &[u8]) -> String>(
    table: DBTable,
    format_float: F,
    rows: Seq<Seq<Seq<char>>>,
)
    requires
        table.wf(),
        table.spec_buffer() == Seq::<u8>::empty(),
        spec_rendered_rows(table, format_float, rows),
    ensures
        rows.len() * table.spec_row_size() == table.spec_contents().len(),
        forall|i: int, c: int|
            0 <= i < rows.len() && 0 <= c < table.spec_schema().spec_columns().len() ==> spec_value_rendering(
                format_float,
                table.spec_schema().spec_columns()[c].spec_data_type(),
                table.spec_contents().subrange(
                    i * table.spec_row_size() + spec_column_offset(table.spec_schema(), c),
                    i * table.spec_row_size() + spec_column_offset(table.spec_schema(), c) + spec_column_width(
                        table.spec_schema(),
                        c,
                    ),
                ),
                #[trigger] rows[i][c],
            ),
{
    let partitions = table.spec_partitions();
    let schema = table.spec_schema();
    lemma_partitions_layout(partitions, schema, partitions.len() as int);
    assert(table.spec_contents() =~= table.spec_stored());
}

/// Printing a table after inserting rows shows, after the rows shown for
/// what it held before, one row per inserted row, whose field `c` renders
/// that row's bytes at the field's offset.
pub proof fn lemma_print_after_insert<F: Fn(DataTypeKind, &[u8]) -> String>(
    before: Seq<u8>,
    bytes: Seq<u8>,
    table: DBTable,
    format_float: F,
    rows: Seq<Seq<Seq<char>>>,
)
    requires
        table.wf(),
        table.spec_contents() == before + bytes,
        table.spec_buffer() == Seq::<u8>::empty(),
        spec_rendered_rows(table, format_float, rows),
        (before.len() as int) % table.spec_row_size() == 0,
    ensures
        ({
            let rs = table.spec_row_size();
            let schema = table.spec_schema();
            let shown = (before.len() as int) / rs;
            &&& rows.len() * rs == before.len() + bytes.len()
            &&& forall|k: int, c: int|
                0 <= k && shown + k < rows.len() && 0 <= c < schema.spec_columns().len() ==> spec_value_rendering(
                    format_float,
                    schema.spec_columns()[c].spec_data_type(),
                    bytes.subrange(
                        k * rs + spec_column_offset(schema, c),
                        k * rs + spec_column_offset(schema, c) + spec_column_width(schema, c),
                    ),
                    #[trigger] rows[shown + k][c],
                )
        }),
{
    let rs = table.spec_row_size();
    let schema = table.spec_schema();
    schema.lemma_row_size_positive();
    lemma_printed_rows(table, format_float, rows);
    let shown = (before.len() as int) / rs;
    assert(shown * rs == before.len()) by (nonlinear_arith)
        requires
            shown == (before.len() as int) / rs,
            (before.len() as int) % rs == 0,
            rs > 0,
    ;
    assert forall|k: int, c: int|
        0 <= k && shown + k < rows.len() && 0 <= c < schema.spec_columns().len() implies spec_value_rendering(
        format_float,
        schema.spec_columns()[c].spec_data_type(),
        bytes.subrange(
            k * rs + spec_column_offset(schema, c),
            k * rs + spec_column_offset(schema, c) + spec_column_width(schema, c),
        ),
        #[trigger] rows[shown + k][c],
    ) by {
        let i = shown + k;
        assert(i * rs == shown * rs + k * rs) by (nonlinear_arith)
            requires
                i == shown + k,
        ;
        crate::lsdb_types::table_schema::lemma_size_sum_mono(schema.spec_columns(), c + 1, schema.spec_columns().len() as int);
        crate::lsdb_types::table_schema::lemma_size_sum_mono(schema.spec_columns(), c, c + 1);
        assert(spec_column_offset(schema, c + 1) == spec_column_offset(schema, c) + spec_column_width(schema, c));
        crate::table::lemma_row_in_bounds(i, rows.len() as int, rs);
        crate::table::lemma_row_in_bounds(k, k + 1, rs);
        schema.lemma_wf();
        let lo = i * rs + spec_column_offset(schema, c);
        let hi = lo + spec_column_width(schema, c);
        assert(before.len() <= lo);
        assert(hi <= before.len() + bytes.len());
        assert((before + bytes).subrange(lo, hi) =~= bytes.subrange(lo - before.len(), hi - before.len()));
    }
}

} // verus!
