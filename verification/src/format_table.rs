//! Formatted text representation of a table's rows.
use vstd::prelude::*;

use crate::db_execution::QueryResult;
use crate::error::Error;
use crate::dtype::DataTypeKind;
use crate::render::{
    format_row, format_separator, push_str, spec_byte_len, spec_column_widths, spec_row,
    spec_rows_text, spec_rows_texts, spec_separator, spec_table_text, spec_texts, spec_width,
};
use crate::table::{spec_inserted, DatabaseTable, TableSegment};
use crate::text::push_char;

verus! {

/// Rows of the first `count` segments, as (segment, row) pairs in storage
/// order.
pub open spec fn spec_locations(groups: Seq<TableSegment>, count: int) -> Seq<(int, int)>
    decreases count,
{
    if count <= 0 {
        Seq::empty()
    } else {
        spec_locations(groups, count - 1) + Seq::new(
            groups[count - 1].spec_row_count(),
            |r: int| (count - 1, r),
        )
    }
}

/// `text` is how one value of `kind` stored as `bytes` is rendered:
/// non-float values as `spec_format` says, float values by `format_float`.
pub open spec fn spec_cell_rendering<F: Fn(DataTypeKind, &[u8]) -> String>(
    format_float: F,
    kind: DataTypeKind,
    bytes: Seq<u8>,
    text: Seq<char>,
) -> bool {
    if kind.spec_is_float() {
        exists|b: &[u8], s: String|
            #![trigger call_ensures(format_float, (kind, b), s)]
            b@ == bytes && s@ == text && call_ensures(format_float, (kind, b), s)
    } else {
        text == kind.spec_format(bytes)
    }
}

/// `rows` holds, in storage order, the rendering of every stored row of
/// `table`.
pub open spec fn spec_rows_rendering<F: Fn(DataTypeKind, &[u8]) -> String>(
    table: DatabaseTable,
    format_float: F,
    rows: Seq<Seq<Seq<char>>>,
) -> bool {
    let groups = table.spec_row_groups();
    let locations = spec_locations(groups, groups.len() as int);
    let types = table.spec_data_types();
    &&& rows.len() == locations.len()
    &&& forall|i: int| 0 <= i < rows.len() ==> (#[trigger] rows[i]).len() == types.len()
    &&& forall|i: int, c: int|
        0 <= i < rows.len() && 0 <= c < types.len() ==> spec_cell_rendering(
            format_float,
            types[c],
            groups[locations[i].0].spec_cell(locations[i].1, c),
            #[trigger] rows[i][c],
        )
}

/// `format_float` can render any float value of the right width.
pub open spec fn spec_float_formatter<F: Fn(DataTypeKind, &[u8]) -> String>(format_float: F) -> bool {
    forall|kind: DataTypeKind, b: &[u8]|
        kind.spec_is_float() && b@.len() == kind.spec_byte_width() ==> #[trigger] call_requires(
            format_float,
            (kind, b),
        )
}

/// `formatted` is the ASCII table of all rows of `table`, with float values
/// rendered by `format_float`.
pub open spec fn spec_formatted<F: Fn(DataTypeKind, &[u8]) -> String>(
    table: DatabaseTable,
    format_float: F,
    formatted: OutputTable,
) -> bool {
    exists|rows: Seq<Seq<Seq<char>>>|
        spec_rows_rendering(table, format_float, rows) && formatted.spec_output()
            == spec_table_text(table.spec_name(), spec_texts(table.spec_field_names()), rows)
}

/// Formatted text representation of a table query result.
pub struct OutputTable {
    output: String,
}

impl OutputTable {
    /// The formatted text.
    pub closed spec fn spec_output(&self) -> Seq<char> {
        self.output@
    }

    /// The formatting of a query result; not implemented yet: the text is
    /// empty.
    pub fn from_query_result(_query_result: &QueryResult) -> (table: Self)
        ensures
            table.spec_output() == Seq::<char>::empty(),
    {
        Self { output: String::new() }
    }

    /// The formatted text, as `Display` shows it.
    pub fn to_string(&self) -> (text: String)
        ensures
            text@ == self.spec_output(),
    {
        self.output.clone()
    }

    /// Renders every stored row of `table`, in storage order.
    fn render_rows<F: Fn(DataTypeKind, &[u8]) -> String>(
        table: &DatabaseTable,
        format_float: F,
    ) -> (rows: Vec<Vec<String>>)
        requires
            table.wf(),
            spec_float_formatter(format_float),
        ensures
            spec_rows_rendering(*table, format_float, spec_rows_texts(rows@)),
            forall|k: int| 0 <= k < rows@.len() ==> (#[trigger] rows@[k])@.len() == table.spec_field_names().len(),
    {
        let types = table.data_types();
        let groups = table.row_groups();
        let column_count = types.len();
        let group_count = groups.len();
        let ghost all_groups = table.spec_row_groups();
        let mut rows: Vec<Vec<String>> = Vec::new();
        let mut g: usize = 0;
        while g < group_count
            invariant
                table.wf(),
                spec_float_formatter(format_float),
                types@ == table.spec_data_types(),
                groups@ == all_groups,
                all_groups == table.spec_row_groups(),
                column_count == types@.len(),
                group_count == groups@.len(),
                0 <= g <= group_count,
                spec_rows_texts(rows@).len() == spec_locations(all_groups, g as int).len(),
                forall|i: int| 0 <= i < rows@.len() ==> (#[trigger] rows@[i])@.len() == column_count,
                forall|i: int, c: int|
                    0 <= i < rows@.len() && 0 <= c < column_count ==> spec_cell_rendering(
                        format_float,
                        types@[c],
                        all_groups[spec_locations(all_groups, g as int)[i].0].spec_cell(
                            spec_locations(all_groups, g as int)[i].1,
                            c,
                        ),
                        #[trigger] rows@[i]@[c]@,
                    ),
            decreases group_count - g,
        {
            let segment = &groups[g];
            let count = segment.row_count() as usize;
            let ghost base = rows@.len();
            proof {
                segment.lemma_wf();
            }
            let mut row_index: usize = 0;
            while row_index < count
                invariant
                    table.wf(),
                    spec_float_formatter(format_float),
                    types@ == table.spec_data_types(),
                    groups@ == all_groups,
                    all_groups == table.spec_row_groups(),
                    column_count == types@.len(),
                    group_count == groups@.len(),
                    0 <= g < group_count,
                    *segment == all_groups[g as int],
                    count == segment.spec_row_count(),
                    0 <= row_index <= count,
                    base == spec_locations(all_groups, g as int).len(),
                    rows@.len() == base + row_index,
                    forall|i: int| 0 <= i < rows@.len() ==> (#[trigger] rows@[i])@.len() == column_count,
                    forall|i: int, c: int|
                        0 <= i < rows@.len() && 0 <= c < column_count ==> spec_cell_rendering(
                            format_float,
                            types@[c],
                            all_groups[spec_locations(all_groups, g + 1)[i].0].spec_cell(
                                spec_locations(all_groups, g + 1)[i].1,
                                c,
                            ),
                            #[trigger] rows@[i]@[c]@,
                        ),
                decreases count - row_index,
            {
                let cells = render_row(types, segment, row_index, &format_float);
                rows.push(cells);
                row_index = row_index + 1;
            }
            g = g + 1;
        }
        let ghost row_texts = spec_rows_texts(rows@);
        assert(spec_rows_rendering(*table, format_float, row_texts)) by {
            assert forall|i: int| 0 <= i < row_texts.len() implies (#[trigger] row_texts[i]).len() == types@.len() by {
                assert(row_texts[i] == spec_texts(rows@[i]@));
            }
            assert forall|i: int, c: int|
                0 <= i < row_texts.len() && 0 <= c < types@.len() implies spec_cell_rendering(
                    format_float,
                    types@[c],
                    all_groups[spec_locations(all_groups, all_groups.len() as int)[i].0].spec_cell(
                        spec_locations(all_groups, all_groups.len() as int)[i].1,
                        c,
                    ),
                    #[trigger] row_texts[i][c],
                ) by {
                assert(row_texts[i][c] == rows@[i]@[c]@);
            }
        }
        rows
    }

    /// Build a formatted ASCII table from all row groups.
    ///
    /// Integer and boolean values are rendered here; floating-point values
    /// are rendered by `format_float`.
    pub fn from_table<F: Fn(DataTypeKind, &[u8]) -> String>(
        table: &DatabaseTable,
        format_float: F,
    ) -> (formatted: Self)
        requires
            table.wf(),
            spec_float_formatter(format_float),
        ensures
            spec_formatted(*table, format_float, formatted),
    {
        let rows = Self::render_rows(table, format_float);
        let ghost row_texts = spec_rows_texts(rows@);
        let headers = table.field_names();
        let output = render_table(table.name(), headers, &rows);
        OutputTable { output }
    }
}

/// Width of every column: the largest byte length of its header and cells.
fn column_widths(headers: &[String], rows: &Vec<Vec<String>>) -> (widths: Vec<usize>)
    requires
        forall|k: int| 0 <= k < rows@.len() ==> (#[trigger] rows@[k])@.len() == headers@.len(),
    ensures
        widths@ == spec_column_widths(spec_texts(headers@), spec_rows_texts(rows@)),
{
    let column_count = headers.len();
    let ghost header_texts = spec_texts(headers@);
    let ghost row_texts = spec_rows_texts(rows@);
    let mut column_widths: Vec<usize> = Vec::new();
    let mut c: usize = 0;
    while c < column_count
        invariant
            column_count == headers@.len(),
            row_texts == spec_rows_texts(rows@),
            header_texts == spec_texts(headers@),
            0 <= c <= column_count,
            column_widths@.len() == c,
            forall|j: int| 0 <= j < c ==> #[trigger] column_widths@[j] == spec_width(header_texts, row_texts, 0, j),
        decreases column_count - c,
    {
        let len = headers[c].as_str().len();
        assert(header_texts[c as int] == headers@[c as int]@);
        column_widths.push(len);
        c = c + 1;
    }
    let row_count = rows.len();
    let mut i: usize = 0;
    while i < row_count
        invariant
            row_count == rows@.len(),
            row_texts == spec_rows_texts(rows@),
            header_texts == spec_texts(headers@),
            headers@.len() == column_count,
            forall|k: int| 0 <= k < rows@.len() ==> (#[trigger] rows@[k])@.len() == column_count,
            0 <= i <= row_count,
            column_widths@.len() == column_count,
            forall|j: int| 0 <= j < column_count ==> #[trigger] column_widths@[j] == spec_width(header_texts, row_texts, i as int, j),
        decreases row_count - i,
    {
        let row = &rows[i];
        let mut c: usize = 0;
        while c < column_count
            invariant
                    row_count == rows@.len(),
                row_texts == spec_rows_texts(rows@),
                header_texts == spec_texts(headers@),
                headers@.len() == column_count,
                i < row_count,
                *row == rows@[i as int],
                row@.len() == column_count,
                0 <= c <= column_count,
                column_widths@.len() == column_count,
                forall|j: int| 0 <= j < c ==> #[trigger] column_widths@[j] == spec_width(header_texts, row_texts, i + 1, j),
                forall|j: int| c <= j < column_count ==> #[trigger] column_widths@[j] == spec_width(header_texts, row_texts, i as int, j),
            decreases column_count - c,
        {
            let len = row[c].as_str().len();
            assert(row_texts[i as int][c as int] == row@[c as int]@);
            assert(len == spec_byte_len(row_texts[i as int][c as int]));
            assert(spec_width(header_texts, row_texts, i + 1, c as int) == if spec_width(header_texts, row_texts, i as int, c as int) < spec_byte_len(row_texts[i as int][c as int]) {
                spec_byte_len(row_texts[i as int][c as int])
            } else {
                spec_width(header_texts, row_texts, i as int, c as int)
            });
            if len > column_widths[c] {
                column_widths.set(c, len);
            }
            c = c + 1;
        }
        i = i + 1;
    }
    assert(column_widths@ =~= spec_column_widths(header_texts, row_texts));
    column_widths
}

/// Renders the complete table text.
pub(crate) fn render_table(name: &str, headers: &[String], rows: &Vec<Vec<String>>) -> (output: String)
    requires
        headers@.len() > 0,
        forall|k: int| 0 <= k < rows@.len() ==> (#[trigger] rows@[k])@.len() == headers@.len(),
    ensures
        output@ == spec_table_text(name@, spec_texts(headers@), spec_rows_texts(rows@)),
{
    let column_count = headers.len();
    let row_count = rows.len();
    let ghost header_texts = spec_texts(headers@);
    let ghost row_texts = spec_rows_texts(rows@);
    let column_widths = column_widths(headers, rows);
    let ghost widths = spec_column_widths(header_texts, row_texts);
    assert(column_widths@ =~= widths);
    let separator = format_separator(column_widths.as_slice());
    let mut output = String::new();
    push_char(&mut output, '\n');
    push_str(&mut output, "Table: ");
    proof {
        reveal_strlit("Table: ");
    }
    push_str(&mut output, name);
    push_char(&mut output, '\n');
    push_str(&mut output, separator.as_str());
    push_char(&mut output, '\n');
    let header_line = format_row(headers, column_widths.as_slice());
    push_str(&mut output, header_line.as_str());
    push_char(&mut output, '\n');
    push_str(&mut output, separator.as_str());
    push_char(&mut output, '\n');
    let ghost prefix = output@;
    let mut i: usize = 0;
    while i < row_count
        invariant
            row_count == rows@.len(),
            row_texts == spec_rows_texts(rows@),
            column_widths@ == widths,
            forall|k: int| 0 <= k < rows@.len() ==> (#[trigger] rows@[k])@.len() == column_count,
            column_count == column_widths@.len(),
            0 <= i <= row_count,
            output@ == prefix + spec_rows_text(row_texts.take(i as int), widths),
        decreases row_count - i,
    {
        let line = format_row(rows[i].as_slice(), column_widths.as_slice());
        push_str(&mut output, line.as_str());
        push_char(&mut output, '\n');
        proof {
            let t = row_texts.take(i as int + 1);
            assert(t.drop_last() =~= row_texts.take(i as int));
            assert(t.last() == spec_texts(rows@[i as int]@));
            assert(output@ =~= prefix + spec_rows_text(t, widths));
        }
        i = i + 1;
    }
    assert(row_texts.take(row_count as int) =~= row_texts);
    push_str(&mut output, separator.as_str());
    push_char(&mut output, '\n');
    assert(output@ =~= spec_table_text(name@, header_texts, row_texts));
    output
}


/// Renders row `row_index` of `segment`, one string per column.
fn render_row<F: Fn(DataTypeKind, &[u8]) -> String>(
    types: &[DataTypeKind],
    segment: &TableSegment,
    row_index: usize,
    format_float: &F,
) -> (cells: Vec<String>)
    requires
        segment.wf(),
        segment.spec_widths() == crate::table::spec_widths_of(types@),
        row_index < segment.spec_row_count(),
        spec_float_formatter(*format_float),
    ensures
        cells@.len() == types@.len(),
        forall|c: int|
            0 <= c < types@.len() ==> spec_cell_rendering(
                *format_float,
                types@[c],
                segment.spec_cell(row_index as int, c),
                #[trigger] cells@[c]@,
            ),
{
    let column_count = types.len();
    let columns = segment.columns();
    proof {
        segment.lemma_wf();
    }
    let mut cells: Vec<String> = Vec::new();
    let mut c: usize = 0;
    while c < column_count
        invariant
            segment.wf(),
            segment.spec_widths() == crate::table::spec_widths_of(types@),
            row_index < segment.spec_row_count(),
            spec_float_formatter(*format_float),
            column_count == types@.len(),
            columns@.len() == column_count,
            forall|j: int| 0 <= j < columns@.len() ==> #[trigger] columns@[j].spec_data() == segment.spec_column(j),
            0 <= c <= column_count,
            cells@.len() == c,
            forall|j: int|
                0 <= j < c ==> spec_cell_rendering(
                    *format_float,
                    types@[j],
                    segment.spec_cell(row_index as int, j),
                    #[trigger] cells@[j]@,
                ),
        decreases column_count - c,
    {
        let kind = types[c];
        let width = kind.byte_width();
        let column_data = columns[c].data();
        proof {
            segment.lemma_wf();
            assert(segment.spec_widths()[c as int] == width);
            crate::table::lemma_row_in_bounds(row_index as int, segment.spec_row_count() as int, width as int);
        }
        let data_len = column_data.len();
        assert(data_len == segment.spec_row_count() * width);
        let start = row_index * width;
        let end = start + width;
        let piece = vstd::slice::slice_subrange(column_data, start, end);
        assert(piece@ == segment.spec_cell(row_index as int, c as int));
        let cell = if kind.is_float() {
            let text = format_float(kind, piece);
            proof {
                assert(call_ensures(*format_float, (kind, piece), text));
            }
            text
        } else {
            kind.format_bytes(piece)
        };
        cells.push(cell);
        c = c + 1;
    }
    cells
}

/// The bytes of field `c` of the `i`-th stored row of `table`, rows in
/// storage order.
pub open spec fn spec_stored_cell(table: DatabaseTable, i: int, c: int) -> Seq<u8> {
    let groups = table.spec_row_groups();
    let location = spec_locations(groups, groups.len() as int)[i];
    groups[location.0].spec_cell(location.1, c)
}

/// Row groups with the same row counts have the same row locations.
proof fn lemma_locations_same(a: Seq<TableSegment>, b: Seq<TableSegment>, count: int)
    requires
        0 <= count <= a.len(),
        count <= b.len(),
        forall|g: int| 0 <= g < count ==> (#[trigger] a[g]).spec_row_count() == b[g].spec_row_count(),
    ensures
        spec_locations(a, count) == spec_locations(b, count),
    decreases count,
{
    if count > 0 {
        lemma_locations_same(a, b, count - 1);
        assert(Seq::new(a[count - 1].spec_row_count(), |r: int| (count - 1, r)) =~= Seq::new(
            b[count - 1].spec_row_count(),
            |r: int| (count - 1, r),
        ));
    }
}

/// Row locations name an existing row of an existing group.
proof fn lemma_locations_valid(groups: Seq<TableSegment>, count: int)
    requires
        0 <= count <= groups.len(),
    ensures
        forall|i: int|
            0 <= i < spec_locations(groups, count).len() ==> {
                let location = #[trigger] spec_locations(groups, count)[i];
                &&& 0 <= location.0 < count
                &&& 0 <= location.1 < groups[location.0].spec_row_count()
            },
    decreases count,
{
    if count > 0 {
        lemma_locations_valid(groups, count - 1);
        let prefix = spec_locations(groups, count - 1);
        assert forall|i: int| 0 <= i < spec_locations(groups, count).len() implies {
            let location = #[trigger] spec_locations(groups, count)[i];
            &&& 0 <= location.0 < count
            &&& 0 <= location.1 < groups[location.0].spec_row_count()
        } by {
            if i < prefix.len() {
                assert(spec_locations(groups, count)[i] == prefix[i]);
            }
        }
    }
}

/// What a query shows after an insert: the rows it showed before, then one
/// row per inserted row, whose field `c` is the rendering of that row's
/// bytes at the field's offset.
pub proof fn lemma_query_after_insert<F: Fn(DataTypeKind, &[u8]) -> String>(
    before: DatabaseTable,
    after: DatabaseTable,
    bytes: Seq<u8>,
    format_float: F,
    shown_before: Seq<Seq<Seq<char>>>,
    shown_after: Seq<Seq<Seq<char>>>,
)
    requires
        before.wf(),
        spec_inserted(before, after, bytes, Ok(())),
        spec_rows_rendering(before, format_float, shown_before),
        spec_rows_rendering(after, format_float, shown_after),
    ensures
        ({
            let widths = crate::table::spec_widths_of(before.spec_data_types());
            let rs = crate::table::spec_row_size(widths);
            let types = before.spec_data_types();
            let n = (bytes.len() as int) / rs;
            &&& shown_after.len() == shown_before.len() + n
            &&& forall|i: int, c: int|
                0 <= i < shown_before.len() && 0 <= c < types.len() ==> spec_stored_cell(after, i, c)
                    == spec_stored_cell(before, i, c) && spec_cell_rendering(
                    format_float,
                    types[c],
                    spec_stored_cell(before, i, c),
                    #[trigger] shown_after[i][c],
                )
            &&& forall|k: int, c: int|
                0 <= k < n && 0 <= c < types.len() ==> spec_cell_rendering(
                    format_float,
                    types[c],
                    crate::table::spec_row_field(bytes, k, rs, crate::table::spec_prefix_sum(widths, c), widths[c] as int),
                    #[trigger] shown_after[shown_before.len() + k][c],
                )
        }),
{
    let groups_before = before.spec_row_groups();
    let groups_after = after.spec_row_groups();
    let m = groups_before.len() as int;
    let last = m - 1;
    let old_group = groups_before[last];
    let new_group = groups_after[last];
    let widths = crate::table::spec_widths_of(before.spec_data_types());
    let rs = crate::table::spec_row_size(widths);
    let n = (bytes.len() as int) / rs;
    assert(old_group.spec_widths() == widths);
    assert(old_group.wf());
    old_group.lemma_wf();
    crate::table::lemma_prefix_sum_mono(widths, 1, widths.len() as int);
    assert(crate::table::spec_prefix_sum(widths, 1) == crate::table::spec_prefix_sum(widths, 0) + widths[0]);
    assert(rs > 0);
    if (bytes.len() as int) % rs != 0 {
        assert(Ok::<(), Error>(()) == Err::<(), Error>(
            Error::InvalidRowBytes { length_bytes_actual: bytes.len() as usize, size_bytes_row: rs as usize },
        ));
    }
    assert(new_group.spec_row_count() == old_group.spec_row_count() + n);
    lemma_locations_same(groups_after, groups_before, last);
    let prefix = spec_locations(groups_before, last);
    let loc_before = spec_locations(groups_before, m);
    let loc_after = spec_locations(groups_after, m);
    let old_count = old_group.spec_row_count() as int;
    assert(loc_before.len() == prefix.len() + old_count);
    assert(loc_after.len() == prefix.len() + old_count + n);
    lemma_locations_valid(groups_before, m);
    lemma_locations_valid(groups_after, m);
    lemma_locations_valid(groups_before, last);
    let tail_before = Seq::new(old_count as nat, |r: int| (last, r));
    let tail_after = Seq::new(new_group.spec_row_count(), |r: int| (last, r));
    assert(loc_before == prefix + tail_before);
    assert(loc_after == prefix + tail_after);
    assert forall|i: int, c: int|
        0 <= i < shown_before.len() && 0 <= c < before.spec_data_types().len() implies spec_stored_cell(after, i, c)
        == spec_stored_cell(before, i, c) && spec_cell_rendering(
        format_float,
        before.spec_data_types()[c],
        spec_stored_cell(before, i, c),
        #[trigger] shown_after[i][c],
    ) by {
        if i < prefix.len() {
            assert(loc_before[i] == prefix[i]);
            assert(loc_after[i] == prefix[i]);
            let g = prefix[i].0;
            assert(groups_after[g] == groups_before[g]);
        } else {
            assert(loc_before[i] == tail_before[i - prefix.len()]);
            assert(loc_after[i] == tail_after[i - prefix.len()]);
            assert(new_group.spec_cell(i - prefix.len(), c) == old_group.spec_cell(i - prefix.len(), c));
        }
    }
    assert forall|k: int, c: int|
        0 <= k < n && 0 <= c < before.spec_data_types().len() implies spec_cell_rendering(
        format_float,
        before.spec_data_types()[c],
        crate::table::spec_row_field(bytes, k, rs, crate::table::spec_prefix_sum(widths, c), widths[c] as int),
        #[trigger] shown_after[shown_before.len() + k][c],
    ) by {
        let i = shown_before.len() + k;
        assert(loc_after[i] == tail_after[old_count + k]);
        assert(new_group.spec_cell(old_count + k, c) == crate::table::spec_row_field(
            bytes,
            k,
            rs,
            crate::table::spec_prefix_sum(widths, c),
            widths[c] as int,
        ));
    }
}

} // verus!
