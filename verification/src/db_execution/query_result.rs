//! Query results: named, typed columns whose values are borrowed byte chunks.
use vstd::prelude::*;

use crate::db_types::DataTypeKind;

verus! {

/// A run of consecutive values of one result column, borrowed from storage.
pub struct ResultColumnChunk<'a> {
    data: &'a [u8],
    row_count: usize,
}

impl<'a> ResultColumnChunk<'a> {
    pub closed spec fn spec_data(&self) -> Seq<u8> {
        self.data@
    }

    pub closed spec fn spec_row_count(&self) -> nat {
        self.row_count as nat
    }

    fn new(data: &'a [u8], row_count: usize) -> (chunk: Self)
        ensures
            chunk.spec_data() == data@,
            chunk.spec_row_count() == row_count,
    {
        Self { data, row_count }
    }

    pub fn data(&self) -> (data: &'a [u8])
        ensures
            data@ == self.spec_data(),
    {
        self.data
    }

    pub fn row_count(&self) -> (count: usize)
        ensures
            count == self.spec_row_count(),
    {
        self.row_count
    }
}

/// Number of rows in the chunks from `start` on.
pub open spec fn spec_rows_from(chunks: Seq<ResultColumnChunk>, start: int) -> nat
    decreases chunks.len() - start,
{
    if start < 0 || start >= chunks.len() {
        0
    } else {
        chunks[start].spec_row_count() + spec_rows_from(chunks, start + 1)
    }
}

/// The bytes of row `row` counting from chunk `start`, each value `width`
/// bytes wide.
pub open spec fn spec_row_from(chunks: Seq<ResultColumnChunk>, start: int, row: int, width: int) -> Seq<u8>
    decreases chunks.len() - start,
{
    if start < 0 || start >= chunks.len() {
        Seq::empty()
    } else if row < chunks[start].spec_row_count() {
        chunks[start].spec_data().subrange(row * width, row * width + width)
    } else {
        spec_row_from(chunks, start + 1, row - chunks[start].spec_row_count(), width)
    }
}

/// The bytes of the chunks from `start` on, back to back.
pub open spec fn spec_data_from(chunks: Seq<ResultColumnChunk>, start: int) -> Seq<u8>
    decreases chunks.len() - start,
{
    if start < 0 || start >= chunks.len() {
        Seq::empty()
    } else {
        chunks[start].spec_data() + spec_data_from(chunks, start + 1)
    }
}

/// Appending a chunk appends its rows and its bytes.
proof fn lemma_push_appends(chunks: Seq<ResultColumnChunk>, chunk: ResultColumnChunk, start: int)
    requires
        0 <= start <= chunks.len(),
    ensures
        spec_rows_from(chunks.push(chunk), start) == spec_rows_from(chunks, start) + chunk.spec_row_count(),
        spec_data_from(chunks.push(chunk), start) == spec_data_from(chunks, start) + chunk.spec_data(),
    decreases chunks.len() - start,
{
    let pushed = chunks.push(chunk);
    if start == chunks.len() {
        assert(spec_rows_from(pushed, start + 1) == 0);
        assert(spec_data_from(pushed, start + 1) == Seq::<u8>::empty());
        assert(pushed[start] == chunk);
        assert(spec_data_from(pushed, start) =~= spec_data_from(chunks, start) + chunk.spec_data());
    } else {
        lemma_push_appends(chunks, chunk, start + 1);
        assert(pushed[start] == chunks[start]);
        assert(spec_data_from(pushed, start) =~= spec_data_from(chunks, start) + chunk.spec_data());
    }
}

/// With every chunk holding exactly its values' bytes, row `row` counted
/// from chunk `start` sits at `row * width` in the bytes from `start` on.
proof fn lemma_row_in_data(chunks: Seq<ResultColumnChunk>, start: int, row: int, width: int)
    requires
        0 <= start <= chunks.len(),
        0 < width,
        forall|k: int|
            0 <= k < chunks.len() ==> (#[trigger] chunks[k]).spec_data().len() == chunks[k].spec_row_count() * width,
    ensures
        spec_data_from(chunks, start).len() == spec_rows_from(chunks, start) * width,
        0 <= row < spec_rows_from(chunks, start) ==> spec_row_from(chunks, start, row, width) == spec_data_from(
            chunks,
            start,
        ).subrange(row * width, row * width + width),
    decreases chunks.len() - start,
{
    if start < chunks.len() {
        let n = chunks[start].spec_row_count() as int;
        let head = chunks[start].spec_data();
        let rest = spec_data_from(chunks, start + 1);
        assert(spec_rows_from(chunks, start) * width == n * width + spec_rows_from(chunks, start + 1) * width)
            by (nonlinear_arith)
            requires
                spec_rows_from(chunks, start) == n + spec_rows_from(chunks, start + 1),
        ;
        if 0 <= row < n {
            lemma_row_in_data(chunks, start + 1, 0, width);
            crate::table::lemma_row_in_bounds(row, n, width);
            assert((head + rest).subrange(row * width, row * width + width) =~= head.subrange(
                row * width,
                row * width + width,
            ));
        } else if n <= row < spec_rows_from(chunks, start) {
            lemma_row_in_data(chunks, start + 1, row - n, width);
            assert(row * width == n * width + (row - n) * width) by (nonlinear_arith);
            crate::table::lemma_row_in_bounds(row - n, spec_rows_from(chunks, start + 1) as int, width);
            assert((head + rest).subrange(row * width, row * width + width) =~= rest.subrange(
                (row - n) * width,
                (row - n) * width + width,
            ));
        } else {
            lemma_row_in_data(chunks, start + 1, 0, width);
        }
    } else {
        assert(spec_rows_from(chunks, start) == 0);
        assert(spec_rows_from(chunks, start) * width == 0);
    }
}

/// A named, typed column of a query result.
pub struct ResultColumn<'a> {
    name: String,
    data_type: DataTypeKind,
    chunks: Vec<ResultColumnChunk<'a>>,
}

impl<'a> ResultColumn<'a> {
    pub closed spec fn spec_name(&self) -> Seq<char> {
        self.name@
    }

    pub closed spec fn spec_data_type(&self) -> DataTypeKind {
        self.data_type
    }

    pub closed spec fn spec_chunks(&self) -> Seq<ResultColumnChunk<'a>> {
        self.chunks@
    }

    /// Number of values in the column.
    pub open spec fn spec_row_count(&self) -> nat {
        spec_rows_from(self.spec_chunks(), 0)
    }

    /// The bytes of all values, chunk after chunk.
    pub open spec fn spec_data(&self) -> Seq<u8> {
        spec_data_from(self.spec_chunks(), 0)
    }

    /// The bytes of value `row`.
    pub open spec fn spec_row(&self, row: int) -> Seq<u8> {
        spec_row_from(self.spec_chunks(), 0, row, self.spec_data_type().spec_byte_width() as int)
    }

    /// Every chunk holds at least one value and exactly its values' bytes.
    pub open spec fn wf(&self) -> bool {
        forall|k: int|
            0 <= k < self.spec_chunks().len() ==> {
                &&& (#[trigger] self.spec_chunks()[k]).spec_row_count() > 0
                &&& self.spec_chunks()[k].spec_data().len() == self.spec_chunks()[k].spec_row_count()
                    * self.spec_data_type().spec_byte_width()
            }
    }

    pub fn new(name: String, data_type: DataTypeKind) -> (column: Self)
        ensures
            column.wf(),
            column.spec_name() == name@,
            column.spec_data_type() == data_type,
            column.spec_chunks() == Seq::<ResultColumnChunk<'a>>::empty(),
    {
        Self { name, data_type, chunks: Vec::new() }
    }

    pub fn name(&self) -> (name: &str)
        ensures
            name@ == self.spec_name(),
    {
        self.name.as_str()
    }

    pub fn data_type(&self) -> (data_type: DataTypeKind)
        ensures
            data_type == self.spec_data_type(),
    {
        self.data_type
    }

    pub fn chunks(&self) -> (chunks: &[ResultColumnChunk<'a>])
        ensures
            chunks@ == self.spec_chunks(),
    {
        self.chunks.as_slice()
    }

    pub fn byte_width(&self) -> (width: usize)
        ensures
            width == self.spec_data_type().spec_byte_width(),
            0 < width <= 8,
    {
        self.data_type.byte_width()
    }

    /// The bytes of value `row_index`, found by walking the chunks.
    pub fn row_bytes(&self, row_index: usize) -> (bytes: &'a [u8])
        requires
            self.wf(),
            row_index < self.spec_row_count(),
        ensures
            bytes@ == self.spec_row(row_index as int),
    {
        let byte_width = self.byte_width();
        let mut row_offset = row_index;
        let mut k: usize = 0;
        while k < self.chunks.len()
            invariant
                self.wf(),
                byte_width == self.spec_data_type().spec_byte_width(),
                0 < byte_width <= 8,
                k <= self.chunks@.len(),
                row_offset < spec_rows_from(self.chunks@, k as int),
                spec_row_from(self.chunks@, k as int, row_offset as int, byte_width as int) == self.spec_row(
                    row_index as int,
                ),
            decreases self.chunks@.len() - k,
        {
            let chunk = &self.chunks[k];
            let chunk_len = chunk.data.len();
            if row_offset < chunk.row_count {
                proof {
                    assert(self.chunks@[k as int].spec_data().len() == self.chunks@[k as int].spec_row_count() * byte_width);
                    crate::table::lemma_row_in_bounds(row_offset as int, chunk.row_count as int, byte_width as int);
                }
                let start = row_offset * byte_width;
                let end = start + byte_width;
                return vstd::slice::slice_subrange(chunk.data, start, end);
            }
            row_offset = row_offset - chunk.row_count;
            k = k + 1;
        }
        proof {
            assert(spec_rows_from(self.chunks@, k as int) == 0);
        }
        vstd::slice::slice_subrange(self.chunks[0].data, 0, 0)
    }

    /// Appends a chunk of `row_count` values; an empty chunk is dropped.
    pub fn push_chunk(&mut self, bytes: &'a [u8], row_count: usize)
        requires
            old(self).wf(),
            row_count > 0 ==> bytes@.len() == row_count * old(self).spec_data_type().spec_byte_width(),
        ensures
            final(self).wf(),
            final(self).spec_name() == old(self).spec_name(),
            final(self).spec_data_type() == old(self).spec_data_type(),
            row_count == 0 ==> final(self).spec_chunks() == old(self).spec_chunks(),
            row_count > 0 ==> final(self).spec_data() == old(self).spec_data() + bytes@,
            final(self).spec_row_count() == old(self).spec_row_count() + row_count,
            row_count > 0 ==> {
                &&& final(self).spec_chunks().len() == old(self).spec_chunks().len() + 1
                &&& final(self).spec_chunks().drop_last() == old(self).spec_chunks()
                &&& final(self).spec_chunks().last().spec_data() == bytes@
                &&& final(self).spec_chunks().last().spec_row_count() == row_count
            },
    {
        if row_count == 0 {
            return;
        }
        let chunk = ResultColumnChunk::new(bytes, row_count);
        self.chunks.push(chunk);
        assert(self.chunks@.drop_last() =~= old(self).chunks@);
        proof {
            lemma_push_appends(old(self).chunks@, chunk, 0);
        }
        assert forall|k: int| 0 <= k < self.chunks@.len() implies {
            &&& (#[trigger] self.chunks@[k]).spec_row_count() > 0
            &&& self.chunks@[k].spec_data().len() == self.chunks@[k].spec_row_count() * self.data_type.spec_byte_width()
        } by {
            if k < old(self).chunks@.len() {
                assert(self.chunks@[k] == old(self).spec_chunks()[k]);
            } else {
                assert(self.chunks@[k] == chunk);
            }
        }
    }
}

/// Value `row` of a column is the `row`-th run of `width` bytes in the
/// bytes of all its chunks, which hold `width` bytes per value.
pub proof fn lemma_row_bytes_in_data(column: ResultColumn, row: int)
    requires
        column.wf(),
        0 <= row < column.spec_row_count(),
    ensures
        column.spec_data().len() == column.spec_row_count() * column.spec_data_type().spec_byte_width(),
        column.spec_row(row) == column.spec_data().subrange(
            row * column.spec_data_type().spec_byte_width(),
            (row + 1) * column.spec_data_type().spec_byte_width(),
        ),
{
    let width = column.spec_data_type().spec_byte_width() as int;
    assert(width > 0);
    lemma_row_in_data(column.spec_chunks(), 0, row, width);
    assert((row + 1) * width == row * width + width) by (nonlinear_arith);
}

/// The result of a query: its columns and how many rows they have.
pub struct QueryResult<'a> {
    columns: Vec<ResultColumn<'a>>,
    row_count: usize,
}

impl<'a> QueryResult<'a> {
    pub closed spec fn spec_columns(&self) -> Seq<ResultColumn<'a>> {
        self.columns@
    }

    pub closed spec fn spec_row_count(&self) -> nat {
        self.row_count as nat
    }

    pub fn new(columns: Vec<ResultColumn<'a>>, row_count: usize) -> (result: Self)
        ensures
            result.spec_columns() == columns@,
            result.spec_row_count() == row_count,
    {
        Self { columns, row_count }
    }

    pub fn columns(&self) -> (columns: &[ResultColumn<'a>])
        ensures
            columns@ == self.spec_columns(),
    {
        self.columns.as_slice()
    }

    pub fn row_count(&self) -> (count: usize)
        ensures
            count == self.spec_row_count(),
    {
        self.row_count
    }
}

} // verus!
