//! Column-wise view of a flushed table: each column's bytes, partition after
//! partition, are that column's fields of the inserted rows.
use vstd::prelude::*;

use crate::db_catalog::table::{spec_filled_in_order, spec_partitions_bytes, DBTable};
use crate::db_storage::table_partition::{
    lemma_packed_layout, spec_column_offset, spec_column_width, TablePartition,
};
use crate::db_types::TableSchema;

verus! {

/// The bytes of column `c` in the first `count` partitions, back to back.
pub open spec fn spec_column_bytes(partitions: Seq<TablePartition>, c: int, count: int) -> Seq<u8>
    decreases count,
{
    if count <= 0 {
        Seq::empty()
    } else {
        spec_column_bytes(partitions, c, count - 1) + partitions[count - 1].spec_columns()[c].spec_data()
    }
}

/// Number of rows in the first `count` partitions.
pub open spec fn spec_rows_total(partitions: Seq<TablePartition>, count: int) -> int
    decreases count,
{
    if count <= 0 {
        0
    } else {
        spec_rows_total(partitions, count - 1) + partitions[count - 1].spec_row_count()
    }
}

/// Field `c` of each of the first `n` packed rows of `bytes`, back to back.
pub open spec fn spec_column_of_rows(bytes: Seq<u8>, schema: TableSchema, c: int, n: int) -> Seq<u8>
    decreases n,
{
    if n <= 0 {
        Seq::empty()
    } else {
        let lo = (n - 1) * schema.spec_row_size() + spec_column_offset(schema, c);
        spec_column_of_rows(bytes, schema, c, n - 1) + bytes.subrange(lo, lo + spec_column_width(schema, c))
    }
}

/// Offset and width of a column lie within a row.
proof fn lemma_field_in_row(schema: TableSchema, c: int)
    requires
        schema.wf(),
        0 <= c < schema.spec_columns().len(),
    ensures
        0 <= spec_column_offset(schema, c),
        0 < spec_column_width(schema, c),
        spec_column_offset(schema, c) + spec_column_width(schema, c) <= schema.spec_row_size(),
{
    schema.lemma_wf();
    crate::lsdb_types::table_schema::lemma_size_sum_mono(schema.spec_columns(), c + 1, schema.spec_columns().len() as int);
    crate::lsdb_types::table_schema::lemma_size_sum_mono(schema.spec_columns(), c, c + 1);
}

/// Fields of rows that lie in a prefix are read from the prefix alone.
proof fn lemma_column_of_rows_prefix(a: Seq<u8>, b: Seq<u8>, schema: TableSchema, c: int, n: int)
    requires
        schema.wf(),
        0 <= c < schema.spec_columns().len(),
        0 <= n,
        n * schema.spec_row_size() <= a.len(),
    ensures
        spec_column_of_rows(a + b, schema, c, n) == spec_column_of_rows(a, schema, c, n),
    decreases n,
{
    if n > 0 {
        let rs = schema.spec_row_size() as int;
        lemma_field_in_row(schema, c);
        assert((n - 1) * rs <= n * rs) by (nonlinear_arith)
            requires
                n >= 1,
                rs >= 0,
        ;
        lemma_column_of_rows_prefix(a, b, schema, c, n - 1);
        let lo = (n - 1) * rs + spec_column_offset(schema, c);
        assert((n - 1) * rs + rs == n * rs) by (nonlinear_arith);
        assert((a + b).subrange(lo, lo + spec_column_width(schema, c)) =~= a.subrange(
            lo,
            lo + spec_column_width(schema, c),
        ));
    }
}

/// Fields of rows after `na` whole rows of `a` are the fields of the rows
/// of `b`.
proof fn lemma_column_of_rows_concat(a: Seq<u8>, b: Seq<u8>, schema: TableSchema, c: int, na: int, nb: int)
    requires
        schema.wf(),
        0 <= c < schema.spec_columns().len(),
        0 <= na,
        0 <= nb,
        a.len() == na * schema.spec_row_size(),
        nb * schema.spec_row_size() <= b.len(),
    ensures
        spec_column_of_rows(a + b, schema, c, na + nb) == spec_column_of_rows(a, schema, c, na)
            + spec_column_of_rows(b, schema, c, nb),
    decreases nb,
{
    let rs = schema.spec_row_size() as int;
    if nb == 0 {
        lemma_column_of_rows_prefix(a, b, schema, c, na);
        assert(spec_column_of_rows(b, schema, c, 0) == Seq::<u8>::empty());
        assert(spec_column_of_rows(a, schema, c, na) + Seq::<u8>::empty() =~= spec_column_of_rows(a, schema, c, na));
    } else {
        lemma_field_in_row(schema, c);
        assert((nb - 1) * rs <= nb * rs) by (nonlinear_arith)
            requires
                nb >= 1,
                rs >= 0,
        ;
        lemma_column_of_rows_concat(a, b, schema, c, na, nb - 1);
        let k = nb - 1;
        let off = spec_column_offset(schema, c);
        let w = spec_column_width(schema, c);
        assert((na + k) * rs == na * rs + k * rs) by (nonlinear_arith);
        assert(k * rs + rs == nb * rs) by (nonlinear_arith)
            requires
                k == nb - 1,
        ;
        assert(k * rs >= 0) by (nonlinear_arith)
            requires
                k >= 0,
                rs >= 0,
        ;
        let lo = (na + nb - 1) * rs + off;
        assert(lo == a.len() + k * rs + off);
        assert((a + b).subrange(lo, lo + w) =~= b.subrange(k * rs + off, k * rs + off + w));
        assert(spec_column_of_rows(a + b, schema, c, na + nb) =~= spec_column_of_rows(a, schema, c, na)
            + spec_column_of_rows(b, schema, c, nb));
    }
}

/// A partition's column `c` holds field `c` of its packed rows.
proof fn lemma_partition_column(partition: TablePartition, schema: TableSchema, c: int, n: int)
    requires
        schema.wf(),
        partition.wf(schema),
        0 <= c < schema.spec_columns().len(),
        0 <= n <= partition.spec_row_count(),
    ensures
        spec_column_of_rows(partition.spec_packed(schema), schema, c, n) == partition.spec_columns()[c].spec_data().subrange(
            0,
            n * spec_column_width(schema, c),
        ),
    decreases n,
{
    if n > 0 {
        lemma_partition_column(partition, schema, c, n - 1);
        lemma_field_in_row(schema, c);
        let count = partition.spec_row_count() as int;
        let w = spec_column_width(schema, c);
        let data = partition.spec_columns()[c].spec_data();
        lemma_packed_layout(partition, schema, count);
        assert(partition.spec_cell(schema, n - 1, c) == partition.spec_packed(schema).subrange(
            (n - 1) * schema.spec_row_size() + spec_column_offset(schema, c),
            (n - 1) * schema.spec_row_size() + spec_column_offset(schema, c) + w,
        ));
        assert(data.len() == count * w);
        assert((n - 1) * w + w == n * w) by (nonlinear_arith);
        assert(n * w <= count * w) by (nonlinear_arith)
            requires
                n <= count,
                w >= 0,
        ;
        assert(data.subrange(0, (n - 1) * w) + data.subrange((n - 1) * w, n * w) =~= data.subrange(0, n * w));
    } else {
        let w = spec_column_width(schema, c);
        assert(n * w == 0) by (nonlinear_arith)
            requires
                n == 0,
        ;
        assert(partition.spec_columns()[c].spec_data().subrange(0, 0) =~= Seq::<u8>::empty());
    }
}

/// Column `c` of the first `count` partitions holds field `c` of their
/// packed rows.
proof fn lemma_partitions_column(partitions: Seq<TablePartition>, schema: TableSchema, c: int, count: int)
    requires
        schema.wf(),
        0 <= c < schema.spec_columns().len(),
        0 <= count <= partitions.len(),
        forall|p: int| 0 <= p < partitions.len() ==> (#[trigger] partitions[p]).wf(schema),
    ensures
        spec_partitions_bytes(partitions, schema, count).len() == spec_rows_total(partitions, count)
            * schema.spec_row_size(),
        spec_column_bytes(partitions, c, count) == spec_column_of_rows(
            spec_partitions_bytes(partitions, schema, count),
            schema,
            c,
            spec_rows_total(partitions, count),
        ),
    decreases count,
{
    let rs = schema.spec_row_size() as int;
    if count > 0 {
        lemma_partitions_column(partitions, schema, c, count - 1);
        let last = partitions[count - 1];
        let n = last.spec_row_count() as int;
        let before = spec_partitions_bytes(partitions, schema, count - 1);
        let packed = last.spec_packed(schema);
        let m = spec_rows_total(partitions, count - 1);
        lemma_packed_layout(last, schema, n);
        lemma_partition_column(last, schema, c, n);
        let data = last.spec_columns()[c].spec_data();
        assert(data.len() == n * spec_column_width(schema, c));
        assert(data.subrange(0, n * spec_column_width(schema, c)) =~= data);
        assert(m >= 0) by {
            lemma_rows_total_nonneg(partitions, count - 1);
        }
        lemma_column_of_rows_concat(before, packed, schema, c, m, n);
        assert((m + n) * rs == m * rs + n * rs) by (nonlinear_arith);
    } else {
        assert(spec_rows_total(partitions, count) * rs == 0);
    }
}

proof fn lemma_rows_total_nonneg(partitions: Seq<TablePartition>, count: int)
    ensures
        spec_rows_total(partitions, count) >= 0,
    decreases count,
{
    if count > 0 {
        lemma_rows_total_nonneg(partitions, count - 1);
    }
}

/// With nothing buffered, each column's bytes, partition after partition,
/// are that column's fields of every inserted row, in insertion order, and
/// the partitions hold as many rows as were inserted.
pub proof fn lemma_columns_hold_inserted_fields(table: DBTable, c: int)
    requires
        table.wf(),
        table.spec_buffer() == Seq::<u8>::empty(),
        0 <= c < table.spec_schema().spec_columns().len(),
    ensures
        spec_rows_total(table.spec_partitions(), table.spec_partitions().len() as int) * table.spec_row_size()
            == table.spec_contents().len(),
        spec_column_bytes(table.spec_partitions(), c, table.spec_partitions().len() as int) == spec_column_of_rows(
            table.spec_contents(),
            table.spec_schema(),
            c,
            spec_rows_total(table.spec_partitions(), table.spec_partitions().len() as int),
        ),
{
    lemma_partitions_column(table.spec_partitions(), table.spec_schema(), c, table.spec_partitions().len() as int);
    assert(table.spec_contents() =~= table.spec_stored());
}

/// The byte strings of `parts`, back to back.
pub open spec fn spec_concat_all(parts: Seq<Seq<u8>>) -> Seq<u8>
    decreases parts.len(),
{
    if parts.len() == 0 {
        Seq::empty()
    } else {
        spec_concat_all(parts.drop_last()) + parts.last()
    }
}

/// Contents built by appending each part in turn are the parts back to back.
proof fn lemma_contents_after_steps(states: Seq<DBTable>, inserted: Seq<Seq<u8>>, k: int)
    requires
        states.len() == inserted.len() + 1,
        states[0].spec_contents() == Seq::<u8>::empty(),
        forall|i: int|
            0 <= i < inserted.len() ==> #[trigger] states[i + 1].spec_contents() == states[i].spec_contents()
                + inserted[i],
        0 <= k <= inserted.len(),
    ensures
        states[k].spec_contents() == spec_concat_all(inserted.take(k)),
    decreases k,
{
    if k > 0 {
        lemma_contents_after_steps(states, inserted, k - 1);
        assert(inserted.take(k).drop_last() =~= inserted.take(k - 1));
        assert(states[(k - 1) + 1].spec_contents() == states[k - 1].spec_contents() + inserted[k - 1]);
    } else {
        assert(spec_concat_all(inserted.take(0)) == Seq::<u8>::empty());
    }
}

/// Inserting byte strings into a new table and flushing it: the table holds
/// the strings back to back; its partitions hold one row per inserted row,
/// all but the last of them full; and column `c` of the partitions, one
/// after another, is field `c` of every inserted row in insertion order.
/// `states` are the table after creation and after each insert, as the
/// contracts of `DBTable::new` and `DBTable::insert` give them, and
/// `flushed` is the table after `flush_write_buffer`. A second flush finds
/// the buffer empty and leaves the partitions as they are.
pub proof fn lemma_flush_after_inserts(states: Seq<DBTable>, inserted: Seq<Seq<u8>>, flushed: DBTable, c: int)
    requires
        states.len() == inserted.len() + 1,
        states[0].spec_contents() == Seq::<u8>::empty(),
        forall|i: int|
            0 <= i < inserted.len() ==> #[trigger] states[i + 1].spec_contents() == states[i].spec_contents()
                + inserted[i],
        flushed.wf(),
        flushed.spec_buffer() == Seq::<u8>::empty(),
        flushed.spec_contents() == states.last().spec_contents(),
        0 <= c < flushed.spec_schema().spec_columns().len(),
    ensures
        flushed.spec_contents() == spec_concat_all(inserted),
        spec_rows_total(flushed.spec_partitions(), flushed.spec_partitions().len() as int) * flushed.spec_row_size()
            == spec_concat_all(inserted).len(),
        spec_filled_in_order(flushed.spec_partitions()),
        spec_column_bytes(flushed.spec_partitions(), c, flushed.spec_partitions().len() as int)
            == spec_column_of_rows(
            spec_concat_all(inserted),
            flushed.spec_schema(),
            c,
            spec_rows_total(flushed.spec_partitions(), flushed.spec_partitions().len() as int),
        ),
{
    lemma_contents_after_steps(states, inserted, inserted.len() as int);
    assert(inserted.take(inserted.len() as int) =~= inserted);
    lemma_columns_hold_inserted_fields(flushed, c);
}

} // verus!
