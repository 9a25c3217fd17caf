//! A catalog table: rows are buffered, then written into partitions.
use vstd::prelude::*;

pub use crate::db_core::table_meta::TableMeta;
use crate::db_catalog::statistics::TableStatistics;
use crate::db_storage::table_partition::{CAPACITY_ROWS_SEGMENT, TablePartition};
use crate::db_types::TableSchema;

verus! {

/// Rows held in the write buffer before it is flushed.
pub const CAPACITY_ROWS_WRITE_BUFFER: usize = 4096;

/// The packed rows of the first `count` partitions, in order.
pub open spec fn spec_partitions_bytes(partitions: Seq<TablePartition>, schema: TableSchema, count: int) -> Seq<u8>
    decreases count,
{
    if count <= 0 {
        Seq::empty()
    } else {
        spec_partitions_bytes(partitions, schema, count - 1) + partitions[count - 1].spec_packed(schema)
    }
}

/// Every partition but the last is full.
pub open spec fn spec_filled_in_order(partitions: Seq<TablePartition>) -> bool {
    forall|i: int| 0 <= i < partitions.len() - 1 ==> (#[trigger] partitions[i]).spec_row_count() == CAPACITY_ROWS_SEGMENT
}

/// Partitions that agree below `count` have the same packed prefix.
proof fn lemma_partitions_prefix_same(a: Seq<TablePartition>, b: Seq<TablePartition>, schema: TableSchema, count: int)
    requires
        0 <= count <= a.len(),
        count <= b.len(),
        forall|i: int| 0 <= i < count ==> #[trigger] a[i] == b[i],
    ensures
        spec_partitions_bytes(a, schema, count) == spec_partitions_bytes(b, schema, count),
    decreases count,
{
    if count > 0 {
        lemma_partitions_prefix_same(a, b, schema, count - 1);
    }
}

/// A table: name and id, schema, the partitions that hold its rows, and a
/// buffer of rows not yet written to them.
#[derive(Debug)]
pub struct DBTable {
    meta: TableMeta,
    schema: TableSchema,
    table_partitions: Vec<TablePartition>,
    stats: TableStatistics,
    write_buffer: Vec<u8>,
}

impl DBTable {
    pub closed spec fn spec_name(&self) -> Seq<char> {
        self.meta.spec_name()
    }

    pub closed spec fn spec_id(&self) -> u32 {
        self.meta.spec_id()
    }

    pub closed spec fn spec_schema(&self) -> TableSchema {
        self.schema
    }

    /// The table's statistics.
    pub closed spec fn spec_stats(&self) -> TableStatistics {
        self.stats
    }

    pub closed spec fn spec_partitions(&self) -> Seq<TablePartition> {
        self.table_partitions@
    }

    /// Packed rows that are buffered and not yet in a partition.
    pub closed spec fn spec_buffer(&self) -> Seq<u8> {
        self.write_buffer@
    }

    /// Packed rows held by the partitions, partition by partition.
    pub open spec fn spec_stored(&self) -> Seq<u8> {
        spec_partitions_bytes(self.spec_partitions(), self.spec_schema(), self.spec_partitions().len() as int)
    }

    /// Every row inserted, in order, as packed bytes: the partitions' rows
    /// followed by the buffered ones.
    pub open spec fn spec_contents(&self) -> Seq<u8> {
        self.spec_stored() + self.spec_buffer()
    }

    /// Byte size of one row.
    pub open spec fn spec_row_size(&self) -> int {
        self.spec_schema().spec_row_size() as int
    }

    /// A valid schema whose buffer size fits a `usize`, at least one
    /// partition, every partition laid out by the schema and all but the
    /// last one full, and a buffer of whole rows, fewer than the buffer's row
    /// capacity.
    pub open spec fn wf(&self) -> bool {
        &&& self.spec_schema().wf()
        &&& CAPACITY_ROWS_WRITE_BUFFER * self.spec_row_size() <= usize::MAX
        &&& self.spec_partitions().len() >= 1
        &&& forall|i: int| 0 <= i < self.spec_partitions().len() ==> (#[trigger] self.spec_partitions()[i]).wf(self.spec_schema())
        &&& spec_filled_in_order(self.spec_partitions())
        &&& (self.spec_buffer().len() as int) % self.spec_row_size() == 0
        &&& self.spec_buffer().len() < CAPACITY_ROWS_WRITE_BUFFER * self.spec_row_size()
    }

    pub fn new(name: String, id: u32, schema: TableSchema) -> (table: Self)
        requires
            schema.wf(),
            CAPACITY_ROWS_WRITE_BUFFER * schema.spec_row_size() <= usize::MAX,
        ensures
            table.wf(),
            table.spec_name() == name@,
            table.spec_id() == id,
            table.spec_schema() == schema,
            table.spec_contents() == Seq::<u8>::empty(),
            table.spec_partitions().len() == 1,
    {
        proof {
            schema.lemma_row_size_positive();
        }
        let partition = TablePartition::new(&schema);
        let ghost first = partition;
        let table_partitions = vec![partition];
        let buffer_capacity_bytes = CAPACITY_ROWS_WRITE_BUFFER * schema.row_size_bytes();
        let table = Self {
            meta: TableMeta::new(name, id),
            schema,
            table_partitions,
            stats: TableStatistics::new(),
            write_buffer: Vec::with_capacity(buffer_capacity_bytes),
        };
        proof {
            let p = table.table_partitions@[0];
            assert(table.table_partitions@ =~= seq![first]);
            assert(p.spec_packed(table.schema) == Seq::<u8>::empty());
            assert(spec_partitions_bytes(table.table_partitions@, table.schema, 0) == Seq::<u8>::empty());
            assert(table.spec_stored() =~= Seq::<u8>::empty());
            assert(table.spec_contents() =~= Seq::<u8>::empty());
        }
        table
    }

    /// Buffer rows; flush to table partitions automatically when the
    /// buffer reaches capacity. `bytes` must hold whole rows.
    pub fn insert(&mut self, bytes: &[u8])
        requires
            old(self).wf(),
            (bytes@.len() as int) % old(self).spec_row_size() == 0,
        ensures
            final(self).wf(),
            final(self).spec_contents() == old(self).spec_contents() + bytes@,
            final(self).spec_name() == old(self).spec_name(),
            final(self).spec_id() == old(self).spec_id(),
            final(self).spec_schema() == old(self).spec_schema(),
            final(self).spec_stats() == old(self).spec_stats(),
            old(self).spec_buffer().len() + bytes@.len() < CAPACITY_ROWS_WRITE_BUFFER * old(self).spec_row_size()
                ==> {
                &&& final(self).spec_buffer() == old(self).spec_buffer() + bytes@
                &&& final(self).spec_partitions() == old(self).spec_partitions()
            },
            old(self).spec_buffer().len() + bytes@.len() >= CAPACITY_ROWS_WRITE_BUFFER * old(self).spec_row_size()
                ==> final(self).spec_buffer() == Seq::<u8>::empty(),
    {
        let row_byte_width = self.schema.row_size_bytes();
        proof {
            self.schema.lemma_row_size_positive();
        }
        let ghost before_len = self.write_buffer@.len();
        self.write_buffer.extend_from_slice(bytes);
        proof {
            vstd::arithmetic::div_mod::lemma_add_mod_noop(before_len as int, bytes@.len() as int, row_byte_width as int);
        }
        let capacity_bytes = CAPACITY_ROWS_WRITE_BUFFER * row_byte_width;
        if self.write_buffer.len() >= capacity_bytes {
            self.flush_write_buffer();
        }
    }

    /// Drain any buffered rows into table partitions.
    pub fn flush_write_buffer(&mut self)
        requires
            old(self).spec_schema().wf(),
            CAPACITY_ROWS_WRITE_BUFFER * old(self).spec_row_size() <= usize::MAX,
            old(self).spec_partitions().len() >= 1,
            forall|i: int|
                0 <= i < old(self).spec_partitions().len() ==> (#[trigger] old(self).spec_partitions()[i]).wf(
                    old(self).spec_schema(),
                ),
            (old(self).spec_buffer().len() as int) % old(self).spec_row_size() == 0,
            spec_filled_in_order(old(self).spec_partitions()),
        ensures
            final(self).wf(),
            final(self).spec_buffer() == Seq::<u8>::empty(),
            final(self).spec_contents() == old(self).spec_contents(),
            final(self).spec_name() == old(self).spec_name(),
            final(self).spec_id() == old(self).spec_id(),
            final(self).spec_schema() == old(self).spec_schema(),
            final(self).spec_stats() == old(self).spec_stats(),
            old(self).spec_buffer().len() == 0 ==> final(self).spec_partitions() == old(self).spec_partitions(),
    {
        proof {
            self.schema.lemma_row_size_positive();
        }
        if self.write_buffer.is_empty() {
            assert(self.spec_contents() =~= self.spec_stored());
            return;
        }
        let mut buffer: Vec<u8> = Vec::new();
        std::mem::swap(&mut self.write_buffer, &mut buffer);
        self.write_rows_to_table_partitions(buffer.as_slice());
        buffer.clear();
        std::mem::swap(&mut self.write_buffer, &mut buffer);
        assert(self.spec_contents() =~= self.spec_stored());
    }

    /// Writes whole rows into the partitions, filling the last one and
    /// opening a new one whenever it is full.
    fn write_rows_to_table_partitions(&mut self, bytes: &[u8])
        requires
            old(self).spec_schema().wf(),
            old(self).spec_partitions().len() >= 1,
            forall|i: int|
                0 <= i < old(self).spec_partitions().len() ==> (#[trigger] old(self).spec_partitions()[i]).wf(
                    old(self).spec_schema(),
                ),
            (bytes@.len() as int) % old(self).spec_row_size() == 0,
            spec_filled_in_order(old(self).spec_partitions()),
        ensures
            final(self).spec_partitions().len() >= 1,
            spec_filled_in_order(final(self).spec_partitions()),
            forall|i: int|
                0 <= i < final(self).spec_partitions().len() ==> (#[trigger] final(self).spec_partitions()[i]).wf(
                    final(self).spec_schema(),
                ),
            final(self).spec_stored() == old(self).spec_stored() + bytes@,
            final(self).spec_buffer() == old(self).spec_buffer(),
            final(self).meta == old(self).meta,
            final(self).spec_schema() == old(self).spec_schema(),
            final(self).spec_stats() == old(self).spec_stats(),
    {
        proof {
            self.schema.lemma_row_size_positive();
        }
        let row_byte_width = self.schema.row_size_bytes();
        let row_count_total = bytes.len() / row_byte_width;
        let ghost rs = row_byte_width as int;
        proof {
            assert(row_count_total * rs == bytes@.len()) by (nonlinear_arith)
                requires
                    row_count_total == (bytes@.len() as int) / rs,
                    (bytes@.len() as int) % rs == 0,
                    rs > 0,
            ;
        }
        let total = bytes.len();
        let mut row_count_done: usize = 0;
        while row_count_done < row_count_total
            invariant
                total == bytes@.len(),
                self.schema.wf(),
                rs == self.spec_row_size(),
                rs == row_byte_width,
                rs > 0,
                row_count_total * rs == bytes@.len(),
                row_count_done <= row_count_total,
                self.table_partitions@.len() >= 1,
                forall|i: int|
                    0 <= i < self.table_partitions@.len() ==> (#[trigger] self.table_partitions@[i]).wf(self.schema),
                spec_filled_in_order(self.table_partitions@),
                self.spec_stored() == old(self).spec_stored() + bytes@.subrange(0, row_count_done * rs),
                self.write_buffer == old(self).write_buffer,
                self.meta == old(self).meta,
                self.schema == old(self).schema,
                self.stats == old(self).stats,
            decreases row_count_total - row_count_done,
        {
            let last_index = self.table_partitions.len() - 1;
            let is_full = self.table_partitions[last_index].rows_available() == 0;
            if is_full {
                let ghost parts = self.table_partitions@;
                let partition = TablePartition::new(&self.schema);
                self.table_partitions.push(partition);
                proof {
                    lemma_partitions_prefix_same(self.table_partitions@, parts, self.schema, parts.len() as int);
                    assert(partition.spec_packed(self.schema) == Seq::<u8>::empty());
                    assert(self.spec_stored() =~= spec_partitions_bytes(parts, self.schema, parts.len() as int));
                }
            }
            let last_index = self.table_partitions.len() - 1;
            let available = self.table_partitions[last_index].rows_available() as usize;
            let remaining = row_count_total - row_count_done;
            let row_count_chunk = if remaining < available { remaining } else { available };
            proof {
                crate::table::lemma_row_in_bounds(row_count_done as int, row_count_total as int, rs);
                assert((row_count_done + row_count_chunk) * rs <= row_count_total * rs) by (nonlinear_arith)
                    requires
                        row_count_done + row_count_chunk <= row_count_total,
                        rs > 0,
                ;
                assert((row_count_done + row_count_chunk) * rs == row_count_done * rs + row_count_chunk * rs)
                    by (nonlinear_arith);
            }
            let byte_start = row_count_done * row_byte_width;
            let byte_end = byte_start + row_count_chunk * row_byte_width;
            let chunk = vstd::slice::slice_subrange(bytes, byte_start, byte_end);
            let ghost parts = self.table_partitions@;
            proof {
                assert(chunk@.len() == row_count_chunk * rs);
                assert((chunk@.len() as int) / rs == row_count_chunk as int) by (nonlinear_arith)
                    requires
                        chunk@.len() == row_count_chunk * rs,
                        rs > 0,
                ;
            }
            self.table_partitions[last_index].insert_rows(&self.schema, chunk);
            proof {
                let n = parts.len() as int;
                lemma_partitions_prefix_same(self.table_partitions@, parts, self.schema, n - 1);
                assert(chunk@.subrange(0, row_count_chunk * rs) =~= chunk@);
                assert(bytes@.subrange(0, (row_count_done + row_count_chunk) * rs) =~= bytes@.subrange(
                    0,
                    row_count_done * rs,
                ) + chunk@);
                assert(self.spec_stored() =~= spec_partitions_bytes(parts, self.schema, n) + chunk@);
            }
            row_count_done = row_count_done + row_count_chunk;
        }
        assert(bytes@.subrange(0, row_count_total * rs) =~= bytes@);
    }

    pub fn name(&self) -> (name: &str)
        ensures
            name@ == self.spec_name(),
    {
        self.meta.name()
    }

    pub fn id(&self) -> (id: u32)
        ensures
            id == self.spec_id(),
    {
        self.meta.id()
    }

    pub fn schema(&self) -> (schema: &TableSchema)
        ensures
            *schema == self.spec_schema(),
    {
        &self.schema
    }

    pub fn table_partitions(&self) -> (partitions: &[TablePartition])
        ensures
            partitions@ == self.spec_partitions(),
    {
        self.table_partitions.as_slice()
    }

    /// The partitions, under the name the core table gives them.
    pub fn row_groups(&self) -> (row_groups: &[TablePartition])
        ensures
            row_groups@ == self.spec_partitions(),
    {
        self.table_partitions.as_slice()
    }

    pub fn stats(&self) -> (stats: &TableStatistics)
        ensures
            *stats == self.spec_stats(),
    {
        &self.stats
    }
}

} // verus!