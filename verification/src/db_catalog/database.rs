//! The catalog database: uniquely named tables, numbered in creation order.
//!
//! Tables are kept in a `Vec` in creation order and found by name, with
//! names unique by the well-formedness invariant. vstd's `HashMap`
//! specification holds only where `obeys_key_model` holds of the key type
//! and `builds_valid_hashers` of the hasher; vstd establishes neither for a
//! `String` key nor for a seeded third-party hasher, and this crate makes no
//! assumptions, so a `HashMap` of tables would let nothing about a lookup be
//! proved.
use vstd::prelude::*;

use crate::db_catalog::table::{DBTable, CAPACITY_ROWS_WRITE_BUFFER};
use crate::db_core::dtype::{spec_parse, DataTypeKind};
use crate::db_core::table_format::{spec_renders_floats, spec_table_formatted, OutputTable};
use crate::db_types::TableSchema;
use crate::error::Error;

verus! {

/// The tables of the catalog.
pub struct Database {
    tables: Vec<DBTable>,
}

/// Whether `fields` can make a table schema: at least one field, not
/// absurdly many, every name non-empty and every type name a known type.
pub open spec fn spec_valid_fields(fields: Seq<(&str, &str)>) -> bool {
    &&& fields.len() > 0
    &&& fields.len() * 8 * CAPACITY_ROWS_WRITE_BUFFER <= usize::MAX
    &&& forall|i: int|
        0 <= i < fields.len() ==> (#[trigger] fields[i]).0@.len() > 0 && fields[i].1@.len() > 0 && spec_parse(
            fields[i].1@,
        ) is Some
}

/// Index of the first of the first `n` fields whose type name names no
/// known type, if there is one.
pub open spec fn spec_first_unknown_field(fields: Seq<(&str, &str)>, n: int) -> Option<int>
    decreases n,
{
    if n <= 0 {
        None
    } else {
        match spec_first_unknown_field(fields, n - 1) {
            Some(i) => Some(i),
            None => if spec_parse(fields[n - 1].1@) is None {
                Some(n - 1)
            } else {
                None
            },
        }
    }
}

/// The first unknown field among the first `n` stays the first among more.
proof fn lemma_first_unknown_stays(fields: Seq<(&str, &str)>, n: int, m: int)
    requires
        0 <= n <= m,
        spec_first_unknown_field(fields, n) is Some,
    ensures
        spec_first_unknown_field(fields, m) == spec_first_unknown_field(fields, n),
    decreases m - n,
{
    if n < m {
        lemma_first_unknown_stays(fields, n, m - 1);
    }
}

/// Without an unknown field among the first `n`, each of them names a type.
proof fn lemma_no_unknown_field(fields: Seq<(&str, &str)>, n: int)
    requires
        0 <= n <= fields.len(),
        spec_first_unknown_field(fields, n) is None,
    ensures
        forall|i: int| 0 <= i < n ==> spec_parse((#[trigger] fields[i]).1@) is Some,
    decreases n,
{
    if n > 0 {
        lemma_no_unknown_field(fields, n - 1);
    }
}

impl Database {
    /// The tables, in creation order.
    pub closed spec fn spec_tables(&self) -> Seq<DBTable> {
        self.tables@
    }

    /// Position of the table named `name`, if there is one.
    pub open spec fn spec_find(&self, name: Seq<char>) -> Option<int> {
        if exists|i: int| 0 <= i < self.spec_tables().len() && #[trigger] self.spec_tables()[i].spec_name() == name {
            Some(choose|i: int| 0 <= i < self.spec_tables().len() && #[trigger] self.spec_tables()[i].spec_name() == name)
        } else {
            None
        }
    }

    /// Tables are well formed, uniquely named and numbered by creation order.
    pub open spec fn wf(&self) -> bool {
        &&& forall|i: int| 0 <= i < self.spec_tables().len() ==> (#[trigger] self.spec_tables()[i]).wf()
        &&& forall|i: int, j: int|
            0 <= i < self.spec_tables().len() && 0 <= j < self.spec_tables().len() && i != j
                ==> #[trigger] self.spec_tables()[i].spec_name() != #[trigger] self.spec_tables()[j].spec_name()
        &&& forall|i: int| 0 <= i < self.spec_tables().len() ==> (#[trigger] self.spec_tables()[i]).spec_id() == i
    }

    /// In a well-formed database, the table found by a name is the one with
    /// that name.
    pub proof fn lemma_find(&self, i: int)
        requires
            self.wf(),
            0 <= i < self.spec_tables().len(),
        ensures
            self.spec_find(self.spec_tables()[i].spec_name()) == Some(i),
    {
        let name = self.spec_tables()[i].spec_name();
        assert(self.spec_tables()[i].spec_name() == name);
        let j = choose|j: int| 0 <= j < self.spec_tables().len() && #[trigger] self.spec_tables()[j].spec_name() == name;
        assert(j == i);
    }

    pub fn new() -> (database: Self)
        ensures
            database.wf(),
            database.spec_tables() == Seq::<DBTable>::empty(),
    {
        Self { tables: Vec::new() }
    }

    /// Position of the table named `table_name`.
    fn find(&self, table_name: &str) -> (index: Option<usize>)
        requires
            self.wf(),
        ensures
            match self.spec_find(table_name@) {
                None => index is None,
                Some(i) => index == Some(i as usize),
            },
    {
        let wanted = table_name.to_owned();
        let mut i: usize = 0;
        while i < self.tables.len()
            invariant
                self.wf(),
                wanted@ == table_name@,
                0 <= i <= self.tables@.len(),
                forall|j: int| 0 <= j < i ==> #[trigger] self.tables@[j].spec_name() != table_name@,
            decreases self.tables.len() - i,
        {
            let candidate = self.tables[i].name().to_owned();
            if candidate == wanted {
                proof {
                    self.lemma_find(i as int);
                }
                return Some(i);
            }
            i = i + 1;
        }
        None
    }

    /// The table named `table_name`, if there is one.
    pub fn get_table(&self, table_name: &str) -> (table: Option<&DBTable>)
        requires
            self.wf(),
        ensures
            match self.spec_find(table_name@) {
                None => table is None,
                Some(i) => table == Some(&self.spec_tables()[i]),
            },
    {
        match self.find(table_name) {
            Some(i) => Some(&self.tables[i]),
            None => None,
        }
    }

    /// Adds an empty table named `table_name` with `schema`, numbered by the
    /// count of tables before it. The name must be new (the table count
    /// must also fit a `u32`).
    pub fn create_table_with_schema(&mut self, table_name: &str, schema: TableSchema)
        requires
            old(self).wf(),
            old(self).spec_find(table_name@) is None,
            old(self).spec_tables().len() < u32::MAX,
            schema.wf(),
            CAPACITY_ROWS_WRITE_BUFFER * schema.spec_row_size() <= usize::MAX,
        ensures
            final(self).wf(),
            final(self).spec_tables().len() == old(self).spec_tables().len() + 1,
            forall|i: int| 0 <= i < old(self).spec_tables().len() ==> #[trigger] final(self).spec_tables()[i] == old(self).spec_tables()[i],
            ({
                let table = final(self).spec_tables().last();
                &&& table.spec_name() == table_name@
                &&& table.spec_id() == old(self).spec_tables().len()
                &&& table.spec_schema() == schema
                &&& table.spec_contents() == Seq::<u8>::empty()
            }),
    {
        let id = self.tables.len() as u32;
        let table = DBTable::new(table_name.to_owned(), id, schema);
        self.tables.push(table);
        proof {
            assert forall|i: int, j: int|
                0 <= i < self.spec_tables().len() && 0 <= j < self.spec_tables().len() && i != j
                    implies #[trigger] self.spec_tables()[i].spec_name() != #[trigger] self.spec_tables()[j].spec_name() by {
                if i == self.spec_tables().len() - 1 {
                    assert(old(self).spec_tables()[j] == self.spec_tables()[j]);
                } else if j == self.spec_tables().len() - 1 {
                    assert(old(self).spec_tables()[i] == self.spec_tables()[i]);
                }
            }
        }
    }

    /// Adds an empty table named `table_name` whose columns are `fields`
    /// (name, type name) in order.
    pub fn create_table(&mut self, table_name: &str, fields: &[(&str, &str)])
        requires
            old(self).wf(),
            old(self).spec_find(table_name@) is None,
            old(self).spec_tables().len() < u32::MAX,
            spec_valid_fields(fields@),
        ensures
            final(self).wf(),
            final(self).spec_tables().len() == old(self).spec_tables().len() + 1,
            forall|i: int| 0 <= i < old(self).spec_tables().len() ==> #[trigger] final(self).spec_tables()[i] == old(self).spec_tables()[i],
            ({
                let table = final(self).spec_tables().last();
                &&& table.spec_name() == table_name@
                &&& table.spec_id() == old(self).spec_tables().len()
                &&& table.spec_schema().spec_columns().len() == fields@.len()
                &&& forall|i: int|
                    0 <= i < fields@.len() ==> (#[trigger] table.spec_schema().spec_columns()[i]).spec_name() == fields@[i].0@
                        && table.spec_schema().spec_columns()[i].spec_data_type() == spec_parse(fields@[i].1@).unwrap()
                &&& table.spec_contents() == Seq::<u8>::empty()
            }),
    {
        let schema = TableSchema::from_fields(fields);
        proof {
            crate::lsdb_types::table_schema::lemma_size_sum_bound(schema.spec_columns(), fields@.len() as int);
            schema.lemma_wf();
        }
        self.create_table_with_schema(table_name, schema);
    }

    /// Creates a table after checking its name and the type names of its
    /// fields: `TableAlreadyExists` where the name is taken, otherwise
    /// `UnknownDataType` for the first type name that names no type, and
    /// otherwise the table as `create_table` makes it. A refused call leaves
    /// the tables unchanged.
    pub fn try_create_table(&mut self, table_name: &str, fields: &[(&str, &str)]) -> (result: Result<(), Error>)
        requires
            old(self).wf(),
            old(self).spec_tables().len() < u32::MAX,
            fields@.len() > 0,
            fields@.len() * 8 * CAPACITY_ROWS_WRITE_BUFFER <= usize::MAX,
            forall|i: int| 0 <= i < fields@.len() ==> (#[trigger] fields@[i]).0@.len() > 0,
        ensures
            final(self).wf(),
            old(self).spec_find(table_name@) is Some ==> {
                &&& result matches Err(Error::TableAlreadyExists { table_name: name }) && name@ == table_name@
                &&& final(self).spec_tables() == old(self).spec_tables()
            },
            old(self).spec_find(table_name@) is None && spec_first_unknown_field(fields@, fields@.len() as int)
                is Some ==> {
                &&& result matches Err(Error::UnknownDataType { data_type_name: name })
                    && name@ == fields@[spec_first_unknown_field(fields@, fields@.len() as int).unwrap()].1@
                &&& final(self).spec_tables() == old(self).spec_tables()
            },
            old(self).spec_find(table_name@) is None && spec_first_unknown_field(fields@, fields@.len() as int)
                is None ==> {
                let table = final(self).spec_tables().last();
                &&& result is Ok
                &&& spec_valid_fields(fields@)
                &&& final(self).spec_tables().len() == old(self).spec_tables().len() + 1
                &&& forall|i: int|
                    0 <= i < old(self).spec_tables().len() ==> #[trigger] final(self).spec_tables()[i]
                        == old(self).spec_tables()[i]
                &&& table.spec_name() == table_name@
                &&& table.spec_id() == old(self).spec_tables().len()
                &&& table.spec_schema().spec_columns().len() == fields@.len()
                &&& forall|i: int|
                    0 <= i < fields@.len() ==> (#[trigger] table.spec_schema().spec_columns()[i]).spec_name()
                        == fields@[i].0@ && table.spec_schema().spec_columns()[i].spec_data_type() == spec_parse(
                        fields@[i].1@,
                    ).unwrap()
                &&& table.spec_contents() == Seq::<u8>::empty()
            },
    {
        if self.find(table_name).is_some() {
            return Err(Error::TableAlreadyExists { table_name: crate::text::string_of(table_name) });
        }
        let n = fields.len();
        let mut i: usize = 0;
        while i < n
            invariant
                n == fields@.len(),
                0 <= i <= n,
                spec_first_unknown_field(fields@, i as int) is None,
                forall|k: int| 0 <= k < i ==> (#[trigger] fields@[k]).1@.len() > 0,
                self.wf(),
                self.spec_tables() == old(self).spec_tables(),
                old(self).spec_find(table_name@) is None,
            decreases n - i,
        {
            match DataTypeKind::parse(fields[i].1) {
                Ok(_) => {},
                Err(error) => {
                    proof {
                        lemma_first_unknown_stays(fields@, i as int + 1, n as int);
                    }
                    return Err(error);
                },
            }
            i = i + 1;
        }
        proof {
            lemma_no_unknown_field(fields@, n as int);
        }
        self.create_table(table_name, fields);
        Ok(())
    }

    /// Appends whole rows to the table named `table_name`.
    pub fn insert(&mut self, table_name: &str, bytes: &[u8])
        requires
            old(self).wf(),
            old(self).spec_find(table_name@) is Some,
            (bytes@.len() as int) % old(self).spec_tables()[old(self).spec_find(table_name@).unwrap()].spec_row_size() == 0,
        ensures
            final(self).wf(),
            final(self).spec_tables().len() == old(self).spec_tables().len(),
            ({
                let k = old(self).spec_find(table_name@).unwrap();
                &&& final(self).spec_tables()[k].spec_contents() == old(self).spec_tables()[k].spec_contents() + bytes@
                &&& final(self).spec_tables()[k].spec_name() == old(self).spec_tables()[k].spec_name()
                &&& final(self).spec_tables()[k].spec_schema() == old(self).spec_tables()[k].spec_schema()
                &&& forall|i: int|
                    0 <= i < old(self).spec_tables().len() && i != k ==> #[trigger] final(self).spec_tables()[i]
                        == old(self).spec_tables()[i]
            }),
    {
        match self.find(table_name) {
            Some(i) => {
                self.tables[i].insert(bytes);
                proof {
                    assert forall|a: int, b: int|
                        0 <= a < self.spec_tables().len() && 0 <= b < self.spec_tables().len() && a != b
                            implies #[trigger] self.spec_tables()[a].spec_name() != #[trigger] self.spec_tables()[b].spec_name() by {
                        assert(old(self).spec_tables()[a].spec_name() == self.spec_tables()[a].spec_name());
                        assert(old(self).spec_tables()[b].spec_name() == self.spec_tables()[b].spec_name());
                    }
                }
            },
            None => {},
        }
    }

    /// Flushes the table named `table_name` and formats all of its rows.
    /// Floating-point values are rendered by `format_float`.
    pub fn print_table<F: Fn(DataTypeKind, &[u8]) -> String>(&mut self, table_name: &str, format_float: F) -> (result: OutputTable)
        requires
            old(self).wf(),
            old(self).spec_find(table_name@) is Some,
            spec_renders_floats(format_float),
        ensures
            final(self).wf(),
            final(self).spec_tables().len() == old(self).spec_tables().len(),
            ({
                let k = old(self).spec_find(table_name@).unwrap();
                let table = final(self).spec_tables()[k];
                &&& table.spec_contents() == old(self).spec_tables()[k].spec_contents()
                &&& table.spec_buffer() == Seq::<u8>::empty()
                &&& table.spec_name() == old(self).spec_tables()[k].spec_name()
                &&& table.spec_schema() == old(self).spec_tables()[k].spec_schema()
                &&& spec_table_formatted(table, format_float, result)
                &&& forall|i: int|
                    0 <= i < old(self).spec_tables().len() && i != k ==> #[trigger] final(self).spec_tables()[i]
                        == old(self).spec_tables()[i]
            }),
    {
        match self.find(table_name) {
            Some(i) => {
                self.tables[i].flush_write_buffer();
                proof {
                    assert forall|a: int, b: int|
                        0 <= a < self.spec_tables().len() && 0 <= b < self.spec_tables().len() && a != b
                            implies #[trigger] self.spec_tables()[a].spec_name() != #[trigger] self.spec_tables()[b].spec_name() by {
                        assert(old(self).spec_tables()[a].spec_name() == self.spec_tables()[a].spec_name());
                        assert(old(self).spec_tables()[b].spec_name() == self.spec_tables()[b].spec_name());
                    }
                }
                OutputTable::from_table(&self.tables[i], format_float)
            },
            None => {
                proof {
                    assert(false);
                }
                OutputTable::from_table(&self.tables[0], format_float)
            },
        }
    }
}

impl Default for Database {
    fn default() -> (database: Self)
        ensures
            database.wf(),
            database.spec_tables() == Seq::<DBTable>::empty(),
    {
        Self::new()
    }
}

} // verus!
