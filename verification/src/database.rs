//! The top-level database: a set of uniquely named tables.
//!
//! Tables are kept in a `Vec` in creation order and found by name, with
//! names unique by the well-formedness invariant. vstd's `HashMap`
//! specification holds only where `obeys_key_model` holds of the key type
//! and `builds_valid_hashers` of the hasher; vstd establishes neither for a
//! `String` key nor for a seeded third-party hasher, and this crate makes no
//! assumptions, so a `HashMap` of tables would let nothing about a lookup be
//! proved.
use vstd::prelude::*;

use crate::dtype::{spec_parse, DataTypeKind};
use crate::error::Error;
use crate::format_table::{spec_float_formatter, spec_formatted, OutputTable};
use crate::table::{spec_insert_fits, spec_inserted, DatabaseTable, TableId};
use crate::text::string_of;

verus! {

/// Named pair for defining a table column's name and type.
///
/// Avoids same-type `(&str, &str)` ambiguity at call sites.
pub struct FieldDefinition<'a> {
    pub name: &'a str,
    pub data_type_name: &'a str,
}

/// Top-level database owning all tables.
pub struct Database {
    tables: Vec<DatabaseTable>,
    table_id_next: TableId,
}

/// Index of the first field whose type name parses to no data type, if any.
pub open spec fn spec_first_unknown_type(fields: Seq<FieldDefinition>) -> Option<int>
    decreases fields.len(),
{
    if fields.len() == 0 {
        None
    } else {
        match spec_first_unknown_type(fields.drop_last()) {
            Some(i) => Some(i),
            None => if spec_parse(fields.last().data_type_name@) is None {
                Some(fields.len() - 1)
            } else {
                None
            },
        }
    }
}

/// The data types that the fields' type names denote.
pub open spec fn spec_field_types(fields: Seq<FieldDefinition>) -> Seq<DataTypeKind> {
    fields.map_values(|f: FieldDefinition| spec_parse(f.data_type_name@).unwrap())
}

/// The fields' names as strings.
pub open spec fn spec_field_names(fields: Seq<FieldDefinition>) -> Seq<Seq<char>> {
    fields.map_values(|f: FieldDefinition| f.name@)
}

impl Default for Database {
    fn default() -> (database: Self)
        ensures
            database.wf(),
            database.spec_tables() == Seq::<DatabaseTable>::empty(),
    {
        Self::new()
    }
}

impl Database {
    /// The tables, in creation order.
    pub closed spec fn spec_tables(&self) -> Seq<DatabaseTable> {
        self.tables@
    }

    /// Position of the table named `name`, if there is one.
    pub open spec fn spec_find(&self, name: Seq<char>) -> Option<int> {
        if exists|i: int| 0 <= i < self.spec_tables().len() && #[trigger] self.spec_tables()[i].spec_name() == name {
            Some(choose|i: int| 0 <= i < self.spec_tables().len() && #[trigger] self.spec_tables()[i].spec_name() == name)
        } else {
            None
        }
    }

    /// Consistency: tables are well formed, uniquely named, and numbered by
    /// their creation order, and the next identifier is the table count.
    pub closed spec fn wf(&self) -> bool {
        &&& forall|i: int| 0 <= i < self.tables@.len() ==> (#[trigger] self.tables@[i]).wf()
        &&& forall|i: int, j: int|
            0 <= i < self.tables@.len() && 0 <= j < self.tables@.len() && i != j ==> #[trigger] self.tables@[i].spec_name()
                != #[trigger] self.tables@[j].spec_name()
        &&& forall|i: int| 0 <= i < self.tables@.len() ==> (#[trigger] self.tables@[i]).spec_id().spec_value() == i
        &&& self.table_id_next.spec_value() == self.tables@.len()
    }

    /// Facts that follow from well-formedness.
    pub proof fn lemma_wf(&self)
        requires
            self.wf(),
        ensures
            forall|i: int| 0 <= i < self.spec_tables().len() ==> (#[trigger] self.spec_tables()[i]).wf(),
            forall|i: int|
                0 <= i < self.spec_tables().len() ==> (#[trigger] self.spec_tables()[i]).spec_id().spec_value() == i,
            forall|i: int|
                0 <= i < self.spec_tables().len() ==> self.spec_find(#[trigger] self.spec_tables()[i].spec_name()) == Some(i),
    {
        assert forall|i: int|
            0 <= i < self.spec_tables().len() implies self.spec_find(#[trigger] self.spec_tables()[i].spec_name()) == Some(i) by {
            let name = self.spec_tables()[i].spec_name();
            assert(self.spec_tables()[i].spec_name() == name);
            let j = choose|j: int| 0 <= j < self.spec_tables().len() && #[trigger] self.spec_tables()[j].spec_name() == name;
            assert(j == i);
        }
    }

    /// Table identifiers follow creation order: the table created `i`-th
    /// has identifier `i`, so identifiers are distinct and increasing, and
    /// a refused `create_table` (which leaves the tables unchanged) uses none.
    pub proof fn lemma_ids_in_creation_order(&self)
        requires
            self.wf(),
        ensures
            forall|i: int| 0 <= i < self.spec_tables().len() ==> (#[trigger] self.spec_tables()[i]).spec_id().spec_value() == i,
            forall|i: int, j: int|
                0 <= i < j < self.spec_tables().len() ==> #[trigger] self.spec_tables()[i].spec_id().spec_value()
                    < #[trigger] self.spec_tables()[j].spec_id().spec_value(),
    {
        self.lemma_wf();
    }

    /// One call of `create_table` as its contract describes it: refused,
    /// leaving the tables as they were, or appending one table whose
    /// identifier is the number of tables before it.
    pub open spec fn spec_creation_step(before: Database, after: Database) -> bool {
        let n = before.spec_tables().len();
        ||| after.spec_tables() == before.spec_tables()
        ||| {
            &&& after.spec_tables().len() == n + 1
            &&& after.spec_tables().take(n as int) == before.spec_tables()
            &&& after.spec_tables()[n as int].spec_id().spec_value() == n
        }
    }

    /// Over any sequence of `create_table` calls on a new database, refused
    /// ones included, the table created `j`-th has identifier `j`: identifiers
    /// are distinct, follow creation order, and a refused call uses none.
    pub proof fn lemma_creation_sequence(states: Seq<Database>, k: int)
        requires
            0 <= k < states.len(),
            states[0].spec_tables().len() == 0,
            forall|i: int| 0 <= i < states.len() - 1 ==> #[trigger] Self::spec_creation_step(states[i], states[i + 1]),
        ensures
            forall|j: int|
                0 <= j < states[k].spec_tables().len() ==> (#[trigger] states[k].spec_tables()[j]).spec_id().spec_value()
                    == j,
        decreases k,
    {
        if k > 0 {
            Self::lemma_creation_sequence(states, k - 1);
            assert(Self::spec_creation_step(states[k - 1], states[(k - 1) + 1]));
            let before = states[k - 1].spec_tables();
            let after = states[k].spec_tables();
            assert forall|j: int| 0 <= j < after.len() implies (#[trigger] after[j]).spec_id().spec_value() == j by {
                if after != before && j < before.len() {
                    assert(after.take(before.len() as int)[j] == after[j]);
                }
            }
        }
    }

    pub fn new() -> (database: Self)
        ensures
            database.wf(),
            database.spec_tables() == Seq::<DatabaseTable>::empty(),
    {
        Self { tables: Vec::new(), table_id_next: TableId::new(0) }
    }

    /// Position of the table named `name`.
    fn find(&self, name: &String) -> (index: Option<usize>)
        requires
            self.wf(),
        ensures
            match self.spec_find(name@) {
                None => index is None,
                Some(i) => index == Some(i as usize),
            },
    {
        let mut i: usize = 0;
        while i < self.tables.len()
            invariant
                self.wf(),
                0 <= i <= self.tables@.len(),
                forall|j: int| 0 <= j < i ==> #[trigger] self.tables@[j].spec_name() != name@,
            decreases self.tables.len() - i,
        {
            let candidate = string_of(self.tables[i].name());
            if candidate == *name {
                proof {
                    self.lemma_wf();
                    assert(self.spec_tables()[i as int].spec_name() == name@);
                }
                return Some(i);
            }
            i = i + 1;
        }
        None
    }

    /// Create a new table with the given field definitions.
    pub fn create_table(&mut self, table_name: &str, fields: &[FieldDefinition<'_>]) -> (result: Result<(), Error>)
        requires
            old(self).wf(),
            table_name@.len() > 0,
            fields@.len() > 0,
            fields@.len() <= usize::MAX / 8,
            old(self).spec_tables().len() < u32::MAX,
            old(self).spec_find(table_name@) is None ==> forall|i: int|
                0 <= i < fields@.len() && (spec_first_unknown_type(fields@.take(i)) is None) ==> (#[trigger] fields@[i]).data_type_name@.len() > 0,
        ensures
            final(self).wf(),
            old(self).spec_find(table_name@) is Some ==> {
                &&& result matches Err(Error::TableAlreadyExists { table_name: name }) && name@ == table_name@
                &&& final(self).spec_tables() == old(self).spec_tables()
            },
            old(self).spec_find(table_name@) is None && spec_first_unknown_type(fields@) is Some ==> {
                &&& result matches Err(Error::UnknownDataType { data_type_name: name })
                    && name@ == fields@[spec_first_unknown_type(fields@).unwrap()].data_type_name@
                &&& final(self).spec_tables() == old(self).spec_tables()
            },
            old(self).spec_find(table_name@) is None && spec_first_unknown_type(fields@) is None ==> {
                let n = old(self).spec_tables().len();
                let table = final(self).spec_tables()[n as int];
                &&& result is Ok
                &&& final(self).spec_tables().len() == n + 1
                &&& final(self).spec_tables().take(n as int) == old(self).spec_tables()
                &&& table.spec_id().spec_value() == n
                &&& table.spec_name() == table_name@
                &&& table.spec_field_names().map_values(|s: String| s@) == spec_field_names(fields@)
                &&& table.spec_data_types() == spec_field_types(fields@)
                &&& table.spec_row_groups().len() == 1
                &&& table.spec_row_groups()[0].spec_row_count() == 0
            },
    {
        let name = string_of(table_name);
        if self.find(&name).is_some() {
            return Err(Error::TableAlreadyExists { table_name: name });
        }
        let n = fields.len();
        let mut field_names: Vec<String> = Vec::new();
        let mut data_types: Vec<DataTypeKind> = Vec::new();
        let mut i: usize = 0;
        while i < n
            invariant
                self.wf(),
                self.spec_tables() == old(self).spec_tables(),
                old(self).spec_find(table_name@) is None,
                n == fields@.len(),
                0 <= i <= n,
                spec_first_unknown_type(fields@.take(i as int)) is None,
                forall|k: int|
                    0 <= k < fields@.len() && (spec_first_unknown_type(fields@.take(k)) is None) ==> (#[trigger] fields@[k]).data_type_name@.len() > 0,
                field_names@.map_values(|s: String| s@) == spec_field_names(fields@.take(i as int)),
                data_types@ == spec_field_types(fields@.take(i as int)),
            decreases n - i,
        {
            let field = &fields[i];
            proof {
                assert(fields@.take(i + 1).drop_last() =~= fields@.take(i as int));
            }
            match DataTypeKind::parse(field.data_type_name) {
                Ok(kind) => {
                    let ghost names_before = field_names@;
                    let field_name = string_of(field.name);
                    field_names.push(field_name);
                    data_types.push(kind);
                    proof {
                        assert(field_names@ =~= names_before.push(field_name));
                        assert(field_names@.map_values(|s: String| s@) =~= names_before.map_values(|s: String| s@).push(field_name@));
                        assert(spec_field_names(fields@.take(i + 1)) =~= spec_field_names(fields@.take(i as int)).push(fields@[i as int].name@));
                        assert(field_names@.map_values(|s: String| s@) =~= spec_field_names(fields@.take(i + 1)));
                        assert(data_types@ =~= spec_field_types(fields@.take(i + 1)));
                    }
                },
                Err(error) => {
                    proof {
                        lemma_first_unknown_prefix(fields@, (i + 1) as int);
                    }
                    return Err(error);
                },
            }
            i = i + 1;
        }
        assert(fields@.take(n as int) =~= fields@);
        let table = DatabaseTable::new(self.table_id_next, name, field_names, data_types);
        self.tables.push(table);
        self.table_id_next = self.table_id_next.next();
        proof {
            assert(self.tables@.take(self.tables@.len() - 1) =~= old(self).tables@);
        }
        Ok(())
    }
}

impl Database {
    /// Insert tightly-packed row bytes into a named table.
    pub fn insert(&mut self, table_name: &str, bytes: &[u8]) -> (result: Result<(), Error>)
        requires
            old(self).wf(),
            table_name@.len() > 0,
            bytes@.len() > 0,
            old(self).spec_find(table_name@) matches Some(i) ==> spec_insert_fits(
                old(self).spec_tables()[i],
                bytes@,
            ),
        ensures
            final(self).wf(),
            final(self).spec_tables().len() == old(self).spec_tables().len(),
            match old(self).spec_find(table_name@) {
                None => {
                    &&& result matches Err(Error::TableNotFound { table_name: name }) && name@ == table_name@
                    &&& final(self).spec_tables() == old(self).spec_tables()
                },
                Some(i) => {
                    &&& spec_inserted(old(self).spec_tables()[i], final(self).spec_tables()[i], bytes@, result)
                    &&& forall|j: int| 0 <= j < old(self).spec_tables().len() && j != i ==> #[trigger] final(self).spec_tables()[j] == old(self).spec_tables()[j]
                },
            },
    {
        let name = string_of(table_name);
        match self.find(&name) {
            None => Err(Error::TableNotFound { table_name: name }),
            Some(index) => {
                proof {
                    self.lemma_wf();
                }
                let result = self.tables[index].insert(bytes);
                proof {
                    assert forall|i: int| 0 <= i < self.tables@.len() implies (#[trigger] self.tables@[i]).wf() by {
                        if i == index as int {
                        } else {
                            assert(self.tables@[i] == old(self).tables@[i]);
                        }
                    }
                    assert forall|i: int| 0 <= i < self.tables@.len() implies (#[trigger] self.tables@[i]).spec_id().spec_value() == i by {
                        if i != index as int {
                            assert(self.tables@[i] == old(self).tables@[i]);
                        }
                    }
                    assert forall|i: int, j: int|
                        0 <= i < self.tables@.len() && 0 <= j < self.tables@.len() && i != j implies #[trigger] self.tables@[i].spec_name()
                            != #[trigger] self.tables@[j].spec_name() by {
                        assert(self.tables@[i].spec_name() == old(self).tables@[i].spec_name());
                        assert(self.tables@[j].spec_name() == old(self).tables@[j].spec_name());
                    }
                }
                result
            },
        }
    }

    /// Return a formatted text representation of all rows in a table.
    ///
    /// Floating-point values are rendered by `format_float`.
    pub fn query_all<F: Fn(DataTypeKind, &[u8]) -> String>(
        &self,
        table_name: &str,
        format_float: F,
    ) -> (result: Result<OutputTable, Error>)
        requires
            self.wf(),
            table_name@.len() > 0,
            spec_float_formatter(format_float),
        ensures
            match self.spec_find(table_name@) {
                None => result matches Err(Error::TableNotFound { table_name: name }) && name@ == table_name@,
                Some(i) => result matches Ok(output) && spec_formatted(self.spec_tables()[i], format_float, output),
            },
    {
        let name = string_of(table_name);
        match self.find(&name) {
            None => Err(Error::TableNotFound { table_name: name }),
            Some(index) => {
                proof {
                    self.lemma_wf();
                }
                Ok(OutputTable::from_table(&self.tables[index], format_float))
            },
        }
    }
}

/// The first unknown type of a prefix that has one is the first unknown type
/// of the whole sequence.
pub proof fn lemma_first_unknown_prefix(fields: Seq<FieldDefinition>, count: int)
    requires
        0 <= count <= fields.len(),
        spec_first_unknown_type(fields.take(count)) is Some,
    ensures
        spec_first_unknown_type(fields) == spec_first_unknown_type(fields.take(count)),
    decreases fields.len() - count,
{
    if count < fields.len() {
        assert(fields.take(count + 1).drop_last() =~= fields.take(count));
        lemma_first_unknown_prefix(fields, count + 1);
    } else {
        assert(fields.take(count) =~= fields);
    }
}

} // verus!
