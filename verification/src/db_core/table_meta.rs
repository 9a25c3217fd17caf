//! Name and identifier of a table.
use vstd::prelude::*;

verus! {

#[derive(Debug)]
pub struct TableMeta {
    name: String,
    id: u32,
}

impl TableMeta {
    pub closed spec fn spec_name(&self) -> Seq<char> {
        self.name@
    }

    pub closed spec fn spec_id(&self) -> u32 {
        self.id
    }

    pub fn new(name: String, id: u32) -> (meta: Self)
        ensures
            meta.spec_name() == name@,
            meta.spec_id() == id,
    {
        Self { name, id }
    }

    pub fn name(&self) -> (name: &str)
        ensures
            name@ == self.spec_name(),
    {
        self.name.as_str()
    }

    pub fn id(&self) -> (id: u32)
        ensures
            id == self.spec_id(),
    {
        self.id
    }
}

} // verus!
