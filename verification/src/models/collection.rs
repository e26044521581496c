use vstd::prelude::*;

verus! {

/// A column of a collection, by name, and whether it is the primary key.
pub struct Column {
    pub name: String,
    pub is_primary_key: bool,
}

/// A named collection and its columns.
pub struct Collection {
    pub name: String,
    pub columns: Vec<Column>,
}

} // verus!
