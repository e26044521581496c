//! A document database: an index from document id to collection, in front of
//! a storage layer that keeps the documents of each collection.

use vstd::prelude::*;

pub mod collections;
pub mod database;
pub mod models;
pub mod services;

pub use database::BectorDB;

verus! {

/// Adds two numbers; the sum must fit in a `u64`.
pub fn add(left: u64, right: u64) -> (sum: u64)
    requires
        left + right <= u64::MAX,
    ensures
        sum == left + right,
{
    left + right
}

} // verus!

