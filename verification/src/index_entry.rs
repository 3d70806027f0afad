//! The records of a published index: entries, their types, and both together.

use vstd::prelude::*;

verus! {

/// One entry as it is published: a name, a path and a type.
#[derive(Debug, Clone, PartialEq, Eq, Hash)]
pub struct IndexEntry {
    pub name: String,
    pub path: String,
    pub entry_type: String,
}

/// One entry type as it is published: its name, how many entries have it,
/// and its slug.
#[derive(Debug, Clone, PartialEq, Eq)]
pub struct IndexType {
    pub name: String,
    pub count: usize,
    pub slug: String,
}

/// A published index: its entries and its types.
#[derive(Debug, Clone)]
pub struct FullIndex {
    pub entries: Vec<IndexEntry>,
    pub types: Vec<IndexType>,
}

} // verus!
