//! The last known value of each watched input.

use crate::clock::Timestamp;
use crate::values::Value;
use std::collections::HashMap;
use vstd::prelude::*;

verus! {

/// A value and the moment at which it was recorded.
#[derive(Debug, PartialEq, Eq)]
pub struct DatedData {
    pub updated: Timestamp,
    pub data: Value,
}

/// The cells of one execution, by number. A cell without an entry has not
/// received a measurement yet.
pub struct CellStore {
    cells: HashMap<u64, DatedData>,
}

impl View for CellStore {
    type V = Map<u64, DatedData>;

    closed spec fn view(&self) -> Map<u64, DatedData> {
        self.cells@
    }
}

impl CellStore {
    /// A store in which no cell has a value.
    pub fn new() -> (store: Self)
        ensures
            store@ == Map::<u64, DatedData>::empty(),
    {
        CellStore { cells: HashMap::new() }
    }

    /// The last value written to `cell`, if any.
    pub fn read(&self, cell: u64) -> (found: Option<&DatedData>)
        ensures
            found == (if self@.contains_key(cell) {
                Some(&self@[cell])
            } else {
                None
            }),
    {
        broadcast use vstd::std_specs::hash::group_hash_axioms;

        self.cells.get(&cell)
    }

    /// Replaces the value of `cell`.
    pub fn write(&mut self, cell: u64, data: DatedData)
        ensures
            final(self)@ == old(self)@.insert(cell, data),
    {
        broadcast use vstd::std_specs::hash::group_hash_axioms;

        self.cells.insert(cell, data);
    }
}

} // verus!
