//! The row store.

use std::sync::{Arc, Mutex};
use vstd::prelude::*;
use crate::sync::{new_lock, share};

verus! {

/// An append-only collection of rows, each behind a lock of its own, so
/// that a writer of one row never blocks a reader of another.
///
/// The storage does not look into a row: `R` is whatever a row holds, a
/// `MemoryPage` with the row's encoded fields where rows are kept encoded.
/// Rows are never removed, replaced or reordered.
#[derive(Debug)]
#[verifier::reject_recursive_types(R)]
pub struct Storage<R> {
    root: Vec<Arc<Mutex<R>>>,
}

impl<R> View for Storage<R> {
    type V = Seq<Arc<Mutex<R>>>;

    /// The handles of the rows, in the order in which they were inserted.
    closed spec fn view(&self) -> Seq<Arc<Mutex<R>>> {
        self.root@
    }
}

impl<R> Storage<R> {
    /// Create new Storage
    pub fn new() -> (storage: Self)
        ensures
            storage@ == Seq::<Arc<Mutex<R>>>::empty(),
    {
        Storage { root: Vec::new() }
    }

    /// Appends a row, behind a new lock, and returns the handle to it. The
    /// rows that were there stay as they are.
    pub fn insert(&mut self, row: R) -> (handle: Arc<Mutex<R>>)
        ensures
            final(self)@ == old(self)@.push(handle),
    {
        let slot = Arc::new(new_lock(row));
        let handle = share(&slot);
        self.root.push(slot);
        handle
    }

    /// The number of rows.
    pub fn len(&self) -> (len: usize)
        ensures
            len == self@.len(),
    {
        self.root.len()
    }

    /// The handle to the row at the given index, counted from 0 in the
    /// order of insertion, or nothing where there are no more rows than
    /// that.
    pub fn get(&self, row: usize) -> (handle: Option<&Arc<Mutex<R>>>)
        ensures
            row < self@.len() ==> handle == Some(&self@[row as int]),
            row >= self@.len() ==> handle is None,
    {
        if row < self.root.len() {
            Some(&self.root[row])
        } else {
            None
        }
    }
}

} // verus!
