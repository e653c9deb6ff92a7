//! The two pieces of `std::sync` that the row store and the catalog are
//! built on: locks, which are only created here, and shared handles.

use std::sync::{Arc, Mutex};
use vstd::prelude::*;

verus! {

/// `std::sync::Mutex`. The library creates locks and hands them out; it
/// never takes one, and it states nothing of what a lock holds.
#[verifier::external_type_specification]
#[verifier::external_body]
#[verifier::reject_recursive_types(T)]
pub struct ExMutex<T: ?Sized>(Mutex<T>);

/// `Mutex::new`: a lock of its own around the given value.
#[verifier::external_body]
pub(crate) fn new_lock<T>(value: T) -> Mutex<T> {
    Mutex::new(value)
}

/// `Arc::clone`: one more handle to what the given handle points to.
#[verifier::external_body]
pub(crate) fn share<T>(handle: &Arc<T>) -> (other: Arc<T>)
    ensures
        other == *handle,
{
    Arc::clone(handle)
}

} // verus!
