use crate::table::UrlTable;
use std::sync::{Mutex, MutexGuard};
use vstd::prelude::*;

verus! {

/// `std::sync::Mutex`, made known to the verifier as an opaque type.
#[verifier::external_type_specification]
#[verifier::external_body]
#[verifier::reject_recursive_types(T)]
pub struct ExMutex<T: ?Sized>(Mutex<T>);

/// `std::sync::MutexGuard`, made known to the verifier as an opaque type.
#[verifier::external_type_specification]
#[verifier::external_body]
#[verifier::reject_recursive_types(T)]
pub struct ExMutexGuard<'a, T: ?Sized + 'a>(MutexGuard<'a, T>);

/// Puts `table` behind a new lock with `Mutex::new`.
///
/// Trusted, and nothing is claimed: once a table is behind a lock, any thread
/// that holds the lock may change it, so no contract speaks of what a lock
/// holds.
#[verifier::external_body]
pub(crate) fn guard_table(table: UrlTable) -> (lock: Mutex<UrlTable>) {
    Mutex::new(table)
}

/// Acquires `lock` with `Mutex::lock`, waiting until it is free. Hands back
/// the guard, or nothing where the lock is poisoned.
///
/// Trusted, and nothing is claimed of the outcome. `Mutex::lock` may block
/// for ever or abort when the calling thread already holds the lock; the
/// guard never leaves the function that acquired it, so no caller does.
#[verifier::external_body]
pub(crate) fn lock_table<'a>(lock: &'a Mutex<UrlTable>) -> (guard: Option<
    MutexGuard<'a, UrlTable>,
>) {
    match lock.lock() {
        Ok(guard) => Some(guard),
        Err(_) => None,
    }
}

/// Reaches the table behind a held guard, through the guard's `deref_mut`.
///
/// Trusted, and nothing is claimed of the table's entries: they are whatever
/// the last holder of the lock left. The verifier takes the table to meet
/// its type invariant, as it does of every table: the one behind the lock was
/// built by [`UrlTable::new`] and has been changed by the table's own
/// operations alone, and a poisoned lock hands out no guard.
#[verifier::external_body]
pub(crate) fn table_of<'a, 'b>(guard: &'a mut MutexGuard<'b, UrlTable>) -> (table: &'a mut UrlTable) {
    &mut **guard
}

} // verus!
