//! Shared ownership and read/write exclusion, as std provides them.

use std::sync::Arc;
use std::sync::RwLock;
use std::sync::RwLockReadGuard;
use std::sync::RwLockWriteGuard;
use vstd::prelude::*;

verus! {

/// The read/write lock of std.
#[verifier::external_type_specification]
#[verifier::external_body]
#[verifier::reject_recursive_types(T)]
pub struct ExRwLock<T: ?Sized>(RwLock<T>);

/// Shared access to what a lock guards.
#[verifier::external_type_specification]
#[verifier::external_body]
#[verifier::reject_recursive_types(T)]
pub struct ExRwLockReadGuard<'a, T: ?Sized>(RwLockReadGuard<'a, T>);

/// Exclusive access to what a lock guards.
#[verifier::external_type_specification]
#[verifier::external_body]
#[verifier::reject_recursive_types(T)]
pub struct ExRwLockWriteGuard<'a, T: ?Sized + 'a>(RwLockWriteGuard<'a, T>);

/// Another pointer to the same shared value.
///
/// Trusted: `Arc::clone` of std, which gives a pointer to the same value.
#[verifier::external_body]
pub(crate) fn share<T>(shared: &Arc<T>) -> (other: Arc<T>)
    ensures
        *other == **shared,
{
    Arc::clone(shared)
}

/// A lock that guards `value`.
///
/// Trusted: `RwLock::new` of std. Nothing is stated of the lock: what it
/// guards is seen only through a guard.
#[verifier::external_body]
pub(crate) fn new_lock<T>(value: T) -> (lock: RwLock<T>) {
    RwLock::new(value)
}

/// Waits for shared access; `None` where the lock is poisoned.
///
/// Trusted: `RwLock::read` of std, which fails only on a poisoned lock.
/// Whether it is poisoned depends on what other holders did. A thread that
/// holds exclusive access itself must give it up first.
#[verifier::external_body]
pub(crate) fn lock_read<'a, T>(lock: &'a RwLock<T>) -> (guard: Option<RwLockReadGuard<'a, T>>) {
    lock.read().ok()
}

/// Waits for exclusive access; `None` where the lock is poisoned.
///
/// Trusted: `RwLock::write` of std, which fails only on a poisoned lock.
/// Whether it is poisoned depends on what other holders did. A thread that
/// holds access itself must give it up first.
#[verifier::external_body]
pub(crate) fn lock_write<'a, T>(lock: &'a RwLock<T>) -> (guard: Option<RwLockWriteGuard<'a, T>>) {
    lock.write().ok()
}

/// What the guard gives shared access to.
///
/// Trusted: `Deref` of `RwLockReadGuard`. The value is whatever the last
/// writer left.
#[verifier::external_body]
pub(crate) fn guarded<'a, 'g, T>(guard: &'a RwLockReadGuard<'g, T>) -> (value: &'a T) {
    guard
}

/// What the guard gives exclusive access to.
///
/// Trusted: `DerefMut` of `RwLockWriteGuard`. The value is whatever the last
/// writer left.
#[verifier::external_body]
pub(crate) fn guarded_mut<'a, 'g, T>(guard: &'a mut RwLockWriteGuard<'g, T>) -> (value: &'a mut T) {
    guard
}

} // verus!
