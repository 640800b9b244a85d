//! Shared ownership and mutual exclusion, as the standard library and the
//! spin crate provide them. Nothing here is proved: each function states
//! what the code it calls documents, and no more.

use vstd::prelude::*;
use std::sync::Arc;
use spin::mutex::{Mutex, MutexGuard};

verus! {

/// spin's `Mutex`: a value behind a spin lock. Proofs see nothing of what
/// it guards.
#[verifier::external_type_specification]
#[verifier::external_body]
#[verifier::reject_recursive_types(T)]
#[verifier::reject_recursive_types(R)]
pub struct ExMutex<T: ?Sized, R>(Mutex<T, R>);

/// spin's `MutexGuard`: the lock held; dropping it releases the lock.
#[verifier::external_type_specification]
#[verifier::external_body]
#[verifier::reject_recursive_types(T)]
pub struct ExMutexGuard<'a, T: 'a + ?Sized>(MutexGuard<'a, T>);

/// spin's `Spin`: the strategy a waiting thread follows, busy waiting.
#[verifier::external_type_specification]
#[verifier::external_body]
pub struct ExSpin(spin::relax::Spin);

/// `Arc::clone` of the standard library: another pointer to the same
/// allocation, so both dereference to the same value.
#[verifier::external_body]
pub(crate) fn share<T>(pointer: &Arc<T>) -> (other: Arc<T>)
    ensures
        other == pointer,
{
    Arc::clone(pointer)
}

/// `Arc::ptr_eq` of the standard library: whether both pointers name the
/// same allocation. Nothing is claimed of the answer.
#[verifier::external_body]
pub(crate) fn same_allocation<T>(a: &Arc<T>, b: &Arc<T>) -> (same: bool) {
    Arc::ptr_eq(a, b)
}

/// `Mutex::new` of spin: a lock around the value. The value it guards is
/// not visible to proofs afterwards.
#[verifier::external_body]
pub(crate) fn new_mutex<T>(value: T) -> (mutex: Mutex<T>) {
    Mutex::new(value)
}

/// `Mutex::lock` of spin: spins until the lock is free and then holds it
/// for as long as the guard lives. It does not return while the calling
/// thread itself holds the lock, so callers never lock one mutex twice.
/// Nothing is claimed of the guarded value: other holders may have changed
/// it.
#[verifier::external_body]
pub(crate) fn lock<T>(mutex: &Mutex<T>) -> (guard: MutexGuard<'_, T>) {
    mutex.lock()
}

/// `DerefMut::deref_mut` of spin's guard: exclusive access to the guarded
/// value while the guard is borrowed.
#[verifier::external_body]
pub(crate) fn guarded<'a, 'b, T>(guard: &'a mut MutexGuard<'b, T>) -> (value: &'a mut T) {
    &mut **guard
}

} // verus!
