//! The standard library's synchronisation primitives, as far as the crate
//! uses them. Nothing here is verified: each item says what is taken on trust
//! of the standard library, which is next to nothing, since what a lock
//! guards and what a counter holds is written by other threads.

use std::sync::atomic::AtomicUsize;
use std::sync::atomic::Ordering;
use std::sync::Arc;
use std::sync::Condvar;
use std::sync::Mutex;
use std::sync::MutexGuard;
use vstd::prelude::*;

verus! {

/// `std::sync::Mutex`. What it guards can be read only through a guard.
#[verifier::external_type_specification]
#[verifier::external_body]
#[verifier::reject_recursive_types(T)]
pub struct ExMutex<T: ?Sized>(Mutex<T>);

/// `std::sync::MutexGuard`: a mutex, locked by the holder of the guard.
#[verifier::external_type_specification]
#[verifier::external_body]
#[verifier::reject_recursive_types(T)]
pub struct ExMutexGuard<'a, T: ?Sized + 'a>(MutexGuard<'a, T>);

/// `std::sync::Condvar`.
#[verifier::external_type_specification]
#[verifier::external_body]
pub struct ExCondvar(Condvar);

/// `Mutex::new`. Nothing is claimed of the new mutex.
pub assume_specification<T>[ Mutex::<T>::new ](t: T) -> (m: Mutex<T>);

/// `Condvar::new`. Nothing is claimed of the new condition variable.
pub assume_specification[ Condvar::new ]() -> (c: Condvar);

/// `Condvar::notify_one`. It returns nothing and nothing is claimed of it.
pub assume_specification[ Condvar::notify_one ](c: &Condvar);

/// `Mutex::lock`: waits until the lock is free and takes it. A poisoned lock
/// is taken all the same. Nothing is claimed of what the mutex guards at that
/// moment: other threads wrote it.
///
/// The standard library leaves open what happens to a thread that asks for a
/// lock it already holds. No function of this crate does: each drops its
/// guards before it returns, and none asks twice for the same lock.
#[verifier::external_body]
pub(crate) fn lock<'a, T>(mutex: &'a Mutex<T>) -> (guard: MutexGuard<'a, T>) {
    match mutex.lock() {
        Ok(guard) => guard,
        Err(poisoned) => poisoned.into_inner(),
    }
}

/// `DerefMut::deref_mut` of a `MutexGuard`: the guarded value, for as long as
/// the guard is borrowed. Nothing is claimed of the value found there.
#[verifier::external_body]
pub(crate) fn guarded<'a, 'b, T>(guard: &'a mut MutexGuard<'b, T>) -> (value: &'a mut T) {
    &mut **guard
}

/// `Condvar::notify_all`. It returns nothing; the only claim is that it does
/// not unwind, so that a destructor may call it.
#[verifier::external_body]
pub(crate) fn wake_all(available: &Condvar)
    opens_invariants none
    no_unwind
{
    available.notify_all()
}

/// `Arc::clone`: one more pointer to the same allocation.
#[verifier::external_body]
pub(crate) fn share<T>(shared: &Arc<T>) -> (res: Arc<T>)
    ensures
        res == *shared,
{
    Arc::clone(shared)
}

/// `AtomicUsize::fetch_sub`, which wraps around at zero. Nothing is claimed
/// of the previous value, which other threads wrote; the only claim is that
/// the call does not unwind, so that a destructor may make it.
#[verifier::external_body]
pub(crate) fn fetch_sub_in_drop(count: &AtomicUsize, val: usize, order: Ordering) -> (previous:
    usize)
    opens_invariants none
    no_unwind
{
    count.fetch_sub(val, order)
}

} // verus!
