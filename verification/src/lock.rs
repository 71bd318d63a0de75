//! The lock that the request loop and the threads that resolve links share the
//! filesystem behind.
use crate::fs::NixFS;
use std::sync::{Arc, Mutex, MutexGuard, PoisonError};
use vstd::prelude::*;

verus! {

/// `std::sync::Mutex`; what it holds is not modelled.
#[verifier::external_type_specification]
#[verifier::external_body]
#[verifier::reject_recursive_types(T)]
pub struct ExMutex<T: ?Sized>(Mutex<T>);

/// `std::sync::MutexGuard`; what it gives access to is not modelled.
#[verifier::external_type_specification]
#[verifier::external_body]
#[verifier::reject_recursive_types(T)]
pub struct ExMutexGuard<'a, T: ?Sized + 'a>(MutexGuard<'a, T>);

/// `std::sync::PoisonError`; what it carries is not modelled.
#[verifier::external_type_specification]
#[verifier::external_body]
#[verifier::reject_recursive_types(T)]
pub struct ExPoisonError<T>(PoisonError<T>);

/// `Mutex::lock`. Whether it gives a guard or one inside an error depends on
/// the other threads; nothing is said of that.
pub assume_specification<'a, T: ?Sized>[ Mutex::<T>::lock ](mutex: &'a Mutex<T>) -> (result: Result<
    MutexGuard<'a, T>,
    PoisonError<MutexGuard<'a, T>>,
>);

/// `PoisonError::into_inner`. What the error carries is not modelled, so that
/// nothing is said of what is taken out.
pub assume_specification<T>[ PoisonError::<T>::into_inner ](error: PoisonError<T>) -> (inner: T);

/// Whether `guard` is what locking `mutex` gave: the guard itself or, if a
/// thread panicked while it held the lock, the one taken out of the error.
pub open spec fn locked<'a, S>(
    mutex: &'a Mutex<NixFS<S>>,
    guard: MutexGuard<'a, NixFS<S>>,
) -> bool {
    ||| call_ensures(Mutex::<NixFS<S>>::lock, (mutex,), Ok(guard))
    ||| exists|error: PoisonError<MutexGuard<'a, NixFS<S>>>|
        call_ensures(Mutex::<NixFS<S>>::lock, (mutex,), Err(error)) && #[trigger] call_ensures(
            PoisonError::<MutexGuard<'a, NixFS<S>>>::into_inner,
            (error,),
            guard,
        )
}

/// Locks the filesystem, also after a thread has panicked while it held the
/// lock. The calling thread must not hold the lock already: it would wait for
/// itself, or panic.
pub fn lock_cache<'a, S>(fs: &'a Arc<Mutex<NixFS<S>>>) -> (guard: MutexGuard<'a, NixFS<S>>)
    ensures
        locked(&**fs, guard),
{
    match fs.lock() {
        Ok(guard) => guard,
        Err(error) => error.into_inner(),
    }
}

} // verus!
