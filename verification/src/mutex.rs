//! A model of a try-lockable mutex for the cooperative lock.
//!
//! The cooperative lock never blocks the OS thread on contention: it tries a
//! non-blocking acquisition and, when that fails, runs a pending job before
//! retrying.  What the scheduler needs of a mutex is exactly a try-lock, an
//! unlock, and access to the protected value while held; `CoopMutex` states
//! that discipline so the lock policy over it can be verified.  On a live
//! pool the same calls land on an OS mutex's try-lock.

use vstd::prelude::*;

verus! {

/// A protected value with an explicit held/free state.  Access to the value
/// is only granted while the mutex is held.
pub struct CoopMutex<T> {
    held: bool,
    value: T,
}

impl<T> CoopMutex<T> {
    /// Whether the mutex is currently held.
    pub closed spec fn is_held(self) -> bool {
        self.held
    }

    /// The protected value.
    pub closed spec fn value_spec(self) -> T {
        self.value
    }

    /// A new, free mutex protecting `value`.
    pub fn new(value: T) -> (mutex: Self)
        ensures
            !mutex.is_held(),
            mutex.value_spec() == value,
    {
        CoopMutex { held: false, value }
    }

    /// Non-blocking acquisition: succeeds exactly when the mutex is free.
    pub fn try_lock(&mut self) -> (acquired: bool)
        ensures
            acquired == !old(self).is_held(),
            final(self).is_held(),
            final(self).value_spec() == old(self).value_spec(),
    {
        if self.held {
            false
        } else {
            self.held = true;
            true
        }
    }

    /// Releases a held mutex.
    pub fn unlock(&mut self)
        requires
            old(self).is_held(),
        ensures
            !final(self).is_held(),
            final(self).value_spec() == old(self).value_spec(),
    {
        self.held = false;
    }

    /// Reads the protected value; only the holder may.
    pub fn value(&self) -> (value: &T)
        requires
            self.is_held(),
        ensures
            value == self.value_spec(),
    {
        &self.value
    }

    /// Replaces the protected value; only the holder may.
    pub fn set_value(&mut self, value: T)
        requires
            old(self).is_held(),
        ensures
            final(self).is_held(),
            final(self).value_spec() == value,
    {
        self.value = value;
    }
}

} // verus!
