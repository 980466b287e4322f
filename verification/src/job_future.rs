//! The deferred-result cell behind a job future.
//!
//! A submission returns a future; the submitted closure carries the setter
//! half and writes its result into the shared cell exactly once.  The cell
//! walks a three-state machine — `Pending`, then `Ready(value)`, then
//! `Taken` — with exactly one write and exactly one terminal read.  The
//! transitions and the cooperative-wait decision are verified here; the
//! sharing of one cell between the writing job and the reading waiter is
//! thread plumbing that stays outside the library and calls into these
//! transitions under its lock.

use vstd::prelude::*;

verus! {

use crate::errors::Timeout;

/// The state of a deferred result: not yet written, written and unread, or
/// consumed.
pub enum FutureState<T> {
    /// The closure has not completed yet.
    Pending,
    /// The closure completed with this value, which nobody has taken yet.
    Ready(T),
    /// The value was taken; reading again is a usage error.
    Taken,
}

/// What one round of a cooperative wait decided.
pub enum WaitStep<T> {
    /// The value arrived; the cell is now consumed.
    Finished(T),
    /// The deadline passed before the value arrived.
    Expired(Timeout),
    /// Nothing arrived yet and time remains: the waiter should run a pending
    /// job instead of blocking, then poll again.
    HelpOut,
}

impl<T> FutureState<T> {
    /// A fresh cell, awaiting its single write.
    pub fn new() -> (cell: Self)
        ensures
            cell is Pending,
    {
        FutureState::Pending
    }

    /// The single write, performed by the job that owns the setter half.
    pub fn set(&mut self, value: T)
        requires
            *old(self) is Pending,
        ensures
            *final(self) == FutureState::Ready(value),
    {
        *self = FutureState::Ready(value);
    }

    /// The terminal read: consumes a ready value, reports `None` while the
    /// write is still outstanding.
    pub fn take(&mut self) -> (taken: Option<T>)
        requires
            !(*old(self) is Taken),
        ensures
            *old(self) is Pending ==> taken is None && *final(self) is Pending,
            *old(self) matches FutureState::Ready(value) ==> taken == Some(value)
                && *final(self) is Taken,
    {
        let mut current = FutureState::Taken;
        core::mem::swap(self, &mut current);
        match current {
            FutureState::Pending => {
                *self = FutureState::Pending;
                None
            },
            FutureState::Ready(value) => Some(value),
            FutureState::Taken => None,
        }
    }

    /// One round of a cooperative wait: takes the value if it is there,
    /// otherwise decides between giving up (deadline passed) and helping
    /// out with pending jobs.  `elapsed_ms` is how long the caller has been
    /// waiting; `timeout_ms` is the caller's deadline, if any — waiting
    /// expires only once it has gone on *longer* than the deadline.
    pub fn wait_step(&mut self, elapsed_ms: u64, timeout_ms: Option<u64>) -> (step: WaitStep<T>)
        requires
            !(*old(self) is Taken),
        ensures
            *old(self) matches FutureState::Ready(value) ==> step == WaitStep::<T>::Finished(
                value,
            ) && *final(self) is Taken,
            *old(self) is Pending ==> {
                &&& *final(self) is Pending
                &&& (timeout_ms matches Some(limit) && elapsed_ms > limit ==> step == WaitStep::<
                    T,
                >::Expired(Timeout))
                &&& ((match timeout_ms {
                    Some(limit) => elapsed_ms <= limit,
                    None => true,
                }) ==> step == WaitStep::<T>::HelpOut)
            },
    {
        match self.take() {
            Some(value) => WaitStep::Finished(value),
            None => match timeout_ms {
                Some(limit) => if elapsed_ms > limit {
                    WaitStep::Expired(Timeout)
                } else {
                    WaitStep::HelpOut
                },
                None => WaitStep::HelpOut,
            },
        }
    }
}

impl FutureState<()> {
    /// A future that is already complete, for call sites that need a uniform
    /// type without doing work.
    pub fn done() -> (cell: Self)
        ensures
            cell == FutureState::Ready(()),
    {
        FutureState::Ready(())
    }
}

} // verus!
