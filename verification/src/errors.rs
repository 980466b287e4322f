//! Failure values of the scheduler.
//!
//! Every recoverable outcome is a value, never a panic: a pop from an empty
//! buffer, a steal that found nothing (or, on a live pool, lost its race), a
//! push onto a full buffer — which hands the rejected job back so the caller
//! can run it inline — and a wait that outran its deadline.

use vstd::prelude::*;

verus! {

/// A local pop found the buffer empty.
#[derive(Clone, Copy, PartialEq, Eq, Structural, Debug)]
pub struct IsEmpty;

/// A steal found the victim buffer empty, or lost the race for its oldest
/// slot to another thief.
#[derive(Clone, Copy, PartialEq, Eq, Structural, Debug)]
pub struct BlockedOrEmpty;

/// A push found the buffer at capacity.  The rejected job is handed back
/// unchanged so that no submission is ever silently dropped: the caller must
/// invoke it inline instead of queuing it.
pub struct BlockedOrFull<J> {
    pub not_pushed: J,
}

/// A cooperative wait exceeded the deadline its caller gave.
#[derive(Clone, Copy, PartialEq, Eq, Structural, Debug)]
pub struct Timeout;

} // verus!
