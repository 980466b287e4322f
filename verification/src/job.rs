//! A single-invocation unit of deferred work.
//!
//! A `Job` owns a no-argument closure with no result: side effects only — a
//! value computed by the closure travels separately, through the future cell
//! it captures.  Invoking a job consumes it, so the type itself enforces the
//! at-most-once invariant; the scheduler contracts enforce the other half,
//! that no queued job is dropped un-invoked.

use vstd::prelude::*;

verus! {

/// An owned, single-invocation callable.  The closure's own precondition is
/// carried along as `ready()`, so `invoke` can discharge it.
pub struct Job<F> where F: FnOnce() {
    work: F,
}

impl<F> Job<F> where F: FnOnce() {
    /// The wrapped closure.
    pub closed spec fn work(self) -> F {
        self.work
    }

    /// Whether the wrapped closure may be called.
    pub open spec fn ready(self) -> bool {
        call_requires(self.work(), ())
    }

    /// Wraps a closure as a job.
    pub fn new(work: F) -> (job: Self)
        ensures
            job.work() == work,
    {
        Job { work }
    }

    /// Runs the job, consuming it.  Whatever the closure promises of its
    /// completed call holds afterwards.
    pub fn invoke(self)
        requires
            self.ready(),
        ensures
            call_ensures(self.work(), (), ()),
    {
        let Job { work } = self;
        work()
    }
}

} // verus!
