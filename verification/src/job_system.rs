//! The thread-pool scheduler: per-worker buffers, the dispatch policy, the
//! lifecycle, and the cooperative lock.
//!
//! A pool of `threads` workers shares one `JobSystem`: one `JobBuffer` per
//! worker plus a shutdown flag.  Every scheduling step is a function of that
//! state and the calling worker's context — submit pushes onto the caller's
//! own buffer (running the job inline when the buffer is full), dispatch
//! pops locally first and steals from peers in a fixed rotation otherwise,
//! shutdown drains every buffer to completion.  Worker identity is passed
//! explicitly as a `WorkerThreadContext` rather than kept in thread-local
//! storage, so each step is an ordinary call against this state; the OS
//! threads that drive those calls concurrently, each serializing access to
//! the shared state, live outside the library.

use vstd::prelude::*;

verus! {

use crate::errors::{BlockedOrEmpty, BlockedOrFull, IsEmpty};
use crate::job_buffer::JobBuffer;
use crate::mutex::CoopMutex;

/// The shared state of the pool: one buffer per worker and the shutdown
/// flag.
pub struct JobSystem<J> {
    buffers: Vec<JobBuffer<J>>,
    done: bool,
}

/// A worker's identity: the index of the buffer it owns.  Peers are every
/// other index, visited in a fixed rotation when stealing.
pub struct WorkerThreadContext {
    index: usize,
}

/// Owner of a running pool, returned by `init`.  Shutting it down drains
/// every queued job before the pool is gone.
pub struct JobSystemGuard<J> {
    pub system: JobSystem<J>,
}

/// Outcome of a submission: queued for the pool, or handed back for an
/// immediate inline invocation because the caller's buffer was full.
pub enum Submitted<J> {
    /// The job sits in the caller's buffer.
    Queued,
    /// The buffer was full: the caller must invoke this job now, so that a
    /// saturated pool still makes progress and no job is lost.
    RunInline(J),
}

/// Outcome of one dispatch step: a job to invoke, or nothing anywhere — the
/// caller should yield the OS thread.
pub enum Dispatch<J> {
    /// Invoke this job.
    Run(J),
    /// Every buffer was empty (or being contended): back off cooperatively.
    Yield,
}

/// Outcome of one round of cooperative lock acquisition.
pub enum LockStep<J> {
    /// The mutex was free and is now held by the caller.
    Acquired,
    /// The mutex was held, so the caller ran this pending job instead of
    /// blocking; it should retry after.
    Helped(J),
    /// The mutex was held and no work was pending anywhere: the caller
    /// should yield the OS thread before retrying.
    Starved,
}

impl WorkerThreadContext {
    /// The worker index this context binds.
    pub closed spec fn index_spec(self) -> int {
        self.index as int
    }

    /// Whether this context names a worker of `system`.
    pub open spec fn binds<J>(self, system: JobSystem<J>) -> bool {
        self.index_spec() < system.worker_count()
    }
}

impl<J> JobSystem<J> {
    /// Number of workers, fixed at `init`.
    pub closed spec fn worker_count(self) -> nat {
        self.buffers@.len()
    }

    /// The queued jobs of every worker, oldest first in each queue.
    pub closed spec fn queues(self) -> Seq<Seq<J>> {
        Seq::new(self.buffers@.len(), |i: int| self.buffers@[i].view())
    }

    /// Capacity of worker `i`'s buffer.
    pub closed spec fn cap_of(self, i: int) -> nat {
        self.buffers@[i].cap()
    }

    /// Whether shutdown has been requested.
    pub closed spec fn is_done(self) -> bool {
        self.done
    }

    /// At least one worker, every buffer well formed.
    pub closed spec fn well_formed(self) -> bool {
        &&& self.buffers@.len() >= 1
        &&& forall|i: int|
            0 <= i < self.buffers@.len() ==> (#[trigger] self.buffers@[i]).well_formed()
    }
}

/// The pool view holds exactly one queue per worker.
pub broadcast proof fn lemma_one_queue_per_worker<J>(system: JobSystem<J>)
    ensures
        #[trigger] system.queues().len() == system.worker_count(),
{
}

/// The pool's shape — worker count and buffer capacities — which no
/// scheduling step ever changes.
pub open spec fn same_shape<J>(before: JobSystem<J>, after: JobSystem<J>) -> bool {
    &&& after.worker_count() == before.worker_count()
    &&& forall|i: int|
        0 <= i < before.worker_count() ==> #[trigger] after.cap_of(i) == before.cap_of(i)
}

/// The steal rotation: the first index at or after `i`, other than `me`,
/// whose queue is non-empty.
pub open spec fn first_victim_from<J>(queues: Seq<Seq<J>>, me: int, i: int) -> Option<int>
    decreases queues.len() - i,
{
    if i < 0 || i >= queues.len() {
        None
    } else if i != me && queues[i].len() > 0 {
        Some(i)
    } else {
        first_victim_from(queues, me, i + 1)
    }
}

/// The buffer a steal by worker `me` takes from: the first non-empty peer in
/// the rotation.
pub open spec fn first_victim<J>(queues: Seq<Seq<J>>, me: int) -> Option<int> {
    first_victim_from(queues, me, 0)
}

/// Builds the pool: `threads` workers, each with its own buffer of
/// `buffer_capacity` slots, nothing queued, shutdown not requested.  The
/// caller becomes worker 0; further contexts come from
/// `setup_worker_thread`.
pub fn init<J>(buffer_capacity: usize, threads: usize) -> (guard: JobSystemGuard<J>)
    requires
        1 <= threads,
    ensures
        guard.system.well_formed(),
        guard.system.worker_count() == threads,
        !guard.system.is_done(),
        forall|i: int| 0 <= i < threads ==> #[trigger] guard.system.cap_of(i) == buffer_capacity,
        forall|i: int| 0 <= i < threads ==> #[trigger] guard.system.queues()[i].len() == 0,
{
    let mut buffers: Vec<JobBuffer<J>> = Vec::new();
    let mut i: usize = 0;
    while i < threads
        invariant
            i <= threads,
            buffers.len() == i,
            forall|k: int| 0 <= k < i ==> (#[trigger] buffers@[k]).well_formed(),
            forall|k: int| 0 <= k < i ==> (#[trigger] buffers@[k]).cap() == buffer_capacity,
            forall|k: int| 0 <= k < i ==> (#[trigger] buffers@[k]).view().len() == 0,
        decreases threads - i,
    {
        buffers.push(JobBuffer::new(buffer_capacity));
        i = i + 1;
    }
    JobSystemGuard { system: JobSystem { buffers, done: false } }
}

/// Binds a worker identity.  On a live pool this runs once on each spawned
/// thread (and on the thread that called `init`, as worker 0) before it
/// enters its dispatch loop.
pub fn setup_worker_thread(index: usize, threads: usize) -> (ctx: WorkerThreadContext)
    requires
        index < threads,
    ensures
        ctx.index_spec() == index,
{
    WorkerThreadContext { index }
}

/// The bound index of a worker context, or `None` for a caller that is not
/// a worker — callers must check before using the index.
pub fn thread_index(ctx: Option<&WorkerThreadContext>) -> (index: Option<usize>)
    ensures
        match ctx {
            Some(c) => index == Some(c.index_spec() as usize),
            None => index is None,
        },
{
    match ctx {
        Some(c) => Some(c.index),
        None => None,
    }
}

/// Marks the pool as shutting down.  Queued jobs stay queued: each worker
/// drains its own buffer to completion before exiting.
pub fn request_shutdown<J>(system: &mut JobSystem<J>)
    ensures
        final(system).is_done(),
        final(system).well_formed() == old(system).well_formed(),
        final(system).queues() == old(system).queues(),
        same_shape(*old(system), *final(system)),
{
    system.done = true;
}

/// Whether shutdown has been requested; a worker's dispatch loop exits (after
/// draining its buffer) once this reports true.
pub fn shutdown_requested<J>(system: &JobSystem<J>) -> (done: bool)
    ensures
        done == system.is_done(),
{
    system.done
}

/// Submits a job from worker `ctx`: pushes it onto the caller's own buffer,
/// newest end.  When the buffer is full the job comes back as `RunInline`
/// and the caller invokes it immediately — a submission is never lost.
pub fn submit<J>(system: &mut JobSystem<J>, ctx: &WorkerThreadContext, job: J) -> (submitted:
    Submitted<J>)
    requires
        old(system).well_formed(),
        ctx.binds(*old(system)),
    ensures
        final(system).well_formed(),
        final(system).is_done() == old(system).is_done(),
        same_shape(*old(system), *final(system)),
        old(system).queues()[ctx.index_spec()].len() < old(system).cap_of(ctx.index_spec()) ==> {
            &&& submitted is Queued
            &&& final(system).queues() == old(system).queues().update(
                ctx.index_spec(),
                old(system).queues()[ctx.index_spec()].push(job),
            )
        },
        old(system).queues()[ctx.index_spec()].len() == old(system).cap_of(ctx.index_spec()) ==> {
            &&& submitted matches Submitted::RunInline(inline) && inline == job
            &&& final(system).queues() == old(system).queues()
        },
{
    let me = ctx.index;
    let result = system.buffers[me].push(job);
    proof {
        lemma_queues_track_buffers(*old(system), *system, me as int);
    }
    match result {
        Ok(()) => Submitted::Queued,
        Err(BlockedOrFull { not_pushed }) => Submitted::RunInline(not_pushed),
    }
}

/// Local pop for worker `ctx`: removes the newest job of its own buffer
/// (LIFO), or reports emptiness so the caller can go stealing.
pub fn pop_job<J>(system: &mut JobSystem<J>, ctx: &WorkerThreadContext) -> (result: Result<
    J,
    IsEmpty,
>)
    requires
        old(system).well_formed(),
        ctx.binds(*old(system)),
    ensures
        final(system).well_formed(),
        final(system).is_done() == old(system).is_done(),
        same_shape(*old(system), *final(system)),
        old(system).queues()[ctx.index_spec()].len() == 0 ==> {
            &&& result is Err
            &&& final(system).queues() == old(system).queues()
        },
        old(system).queues()[ctx.index_spec()].len() > 0 ==> {
            &&& result matches Ok(job) && job == old(system).queues()[ctx.index_spec()].last()
            &&& final(system).queues() == old(system).queues().update(
                ctx.index_spec(),
                old(system).queues()[ctx.index_spec()].drop_last(),
            )
        },
{
    let me = ctx.index;
    let result = system.buffers[me].wait_and_pop();
    proof {
        lemma_queues_track_buffers(*old(system), *system, me as int);
    }
    result
}

/// Steal for worker `ctx`: walks every peer in a fixed rotation and takes
/// the oldest job of the first non-empty one (FIFO).  Reports
/// `BlockedOrEmpty` only when the whole rotation yielded nothing.
pub fn steal_job<J>(system: &mut JobSystem<J>, ctx: &WorkerThreadContext) -> (result: Result<
    J,
    BlockedOrEmpty,
>)
    requires
        old(system).well_formed(),
        ctx.binds(*old(system)),
    ensures
        final(system).well_formed(),
        final(system).is_done() == old(system).is_done(),
        same_shape(*old(system), *final(system)),
        first_victim(old(system).queues(), ctx.index_spec()) is None ==> {
            &&& result is Err
            &&& final(system).queues() == old(system).queues()
        },
        first_victim(old(system).queues(), ctx.index_spec()) matches Some(victim) ==> {
            &&& result matches Ok(job) && job == old(system).queues()[victim].first()
            &&& final(system).queues() == old(system).queues().update(
                victim,
                old(system).queues()[victim].drop_first(),
            )
        },
{
    let ghost qs = old(system).queues();
    let ghost me_spec = ctx.index_spec();
    let me = ctx.index;
    let n = system.buffers.len();
    let mut i: usize = 0;
    while i < n
        invariant
            system.well_formed(),
            system.is_done() == old(system).is_done(),
            same_shape(*old(system), *system),
            system.queues() == qs,
            qs == old(system).queues(),
            qs.len() == n,
            me_spec == ctx.index_spec(),
            me as int == me_spec,
            n == system.worker_count(),
            i <= n,
            first_victim(qs, me_spec) == first_victim_from(qs, me_spec, i as int),
        decreases n - i,
    {
        if i != me {
            let ghost before = *system;
            let stolen = system.buffers[i].steal();
            proof {
                lemma_queues_track_buffers(before, *system, i as int);
                assert(before.queues() == qs);
                assert(before.queues()[i as int] == before.buffers@[i as int].view());
            }
            match stolen {
                Ok(job) => {
                    proof {
                        assert(qs[i as int].len() > 0);
                        assert(first_victim_from(qs, me_spec, i as int) == Some(i as int));
                    }
                    return Ok(job);
                },
                Err(BlockedOrEmpty) => {
                    proof {
                        assert(qs[i as int].len() == 0);
                        assert(system.queues() =~= qs);
                        assert(first_victim_from(qs, me_spec, i as int) == first_victim_from(
                            qs,
                            me_spec,
                            i as int + 1,
                        ));
                    }
                },
            }
        } else {
            proof {
                assert(first_victim_from(qs, me_spec, i as int) == first_victim_from(
                    qs,
                    me_spec,
                    i as int + 1,
                ));
            }
        }
        i = i + 1;
    }
    proof {
        assert(first_victim_from(qs, me_spec, n as int) is None);
    }
    Err(BlockedOrEmpty)
}

/// One dispatch step of the worker loop: pop the own buffer; when that is
/// empty, steal from the peers in rotation; when the whole pool has nothing,
/// report `Yield` so the caller backs off cooperatively instead of spinning.
pub fn run_pending_job<J>(system: &mut JobSystem<J>, ctx: &WorkerThreadContext) -> (dispatch:
    Dispatch<J>)
    requires
        old(system).well_formed(),
        ctx.binds(*old(system)),
    ensures
        final(system).well_formed(),
        final(system).is_done() == old(system).is_done(),
        same_shape(*old(system), *final(system)),
        old(system).queues()[ctx.index_spec()].len() > 0 ==> {
            &&& dispatch matches Dispatch::Run(job) && job == old(system).queues()[
                ctx.index_spec()].last()
            &&& final(system).queues() == old(system).queues().update(
                ctx.index_spec(),
                old(system).queues()[ctx.index_spec()].drop_last(),
            )
        },
        old(system).queues()[ctx.index_spec()].len() == 0 ==> (first_victim(
            old(system).queues(),
            ctx.index_spec(),
        ) matches Some(victim) ==> {
            &&& dispatch matches Dispatch::Run(job) && job == old(system).queues()[victim].first()
            &&& final(system).queues() == old(system).queues().update(
                victim,
                old(system).queues()[victim].drop_first(),
            )
        }),
        old(system).queues()[ctx.index_spec()].len() == 0 && first_victim(
            old(system).queues(),
            ctx.index_spec(),
        ) is None ==> {
            &&& dispatch is Yield
            &&& final(system).queues() == old(system).queues()
        },
{
    match pop_job(system, ctx) {
        Ok(job) => Dispatch::Run(job),
        Err(IsEmpty) => match steal_job(system, ctx) {
            Ok(job) => Dispatch::Run(job),
            Err(BlockedOrEmpty) => Dispatch::Yield,
        },
    }
}

/// Drains the calling worker's own buffer, returning its jobs in invocation
/// (pop) order — the reverse of their queue order.  Run by every worker when
/// it observes the shutdown flag, so nothing queued is ever lost.
pub fn empty_buffer<J>(system: &mut JobSystem<J>, ctx: &WorkerThreadContext) -> (drained: Vec<J>)
    requires
        old(system).well_formed(),
        ctx.binds(*old(system)),
    ensures
        final(system).well_formed(),
        final(system).is_done() == old(system).is_done(),
        same_shape(*old(system), *final(system)),
        drained.view() == old(system).queues()[ctx.index_spec()].reverse(),
        final(system).queues() == old(system).queues().update(
            ctx.index_spec(),
            Seq::<J>::empty(),
        ),
{
    let me = ctx.index;
    let drained = system.buffers[me].drain();
    proof {
        lemma_queues_track_buffers(*old(system), *system, me as int);
        assert(system.queues()[me as int] =~= Seq::<J>::empty());
        assert(system.queues() =~= old(system).queues().update(me as int, Seq::<J>::empty()));
    }
    drained
}

/// Tears the pool down: requests shutdown, then drains every buffer in
/// worker order — the init-calling worker first, then each joined worker —
/// returning all still-queued jobs in the order they are invoked.  Nothing
/// queued survives and nothing is dropped: the result holds exactly the
/// queued jobs (see `drain_order`).
pub fn shut_down<J>(guard: JobSystemGuard<J>) -> (drained: Vec<J>)
    requires
        guard.system.well_formed(),
    ensures
        drained.view() == drain_order(guard.system.queues()),
{
    let ghost qs = guard.system.queues();
    let JobSystemGuard { system: mut system } = guard;
    request_shutdown(&mut system);
    let n = system.buffers.len();
    let mut drained: Vec<J> = Vec::new();
    let mut i: usize = 0;
    proof {
        assert(system.queues() == qs);
        assert(system.queues().subrange(0, n as int) =~= qs.subrange(0, n as int));
        assert(qs.subrange(0, n as int) =~= qs);
        assert(drained.view() + drain_order(qs) =~= drain_order(qs));
    }
    while i < n
        invariant
            system.well_formed(),
            n == system.worker_count(),
            qs.len() == n,
            i <= n,
            system.queues().subrange(i as int, n as int) == qs.subrange(i as int, n as int),
            drained.view() + drain_order(qs.subrange(i as int, n as int)) == drain_order(qs),
        decreases n - i,
    {
        let ghost before = *(&system);
        let mut part = system.buffers[i].drain();
        proof {
            lemma_queues_track_buffers(before, system, i as int);
        }
        drained.append(&mut part);
        proof {
            assert(before.queues()[i as int] == before.buffers@[i as int].view());
            assert(before.queues()[i as int] == qs[i as int]) by {
                assert(before.queues().subrange(i as int, n as int)[0] == qs.subrange(
                    i as int,
                    n as int,
                )[0]);
            }
            assert(system.queues().subrange(i as int + 1, n as int) =~= qs.subrange(
                i as int + 1,
                n as int,
            )) by {
                assert forall|j: int| i + 1 <= j < n implies #[trigger] system.queues()[j]
                    == qs[j] by {
                    assert(before.queues().subrange(i as int, n as int)[j - i] == qs.subrange(
                        i as int,
                        n as int,
                    )[j - i]);
                }
            }
            assert(drain_order(qs.subrange(i as int, n as int)) == qs[i as int].reverse()
                + drain_order(qs.subrange(i as int + 1, n as int))) by {
                assert(qs.subrange(i as int, n as int).first() == qs[i as int]);
                assert(qs.subrange(i as int, n as int).drop_first() =~= qs.subrange(
                    i as int + 1,
                    n as int,
                ));
            }
            assert(drained.view() + drain_order(qs.subrange(i as int + 1, n as int))
                =~= drain_order(qs));
        }
        i = i + 1;
    }
    proof {
        assert(qs.subrange(n as int, n as int) =~= Seq::<Seq<J>>::empty());
        assert(drain_order(qs.subrange(n as int, n as int)) == Seq::<J>::empty());
        assert(drained.view() =~= drain_order(qs));
    }
    drained
}

/// The order in which a full shutdown hands the queued jobs out: each
/// worker's queue drained newest-first, workers in index order.
pub open spec fn drain_order<J>(queues: Seq<Seq<J>>) -> Seq<J>
    decreases queues.len(),
{
    if queues.len() == 0 {
        Seq::empty()
    } else {
        queues.first().reverse() + drain_order(queues.drop_first())
    }
}

/// One round of cooperative lock acquisition: try the mutex without
/// blocking; on contention run a pending job instead of spinning, so a
/// worker waiting for the lock keeps the pool moving.  The caller loops
/// until `Acquired`, yielding the OS thread on `Starved`.
pub fn lock<J, T>(mutex: &mut CoopMutex<T>, system: &mut JobSystem<J>, ctx: &WorkerThreadContext)
    -> (step: LockStep<J>)
    requires
        old(system).well_formed(),
        ctx.binds(*old(system)),
    ensures
        final(system).well_formed(),
        final(system).is_done() == old(system).is_done(),
        same_shape(*old(system), *final(system)),
        final(mutex).value_spec() == old(mutex).value_spec(),
        !old(mutex).is_held() ==> {
            &&& step is Acquired
            &&& final(mutex).is_held()
            &&& final(system).queues() == old(system).queues()
        },
        old(mutex).is_held() ==> {
            &&& final(mutex).is_held()
            &&& (old(system).queues()[ctx.index_spec()].len() > 0 ==> {
                &&& step matches LockStep::Helped(job) && job == old(system).queues()[
                    ctx.index_spec()].last()
                &&& final(system).queues() == old(system).queues().update(
                    ctx.index_spec(),
                    old(system).queues()[ctx.index_spec()].drop_last(),
                )
            })
            &&& (old(system).queues()[ctx.index_spec()].len() == 0 ==> (first_victim(
                old(system).queues(),
                ctx.index_spec(),
            ) matches Some(victim) ==> {
                &&& step matches LockStep::Helped(job) && job == old(system).queues()[
                    victim].first()
                &&& final(system).queues() == old(system).queues().update(
                    victim,
                    old(system).queues()[victim].drop_first(),
                )
            }))
            &&& (old(system).queues()[ctx.index_spec()].len() == 0 && first_victim(
                old(system).queues(),
                ctx.index_spec(),
            ) is None ==> {
                &&& step is Starved
                &&& final(system).queues() == old(system).queues()
            })
        },
{
    if mutex.try_lock() {
        LockStep::Acquired
    } else {
        match run_pending_job(system, ctx) {
            Dispatch::Run(job) => LockStep::Helped(job),
            Dispatch::Yield => LockStep::Starved,
        }
    }
}

/// How one buffer's change shows up in the pool view: buffer `i` took its
/// own step, every other buffer stands as it was.
proof fn lemma_queues_track_buffers<J>(before: JobSystem<J>, after: JobSystem<J>, i: int)
    requires
        0 <= i < before.buffers@.len(),
        after.buffers@.len() == before.buffers@.len(),
        after.done == before.done,
        forall|k: int|
            0 <= k < before.buffers@.len() && k != i ==> after.buffers@[k] == before.buffers@[k],
    ensures
        after.queues() == before.queues().update(i, after.buffers@[i].view()),
        after.worker_count() == before.worker_count(),
        after.is_done() == before.is_done(),
        after.buffers@[i].cap() == before.buffers@[i].cap() ==> same_shape(before, after),
{
    assert(after.queues() =~= before.queues().update(i, after.buffers@[i].view()));
    if after.buffers@[i].cap() == before.buffers@[i].cap() {
        assert forall|k: int| 0 <= k < before.worker_count() implies #[trigger] after.cap_of(k)
            == before.cap_of(k) by {}
    }
}

} // verus!
