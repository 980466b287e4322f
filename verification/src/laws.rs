//! Pool-wide conservation and progress laws.
//!
//! The scheduler's contracts pin each step down to one queue: a submission
//! appends to the caller's queue, a dispatch removes the newest local or the
//! oldest stolen job, a drain empties one buffer.  The laws here lift those
//! steps to the whole pool, counted as a multiset: no step ever loses a job
//! or delivers one twice, a full shutdown hands out exactly what was queued,
//! and a worker that cannot get the lock either shrinks the outstanding work
//! or yields only when the pool is truly empty.

use vstd::prelude::*;

verus! {

use vstd::multiset::Multiset;
use crate::job_system::{drain_order, first_victim, first_victim_from};

/// Every job queued anywhere in the pool, counted with multiplicity.
pub open spec fn total_jobs<J>(queues: Seq<Seq<J>>) -> Multiset<J>
    decreases queues.len(),
{
    if queues.len() == 0 {
        Multiset::empty()
    } else {
        queues.first().to_multiset().add(total_jobs(queues.drop_first()))
    }
}

/// The order that popping a queue one job at a time yields: the newest
/// first, then the rest the same way.
pub open spec fn pop_order<J>(queue: Seq<J>) -> Seq<J>
    decreases queue.len(),
{
    if queue.len() == 0 {
        Seq::empty()
    } else {
        seq![queue.last()] + pop_order(queue.drop_last())
    }
}

/// Jobs submitted from a single worker and popped locally, with no steal in
/// between, run in strict reverse submission order: the worker's queue
/// holds its submissions oldest first (each submission appends), and
/// popping them one at a time is exactly the queue reversed.
pub proof fn lemma_local_pops_reverse_submissions<J>(queue: Seq<J>)
    ensures
        pop_order(queue) == queue.reverse(),
    decreases queue.len(),
{
    if queue.len() > 0 {
        lemma_local_pops_reverse_submissions(queue.drop_last());
    }
    assert(pop_order(queue) =~= queue.reverse());
}

/// Cancellation for multiset sums: equal sums with an equal summand have
/// equal remainders.
proof fn lemma_multiset_cancel_add<J>(a: Multiset<J>, b: Multiset<J>, m: Multiset<J>)
    requires
        a.add(m) == b.add(m),
    ensures
        a == b,
{
    broadcast use vstd::multiset::group_multiset_axioms;

    assert forall|x: J| #[trigger] a.count(x) == b.count(x) by {
        assert(a.add(m).count(x) == b.add(m).count(x));
        assert(a.add(m).count(x) == a.count(x) + m.count(x));
        assert(b.add(m).count(x) == b.count(x) + m.count(x));
    }
    assert(a =~= b);
}

/// Replacing one queue changes the pool total by exactly that queue's
/// change; every other queue's jobs are untouched.
proof fn lemma_total_jobs_update<J>(queues: Seq<Seq<J>>, i: int, q: Seq<J>)
    requires
        0 <= i < queues.len(),
    ensures
        total_jobs(queues.update(i, q)).add(queues[i].to_multiset()) == total_jobs(queues).add(
            q.to_multiset(),
        ),
    decreases queues.len(),
{
    broadcast use vstd::multiset::group_multiset_axioms;

    if i == 0 {
        assert(queues.update(0, q).drop_first() =~= queues.drop_first());
        assert(queues.update(0, q).first() == q);
        assert(total_jobs(queues.update(0, q)).add(queues[0].to_multiset())
            =~= total_jobs(queues).add(q.to_multiset()));
    } else {
        let rest = queues.drop_first();
        assert(queues.update(i, q).drop_first() =~= rest.update(i - 1, q));
        assert(queues.update(i, q).first() == queues.first());
        lemma_total_jobs_update(rest, i - 1, q);
        assert(rest[i - 1] == queues[i]);
        assert forall|x: J| #[trigger] total_jobs(queues.update(i, q)).add(
            queues[i].to_multiset(),
        ).count(x) == total_jobs(queues).add(q.to_multiset()).count(x) by {
            assert(total_jobs(rest.update(i - 1, q)).add(rest[i - 1].to_multiset()).count(x)
                == total_jobs(rest).add(q.to_multiset()).count(x));
        }
        assert(total_jobs(queues.update(i, q)).add(queues[i].to_multiset())
            =~= total_jobs(queues).add(q.to_multiset()));
    }
}

/// No submission is ever lost or duplicated: queuing a job adds exactly one
/// occurrence of it to the pool — and when the buffer is full the job is not
/// queued at all but handed back for inline invocation, leaving the pool
/// unchanged (that case is the identity on `total_jobs`, so this law covers
/// the only transition a submission makes).
pub proof fn lemma_submit_adds_exactly_one<J>(queues: Seq<Seq<J>>, me: int, job: J)
    requires
        0 <= me < queues.len(),
    ensures
        total_jobs(queues.update(me, queues[me].push(job))) == total_jobs(queues).insert(job),
{
    broadcast use vstd::multiset::group_multiset_axioms;
    broadcast use vstd::seq_lib::group_to_multiset_ensures;

    lemma_total_jobs_update(queues, me, queues[me].push(job));
    assert(queues[me].push(job).to_multiset() =~= queues[me].to_multiset().insert(job));
    assert(total_jobs(queues).insert(job).add(queues[me].to_multiset()) =~= total_jobs(
        queues,
    ).add(queues[me].to_multiset().insert(job)));
    lemma_multiset_cancel_add(
        total_jobs(queues.update(me, queues[me].push(job))),
        total_jobs(queues).insert(job),
        queues[me].to_multiset(),
    );
}

/// A local pop delivers the newest job of the caller's queue exactly once:
/// putting the delivered job back yields the pool as it was, so nothing was
/// lost and nothing was duplicated.
pub proof fn lemma_pop_removes_exactly_one<J>(queues: Seq<Seq<J>>, me: int)
    requires
        0 <= me < queues.len(),
        queues[me].len() > 0,
    ensures
        total_jobs(queues.update(me, queues[me].drop_last())).insert(queues[me].last())
            == total_jobs(queues),
{
    broadcast use vstd::multiset::group_multiset_axioms;
    broadcast use vstd::seq_lib::group_to_multiset_ensures;

    lemma_total_jobs_update(queues, me, queues[me].drop_last());
    assert(queues[me].drop_last().push(queues[me].last()) =~= queues[me]);
    assert(queues[me].drop_last().to_multiset().insert(queues[me].last()) =~= queues[
        me].to_multiset());
    assert(total_jobs(queues.update(me, queues[me].drop_last())).insert(queues[me].last()).add(
        queues[me].drop_last().to_multiset(),
    ) =~= total_jobs(queues.update(me, queues[me].drop_last())).add(queues[me].to_multiset()));
    lemma_multiset_cancel_add(
        total_jobs(queues.update(me, queues[me].drop_last())).insert(queues[me].last()),
        total_jobs(queues),
        queues[me].drop_last().to_multiset(),
    );
}

/// A steal delivers the oldest job of the victim's queue exactly once; as
/// with a pop, putting it back restores the pool, so no interleaving of
/// steals can double-deliver or drop a job.
pub proof fn lemma_steal_removes_exactly_one<J>(queues: Seq<Seq<J>>, victim: int)
    requires
        0 <= victim < queues.len(),
        queues[victim].len() > 0,
    ensures
        total_jobs(queues.update(victim, queues[victim].drop_first())).insert(
            queues[victim].first(),
        ) == total_jobs(queues),
{
    broadcast use vstd::multiset::group_multiset_axioms;
    broadcast use vstd::seq_lib::group_to_multiset_ensures;

    lemma_total_jobs_update(queues, victim, queues[victim].drop_first());
    assert(queues[victim].remove(0) =~= queues[victim].drop_first());
    assert(queues[victim].remove(0).to_multiset() =~= queues[victim].to_multiset().remove(
        queues[victim].first(),
    ));
    assert(queues[victim].to_multiset().count(queues[victim].first()) > 0);
    assert(queues[victim].drop_first().to_multiset().insert(queues[victim].first()) =~= queues[
        victim].to_multiset());
    assert(total_jobs(queues.update(victim, queues[victim].drop_first())).insert(
        queues[victim].first(),
    ).add(queues[victim].drop_first().to_multiset()) =~= total_jobs(
        queues.update(victim, queues[victim].drop_first()),
    ).add(queues[victim].to_multiset()));
    lemma_multiset_cancel_add(
        total_jobs(queues.update(victim, queues[victim].drop_first())).insert(
            queues[victim].first(),
        ),
        total_jobs(queues),
        queues[victim].drop_first().to_multiset(),
    );
}

/// Shutdown drains completely: the jobs a full shutdown hands out are
/// exactly the jobs that were queued, each delivered once.
pub proof fn lemma_shutdown_drains_everything<J>(queues: Seq<Seq<J>>)
    ensures
        drain_order(queues).to_multiset() == total_jobs(queues),
    decreases queues.len(),
{
    broadcast use vstd::multiset::group_multiset_axioms;
    broadcast use vstd::seq_lib::group_to_multiset_ensures;

    if queues.len() == 0 {
        assert(drain_order(queues).to_multiset() =~= total_jobs(queues));
    } else {
        lemma_shutdown_drains_everything(queues.drop_first());
        vstd::seq_lib::lemma_multiset_commutative(
            queues.first().reverse(),
            drain_order(queues.drop_first()),
        );
        queues.first().lemma_reverse_to_multiset();
        assert(drain_order(queues).to_multiset() =~= total_jobs(queues));
    }
}

/// A `None` from the steal rotation really means there was nothing to
/// steal: every peer's queue from position `i` on is empty.
proof fn lemma_first_victim_from_none<J>(queues: Seq<Seq<J>>, me: int, i: int)
    requires
        0 <= i,
        first_victim_from(queues, me, i) is None,
    ensures
        forall|j: int| i <= j < queues.len() && j != me ==> queues[j].len() == 0,
    decreases queues.len() - i,
{
    if i < queues.len() {
        lemma_first_victim_from_none(queues, me, i + 1);
    }
}

/// The cooperative wait never deadlocks while independent work exists: a
/// worker that fails to acquire the lock either runs a job — strictly
/// shrinking the pool's outstanding work — or yields only when every queue
/// in the pool is empty.  (Dispatch takes the newest local job first and
/// otherwise the first victim of the steal rotation.)
pub proof fn lemma_lock_contention_progress<J>(queues: Seq<Seq<J>>, me: int)
    requires
        0 <= me < queues.len(),
    ensures
        queues[me].len() > 0 ==> total_jobs(
            queues.update(me, queues[me].drop_last()),
        ).len() < total_jobs(queues).len(),
        queues[me].len() == 0 ==> match first_victim(queues, me) {
            Some(victim) => total_jobs(
                queues.update(victim, queues[victim].drop_first()),
            ).len() < total_jobs(queues).len(),
            None => forall|j: int| 0 <= j < queues.len() ==> queues[j].len() == 0,
        },
{
    if queues[me].len() > 0 {
        lemma_pop_removes_exactly_one(queues, me);
    } else {
        match first_victim(queues, me) {
            Some(victim) => {
                lemma_first_victim_from_some(queues, me, 0);
                lemma_steal_removes_exactly_one(queues, victim);
            },
            None => {
                lemma_first_victim_from_none(queues, me, 0);
            },
        }
    }
}

/// A `Some(victim)` from the steal rotation names a real victim: a peer in
/// range whose queue is non-empty.
proof fn lemma_first_victim_from_some<J>(queues: Seq<Seq<J>>, me: int, i: int)
    requires
        0 <= i,
        first_victim_from(queues, me, i) is Some,
    ensures
        (first_victim_from(queues, me, i) matches Some(victim) ==> {
            &&& i <= victim < queues.len()
            &&& victim != me
            &&& queues[victim].len() > 0
        }),
    decreases queues.len() - i,
{
    if i < queues.len() {
        if !(i != me && queues[i].len() > 0) {
            lemma_first_victim_from_some(queues, me, i + 1);
        }
    }
}

/// One scheduler transition, as the pool view sees it.
pub enum SchedulerOp<J> {
    /// Worker `worker` submits `job`: queued at the back of its own queue,
    /// or — when that queue is full — handed straight back and run inline.
    Submit { worker: usize, job: J },
    /// Worker `worker` runs one dispatch step: pop its own newest job, else
    /// steal the first victim's oldest, else yield.
    Dispatch { worker: usize },
}

/// The worker a transition acts as.
pub open spec fn op_worker<J>(op: SchedulerOp<J>) -> int {
    match op {
        SchedulerOp::Submit { worker, .. } => worker as int,
        SchedulerOp::Dispatch { worker } => worker as int,
    }
}

/// The queues after one transition (`caps` are the buffer capacities).
pub open spec fn op_queues<J>(queues: Seq<Seq<J>>, caps: Seq<nat>, op: SchedulerOp<J>) -> Seq<
    Seq<J>,
> {
    match op {
        SchedulerOp::Submit { worker, job } => {
            if queues[worker as int].len() < caps[worker as int] {
                queues.update(worker as int, queues[worker as int].push(job))
            } else {
                queues
            }
        },
        SchedulerOp::Dispatch { worker } => {
            if queues[worker as int].len() > 0 {
                queues.update(worker as int, queues[worker as int].drop_last())
            } else {
                match first_victim(queues, worker as int) {
                    Some(victim) => queues.update(victim, queues[victim].drop_first()),
                    None => queues,
                }
            }
        },
    }
}

/// The jobs one transition hands out for immediate invocation: a rejected
/// submission run inline, or the job a dispatch found.
pub open spec fn op_delivered<J>(queues: Seq<Seq<J>>, caps: Seq<nat>, op: SchedulerOp<J>) -> Multiset<
    J,
> {
    match op {
        SchedulerOp::Submit { worker, job } => {
            if queues[worker as int].len() < caps[worker as int] {
                Multiset::empty()
            } else {
                Multiset::singleton(job)
            }
        },
        SchedulerOp::Dispatch { worker } => {
            if queues[worker as int].len() > 0 {
                Multiset::singleton(queues[worker as int].last())
            } else {
                match first_victim(queues, worker as int) {
                    Some(victim) => Multiset::singleton(queues[victim].first()),
                    None => Multiset::empty(),
                }
            }
        },
    }
}

/// The job one transition submits, if any.
pub open spec fn op_submitted<J>(op: SchedulerOp<J>) -> Multiset<J> {
    match op {
        SchedulerOp::Submit { job, .. } => Multiset::singleton(job),
        SchedulerOp::Dispatch { .. } => Multiset::empty(),
    }
}

/// The queues after a whole interleaving of transitions.
pub open spec fn trace_queues<J>(
    queues: Seq<Seq<J>>,
    caps: Seq<nat>,
    trace: Seq<SchedulerOp<J>>,
) -> Seq<Seq<J>>
    decreases trace.len(),
{
    if trace.len() == 0 {
        queues
    } else {
        trace_queues(op_queues(queues, caps, trace.first()), caps, trace.drop_first())
    }
}

/// Everything a whole interleaving hands out for invocation.
pub open spec fn trace_delivered<J>(
    queues: Seq<Seq<J>>,
    caps: Seq<nat>,
    trace: Seq<SchedulerOp<J>>,
) -> Multiset<J>
    decreases trace.len(),
{
    if trace.len() == 0 {
        Multiset::empty()
    } else {
        op_delivered(queues, caps, trace.first()).add(
            trace_delivered(op_queues(queues, caps, trace.first()), caps, trace.drop_first()),
        )
    }
}

/// Everything a whole interleaving submits.
pub open spec fn trace_submitted<J>(trace: Seq<SchedulerOp<J>>) -> Multiset<J>
    decreases trace.len(),
{
    if trace.len() == 0 {
        Multiset::empty()
    } else {
        op_submitted(trace.first()).add(trace_submitted(trace.drop_first()))
    }
}

/// Every transition of the trace names a worker of the pool.
pub open spec fn trace_valid<J>(workers: int, trace: Seq<SchedulerOp<J>>) -> bool {
    forall|i: int| 0 <= i < trace.len() ==> 0 <= op_worker(#[trigger] trace[i]) < workers
}

/// One transition conserves jobs: what stays queued plus what is handed out
/// equals what was queued plus what was submitted.
proof fn lemma_op_conserves<J>(queues: Seq<Seq<J>>, caps: Seq<nat>, op: SchedulerOp<J>)
    requires
        caps.len() == queues.len(),
        0 <= op_worker(op) < queues.len(),
    ensures
        total_jobs(op_queues(queues, caps, op)).add(op_delivered(queues, caps, op)) == total_jobs(
            queues,
        ).add(op_submitted(op)),
{
    broadcast use vstd::multiset::group_multiset_axioms;

    match op {
        SchedulerOp::Submit { worker, job } => {
            let w = worker as int;
            if queues[w].len() < caps[w] {
                lemma_submit_adds_exactly_one(queues, w, job);
                assert(total_jobs(queues.update(w, queues[w].push(job))).add(Multiset::empty())
                    =~= total_jobs(queues).add(Multiset::singleton(job)));
            } else {
                assert(total_jobs(queues).add(Multiset::singleton(job)) =~= total_jobs(
                    queues,
                ).add(Multiset::singleton(job)));
            }
        },
        SchedulerOp::Dispatch { worker } => {
            let w = worker as int;
            if queues[w].len() > 0 {
                lemma_pop_removes_exactly_one(queues, w);
                assert(total_jobs(queues.update(w, queues[w].drop_last())).add(
                    Multiset::singleton(queues[w].last()),
                ) =~= total_jobs(queues).add(Multiset::empty()));
            } else {
                match first_victim(queues, w) {
                    Some(victim) => {
                        lemma_first_victim_from_some(queues, w, 0);
                        lemma_steal_removes_exactly_one(queues, victim);
                        assert(total_jobs(queues.update(victim, queues[victim].drop_first())).add(
                            Multiset::singleton(queues[victim].first()),
                        ) =~= total_jobs(queues).add(Multiset::empty()));
                    },
                    None => {
                        assert(total_jobs(queues).add(Multiset::empty()) =~= total_jobs(
                            queues,
                        ).add(Multiset::empty()));
                    },
                }
            }
        },
    }
}

/// No job is ever lost and none is ever delivered twice, across any
/// interleaving of submissions and dispatch steps by any workers: after the
/// whole interleaving, what is still queued plus everything handed out for
/// invocation is exactly what was queued at the start plus everything
/// submitted.
pub proof fn lemma_interleaving_conserves_jobs<J>(
    queues: Seq<Seq<J>>,
    caps: Seq<nat>,
    trace: Seq<SchedulerOp<J>>,
)
    requires
        caps.len() == queues.len(),
        trace_valid(queues.len() as int, trace),
    ensures
        total_jobs(trace_queues(queues, caps, trace)).add(trace_delivered(queues, caps, trace))
            == total_jobs(queues).add(trace_submitted(trace)),
    decreases trace.len(),
{
    broadcast use vstd::multiset::group_multiset_axioms;

    if trace.len() > 0 {
        let op = trace.first();
        let rest = trace.drop_first();
        let next = op_queues(queues, caps, op);
        assert(0 <= op_worker(op) < queues.len()) by {
            assert(op == trace[0]);
        }
        lemma_op_conserves(queues, caps, op);
        assert(next.len() == queues.len()) by {
            match op {
                SchedulerOp::Dispatch { worker } => {
                    if queues[worker as int].len() == 0 {
                        match first_victim(queues, worker as int) {
                            Some(victim) => {
                                lemma_first_victim_from_some(queues, worker as int, 0);
                            },
                            None => {},
                        }
                    }
                },
                SchedulerOp::Submit { .. } => {},
            }
        }
        assert(trace_valid(next.len() as int, rest)) by {
            assert(forall|i: int| 0 <= i < rest.len() ==> rest[i] == #[trigger] trace[i + 1]);
        }
        lemma_interleaving_conserves_jobs(next, caps, rest);
        let end = trace_queues(next, caps, rest);
        assert forall|x: J| #[trigger] total_jobs(trace_queues(queues, caps, trace)).add(
            trace_delivered(queues, caps, trace),
        ).count(x) == total_jobs(queues).add(trace_submitted(trace)).count(x) by {
            assert(total_jobs(end).add(trace_delivered(next, caps, rest)).count(x) == total_jobs(
                next,
            ).add(trace_submitted(rest)).count(x));
            assert(total_jobs(next).add(op_delivered(queues, caps, op)).count(x) == total_jobs(
                queues,
            ).add(op_submitted(op)).count(x));
        }
        assert(total_jobs(trace_queues(queues, caps, trace)).add(
            trace_delivered(queues, caps, trace),
        ) =~= total_jobs(queues).add(trace_submitted(trace)));
    }
}

/// Whether every queue of the pool is empty.
pub open spec fn all_idle<J>(queues: Seq<Seq<J>>) -> bool {
    forall|i: int| 0 <= i < queues.len() ==> (#[trigger] queues[i]).len() == 0
}

/// An idle pool holds no jobs.
proof fn lemma_total_jobs_of_idle<J>(queues: Seq<Seq<J>>)
    requires
        all_idle(queues),
    ensures
        total_jobs(queues) == Multiset::<J>::empty(),
    decreases queues.len(),
{
    if queues.len() > 0 {
        assert(all_idle(queues.drop_first())) by {
            assert(forall|i: int|
                0 <= i < queues.len() - 1 ==> queues.drop_first()[i] == #[trigger] queues[i + 1]);
        }
        lemma_total_jobs_of_idle(queues.drop_first());
        assert(queues.first().to_multiset().len() == 0) by {
            queues.first().to_multiset_ensures();
        }
        assert(total_jobs(queues) =~= Multiset::<J>::empty());
    }
}

/// Total invocations equal total submissions: an interleaving that starts
/// with an idle pool and drains it back to idle hands out exactly the jobs
/// that were submitted — each once, none dropped.
pub proof fn lemma_invocations_equal_submissions<J>(
    queues: Seq<Seq<J>>,
    caps: Seq<nat>,
    trace: Seq<SchedulerOp<J>>,
)
    requires
        caps.len() == queues.len(),
        trace_valid(queues.len() as int, trace),
        all_idle(queues),
        all_idle(trace_queues(queues, caps, trace)),
    ensures
        trace_delivered(queues, caps, trace) == trace_submitted(trace),
{
    broadcast use vstd::multiset::group_multiset_axioms;

    lemma_interleaving_conserves_jobs(queues, caps, trace);
    lemma_total_jobs_of_idle(queues);
    lemma_total_jobs_of_idle(trace_queues(queues, caps, trace));
    assert forall|x: J| #[trigger] trace_delivered(queues, caps, trace).count(x)
        == trace_submitted(trace).count(x) by {
        assert(total_jobs(trace_queues(queues, caps, trace)).add(
            trace_delivered(queues, caps, trace),
        ).count(x) == total_jobs(queues).add(trace_submitted(trace)).count(x));
    }
    assert(trace_delivered(queues, caps, trace) =~= trace_submitted(trace));
}

} // verus!
