//! The per-worker double-ended job queue.
//!
//! Each worker owns one `JobBuffer`: a fixed-capacity ring of job slots with
//! the owner pushing and popping at the young end (LIFO, for cache locality)
//! and thieves stealing from the old end (FIFO, taking the oldest and usually
//! largest independent chunk of work).  The classic presentation keeps a
//! `bottom` cursor (owner side) and a `top` cursor (steal side) with
//! `bottom >= top` and `bottom - top <= capacity`; this implementation stores
//! the same state as `head` (the slot under `top`) and `count`
//! (`bottom - top`), which keeps every index strictly below the capacity.
//!
//! The abstract content is a sequence of jobs, oldest first: a push appends
//! at the back, a local pop removes the back, a steal removes the front.  A
//! push onto a full ring fails explicitly — returning the rejected job so the
//! caller can run it inline — and never overwrites a slot.

use vstd::prelude::*;

verus! {

use crate::errors::{BlockedOrEmpty, BlockedOrFull, IsEmpty};

/// A fixed-capacity double-ended queue of jobs, owner side at the back,
/// steal side at the front.
pub struct JobBuffer<J> {
    /// The ring storage; its length is the capacity and never changes.
    slots: Vec<Option<J>>,
    /// Slot of the oldest queued job (the steal side); always below the
    /// capacity while the ring is non-trivial.
    head: usize,
    /// Number of queued jobs, at most the capacity.
    count: usize,
}

impl<J> JobBuffer<J> {
    /// Number of slots in the ring, fixed at construction.
    pub closed spec fn cap(self) -> nat {
        self.slots@.len()
    }

    /// Ring slot holding the `j`-th oldest queued job.
    spec fn pos(self, j: int) -> int {
        if self.head + j < self.cap() {
            self.head + j
        } else {
            self.head + j - self.cap()
        }
    }

    /// How far a ring slot sits from `head`, walking forward with wraparound.
    spec fn dist(self, k: int) -> int {
        if k >= self.head {
            k - self.head
        } else {
            k + self.cap() - self.head
        }
    }

    /// The ring invariant: `count` jobs sit in consecutive slots starting at
    /// `head`, every other slot is free.
    pub closed spec fn well_formed(self) -> bool {
        &&& self.count <= self.cap()
        &&& self.head < self.cap() || (self.cap() == 0 && self.head == 0)
        &&& forall|k: int|
            0 <= k < self.cap() ==> (#[trigger] self.slots[k] is Some <==> self.dist(k)
                < self.count)
    }

    /// Queued jobs, oldest first.
    pub closed spec fn view(self) -> Seq<J> {
        Seq::new(self.count as nat, |j: int| self.slots[self.pos(j)]->Some_0)
    }

    /// A new, empty buffer whose ring holds `capacity` slots.
    pub fn new(capacity: usize) -> (buffer: Self)
        ensures
            buffer.well_formed(),
            buffer.cap() == capacity,
            buffer.view() == Seq::<J>::empty(),
    {
        let mut slots: Vec<Option<J>> = Vec::new();
        let mut i: usize = 0;
        while i < capacity
            invariant
                i <= capacity,
                slots.len() == i,
                forall|k: int| 0 <= k < i ==> #[trigger] slots[k] is None,
            decreases capacity - i,
        {
            slots.push(None);
            i = i + 1;
        }
        let buffer = JobBuffer { slots, head: 0, count: 0 };
        assert(buffer.view() =~= Seq::<J>::empty());
        buffer
    }

    /// The ring slot of logical position `j`, computed without overflow.
    fn ring_index(&self, j: usize) -> (idx: usize)
        requires
            self.head < self.slots.len(),
            j < self.slots.len(),
        ensures
            idx == self.pos(j as int),
            idx < self.slots.len(),
    {
        let capacity = self.slots.len();
        if j < capacity - self.head {
            self.head + j
        } else {
            j - (capacity - self.head)
        }
    }

    /// Owner-side push at the young end.  Appends the job if capacity
    /// remains; on a full ring it rejects the push and hands the job back
    /// unchanged, so that no submission is ever lost.
    pub fn push(&mut self, job: J) -> (result: Result<(), BlockedOrFull<J>>)
        requires
            old(self).well_formed(),
        ensures
            final(self).well_formed(),
            final(self).cap() == old(self).cap(),
            old(self).view().len() < old(self).cap() ==> {
                &&& result is Ok
                &&& final(self).view() == old(self).view().push(job)
            },
            old(self).view().len() == old(self).cap() ==> {
                &&& result matches Err(rejected) && rejected.not_pushed == job
                &&& final(self).view() == old(self).view()
            },
    {
        if self.count == self.slots.len() {
            return Err(BlockedOrFull { not_pushed: job });
        }
        let idx = self.ring_index(self.count);
        self.slots[idx] = Some(job);
        self.count = self.count + 1;
        proof {
            assert forall|k: int| 0 <= k < self.cap() implies (#[trigger] self.slots[k] is Some
                <==> self.dist(k) < self.count) by {
                assert(self.dist(self.pos((self.count - 1) as int)) == self.count - 1);
            }
            assert(self.view() =~= old(self).view().push(job)) by {
                assert(forall|j: int|
                    0 <= j < old(self).count ==> self.pos(j) == old(self).pos(j)
                        && #[trigger] self.slots[self.pos(j)] == old(self).slots[old(self).pos(
                        j,
                    )]);
            }
        }
        Ok(())
    }

    /// Owner-side pop at the young end: removes and returns the most
    /// recently pushed job (LIFO), or reports emptiness.
    pub fn wait_and_pop(&mut self) -> (result: Result<J, IsEmpty>)
        requires
            old(self).well_formed(),
        ensures
            final(self).well_formed(),
            final(self).cap() == old(self).cap(),
            old(self).view().len() == 0 ==> {
                &&& result is Err
                &&& *final(self) == *old(self)
            },
            old(self).view().len() > 0 ==> {
                &&& result matches Ok(job) && job == old(self).view().last()
                &&& final(self).view() == old(self).view().drop_last()
            },
    {
        if self.count == 0 {
            return Err(IsEmpty);
        }
        let idx = self.ring_index(self.count - 1);
        let taken = self.slots[idx].take();
        self.count = self.count - 1;
        proof {
            assert(old(self).dist(old(self).pos(self.count as int)) == self.count);
            assert forall|k: int| 0 <= k < self.cap() implies (#[trigger] self.slots[k] is Some
                <==> self.dist(k) < self.count) by {}
            assert(self.view() =~= old(self).view().drop_last()) by {
                assert(forall|j: int|
                    0 <= j < self.count ==> self.pos(j) == old(self).pos(j)
                        && #[trigger] self.slots[self.pos(j)] == old(self).slots[old(self).pos(
                        j,
                    )]);
            }
        }
        match taken {
            Some(job) => Ok(job),
            None => {
                proof {
                    assert(false);
                }
                Err(IsEmpty)
            },
        }
    }

    /// Thief-side steal at the old end: removes and returns the oldest
    /// queued job (FIFO), or reports that nothing could be taken.  On a live
    /// pool the same report also covers losing the race for the slot to a
    /// concurrent thief; the arbitration itself sits with the caller that
    /// serializes access to the buffer.
    pub fn steal(&mut self) -> (result: Result<J, BlockedOrEmpty>)
        requires
            old(self).well_formed(),
        ensures
            final(self).well_formed(),
            final(self).cap() == old(self).cap(),
            old(self).view().len() == 0 ==> {
                &&& result is Err
                &&& *final(self) == *old(self)
            },
            old(self).view().len() > 0 ==> {
                &&& result matches Ok(job) && job == old(self).view().first()
                &&& final(self).view() == old(self).view().drop_first()
            },
    {
        if self.count == 0 {
            return Err(BlockedOrEmpty);
        }
        let taken = self.slots[self.head].take();
        let capacity = self.slots.len();
        self.head = if self.head + 1 == capacity {
            0
        } else {
            self.head + 1
        };
        self.count = self.count - 1;
        proof {
            assert(old(self).dist(old(self).head as int) == 0);
            assert forall|k: int| 0 <= k < self.cap() implies (#[trigger] self.slots[k] is Some
                <==> self.dist(k) < self.count) by {
                assert(old(self).slots[k] is Some <==> old(self).dist(k) < old(self).count);
            }
            assert(self.view() =~= old(self).view().drop_first()) by {
                assert(forall|j: int|
                    0 <= j < self.count ==> self.pos(j) == old(self).pos(j + 1)
                        && #[trigger] self.slots[self.pos(j)] == old(self).slots[old(self).pos(
                        j + 1,
                    )]);
            }
        }
        match taken {
            Some(job) => Ok(job),
            None => {
                proof {
                    assert(false);
                }
                Err(BlockedOrEmpty)
            },
        }
    }

    /// Owner-side drain: pops until empty, returning the jobs in pop order —
    /// the reverse of their queue order.  Used on shutdown so that every
    /// queued job is handed out exactly once.
    pub fn drain(&mut self) -> (drained: Vec<J>)
        requires
            old(self).well_formed(),
        ensures
            final(self).well_formed(),
            final(self).cap() == old(self).cap(),
            final(self).view().len() == 0,
            drained.view() == old(self).view().reverse(),
    {
        let mut drained: Vec<J> = Vec::new();
        loop
            invariant
                self.well_formed(),
                self.cap() == old(self).cap(),
                old(self).view() == self.view() + drained.view().reverse(),
            ensures
                self.well_formed(),
                self.cap() == old(self).cap(),
                self.view().len() == 0,
                old(self).view() == drained.view().reverse(),
            decreases self.view().len(),
        {
            let ghost prev = self.view();
            let ghost prev_drained = drained.view();
            match self.wait_and_pop() {
                Ok(job) => {
                    drained.push(job);
                    proof {
                        assert(drained.view().reverse() =~= seq![job] + prev_drained.reverse());
                        assert(prev + prev_drained.reverse() =~= self.view()
                            + drained.view().reverse());
                    }
                },
                Err(IsEmpty) => {
                    proof {
                        assert(old(self).view() =~= drained.view().reverse());
                    }
                    break ;
                },
            }
        }
        proof {
            assert(drained.view() =~= old(self).view().reverse());
        }
        drained
    }
}

} // verus!
