//! The job queue: a bounded, priority-aware admission queue.
//!
//! Entries are ordered by `(priority desc, sequence asc)`: a higher
//! priority dequeues first, and ties within one priority go in FIFO
//! order of enqueueing. The sequence number grows monotonically, so the
//! order is total. The queue is bounded: enqueueing at capacity fails
//! with `QueueFull` instead of growing — deliberate backpressure in
//! place of an unbounded channel — and a continuous stream of
//! `Critical` work can starve `Low` work, which is accepted for this
//! domain.

use vstd::prelude::*;

use crate::error::GatewayError;
use crate::job::JobPriority;

verus! {

/// One queued admission: which job, at what priority, admitted when.
#[derive(Debug, Clone, Copy, PartialEq, Eq, Structural)]
pub struct QueueEntry {
    pub priority: JobPriority,
    pub sequence: u64,
    pub job_id: u64,
}

/// `a` dequeues strictly before `b`: higher priority first, FIFO within
/// a priority.
pub open spec fn spec_precedes(a: QueueEntry, b: QueueEntry) -> bool {
    a.priority.spec_rank() > b.priority.spec_rank() || (a.priority.spec_rank()
        == b.priority.spec_rank() && a.sequence < b.sequence)
}

/// The bounded priority queue.
#[derive(Debug)]
pub struct JobQueue {
    entries: Vec<QueueEntry>,
    capacity: usize,
    next_sequence: u64,
}

impl JobQueue {
    /// The queued entries, in admission order.
    pub closed spec fn view(self) -> Seq<QueueEntry> {
        self.entries@
    }

    /// The configured bound.
    pub closed spec fn spec_capacity(self) -> usize {
        self.capacity
    }

    /// The next admission sequence number.
    pub closed spec fn spec_next_sequence(self) -> u64 {
        self.next_sequence
    }

    /// Queue invariant: the bound is respected and sequence numbers are
    /// unique, all below the allocation counter.
    pub open spec fn wf(self) -> bool {
        &&& self@.len() <= self.spec_capacity()
        &&& forall|i: int|
            0 <= i < self@.len() ==> (#[trigger] self@[i]).sequence < self.spec_next_sequence()
        &&& forall|i: int, j: int|
            0 <= i < j < self@.len() ==> self@[i].sequence != self@[j].sequence
    }

    /// An empty queue admitting at most `capacity` entries.
    pub fn new(capacity: usize) -> (r: JobQueue)
        ensures
            r@ == Seq::<QueueEntry>::empty(),
            r.spec_capacity() == capacity,
            r.spec_next_sequence() == 0,
            r.wf(),
    {
        JobQueue { entries: Vec::new(), capacity, next_sequence: 0 }
    }

    /// Number of queued entries.
    pub fn len(&self) -> (r: usize)
        ensures
            r == self@.len(),
    {
        self.entries.len()
    }

    /// The configured bound.
    pub fn capacity(&self) -> (r: usize)
        ensures
            r == self.spec_capacity(),
    {
        self.capacity
    }

    /// Whether an enqueue would be refused right now.
    pub fn is_full(&self) -> (r: bool)
        ensures
            r == (self@.len() >= self.spec_capacity()),
    {
        self.entries.len() >= self.capacity
    }

    /// Admits a job. At capacity this fails with `QueueFull` and leaves
    /// every queued entry exactly where it was; otherwise the job is
    /// appended with the next admission sequence number.
    pub fn enqueue(&mut self, priority: JobPriority, job_id: u64) -> (r: Result<(), GatewayError>)
        requires
            old(self).wf(),
            old(self).spec_next_sequence() < u64::MAX,
        ensures
            final(self).wf(),
            final(self).spec_capacity() == old(self).spec_capacity(),
            if old(self)@.len() >= old(self).spec_capacity() {
                r == Err::<(), GatewayError>(GatewayError::QueueFull) && *final(self) == *old(self)
            } else {
                r == Ok::<(), GatewayError>(()) && final(self)@ == old(self)@.push(
                    QueueEntry {
                        priority,
                        sequence: old(self).spec_next_sequence(),
                        job_id,
                    },
                ) && final(self).spec_next_sequence() == old(self).spec_next_sequence() + 1
            },
    {
        if self.entries.len() >= self.capacity {
            Err(GatewayError::QueueFull)
        } else {
            let entry = QueueEntry { priority, sequence: self.next_sequence, job_id };
            self.entries.push(entry);
            self.next_sequence = self.next_sequence + 1;
            Ok(())
        }
    }

    /// Removes and returns the entry that dequeues first: the unique
    /// queued entry that precedes every other queued entry. Returns
    /// `None` exactly when the queue is empty.
    pub fn dequeue(&mut self) -> (r: Option<QueueEntry>)
        requires
            old(self).wf(),
        ensures
            final(self).wf(),
            final(self).spec_capacity() == old(self).spec_capacity(),
            final(self).spec_next_sequence() == old(self).spec_next_sequence(),
            match r {
                None => old(self)@.len() == 0 && *final(self) == *old(self),
                Some(e) => exists|i: int|
                    {
                        &&& 0 <= i < old(self)@.len()
                        &&& old(self)@[i] == e
                        &&& final(self)@ == old(self)@.remove(i)
                        &&& forall|j: int|
                            0 <= j < old(self)@.len() && j != i ==> spec_precedes(
                                e,
                                #[trigger] old(self)@[j],
                            )
                    },
            },
    {
        let n = self.entries.len();
        if n == 0 {
            return None;
        }
        let mut best: usize = 0;
        let mut i: usize = 1;
        while i < n
            invariant
                n == self@.len(),
                best < i <= n,
                self.wf(),
                forall|j: int|
                    0 <= j < i && j != best ==> spec_precedes(self@[best as int], #[trigger] self@[j]),
            decreases n - i,
        {
            let b = &self.entries[best];
            let c = &self.entries[i];
            let better = c.priority.rank() > b.priority.rank() || (c.priority.rank()
                == b.priority.rank() && c.sequence < b.sequence);
            if better {
                best = i;
            }
            i = i + 1;
        }
        let e = self.entries.remove(best);
        Some(e)
    }

    /// Drops this job's queued entry, if it has one, leaving the rest
    /// in order. The gateway admits each job at most once, so removing
    /// the first matching entry removes them all. This is how
    /// cancelling a still-`Pending` job leaves the queue.
    pub fn remove_job(&mut self, job_id: u64)
        requires
            old(self).wf(),
        ensures
            final(self).wf(),
            final(self).spec_capacity() == old(self).spec_capacity(),
            final(self).spec_next_sequence() == old(self).spec_next_sequence(),
            match spec_find_entry(old(self)@, job_id) {
                Some(i) => final(self)@ == old(self)@.remove(i),
                None => *final(self) == *old(self),
            },
    {
        let n = self.entries.len();
        let mut i: usize = 0;
        proof {
            assert(self@.skip(0) =~= self@);
        }
        while i < n
            invariant
                *self == *old(self),
                n == self@.len(),
                i <= n,
                self.wf(),
                spec_find_entry(self@, job_id) == match spec_find_entry(
                    self@.skip(i as int),
                    job_id,
                ) {
                    Some(k) => Some(k + i),
                    None => None::<int>,
                },
            decreases n - i,
        {
            proof {
                assert(self@.skip(i as int)[0] == self@[i as int]);
                assert(self@.skip(i as int).skip(1) =~= self@.skip(i as int + 1));
            }
            if self.entries[i].job_id == job_id {
                self.entries.remove(i);
                return ;
            }
            i = i + 1;
        }
        proof {
            assert(self@.skip(n as int) =~= Seq::<QueueEntry>::empty());
        }
    }
}

/// Index of the first queued entry carrying this job id, if any.
pub open spec fn spec_find_entry(s: Seq<QueueEntry>, job_id: u64) -> Option<int>
    decreases s.len(),
{
    if s.len() == 0 {
        None
    } else if s[0].job_id == job_id {
        Some(0)
    } else {
        match spec_find_entry(s.skip(1), job_id) {
            Some(i) => Some(i + 1),
            None => None,
        }
    }
}

/// A found index is in range, carries the id it was found under, and is
/// the first to do so.
pub proof fn lemma_find_entry_some(s: Seq<QueueEntry>, job_id: u64)
    ensures
        match spec_find_entry(s, job_id) {
            Some(i) => 0 <= i < s.len() && s[i].job_id == job_id && forall|k: int|
                0 <= k < i ==> (#[trigger] s[k]).job_id != job_id,
            None => true,
        },
    decreases s.len(),
{
    if s.len() > 0 && s[0].job_id != job_id {
        lemma_find_entry_some(s.skip(1), job_id);
        if spec_find_entry(s.skip(1), job_id) is Some {
            let j = spec_find_entry(s.skip(1), job_id)->Some_0;
            assert forall|k: int| 0 <= k < j + 1 implies (#[trigger] s[k]).job_id != job_id by {
                if k > 0 {
                    assert(s.skip(1)[k - 1] == s[k]);
                }
            }
        }
    }
}

/// A job id is found among queued entries exactly when some entry
/// carries it.
pub proof fn lemma_find_entry_absent(s: Seq<QueueEntry>, job_id: u64)
    ensures
        spec_find_entry(s, job_id) is None <==> forall|i: int|
            0 <= i < s.len() ==> (#[trigger] s[i]).job_id != job_id,
    decreases s.len(),
{
    if s.len() > 0 {
        lemma_find_entry_absent(s.skip(1), job_id);
        if spec_find_entry(s, job_id) is None {
            assert(s[0].job_id != job_id);
            assert(spec_find_entry(s.skip(1), job_id) is None);
            assert forall|i: int| 0 <= i < s.len() implies (#[trigger] s[i]).job_id != job_id by {
                if i > 0 {
                    assert(s.skip(1)[i - 1] == s[i]);
                }
            }
        }
        if forall|i: int| 0 <= i < s.len() ==> (#[trigger] s[i]).job_id != job_id {
            assert(s[0].job_id != job_id);
            assert forall|i: int|
                0 <= i < s.skip(1).len() implies (#[trigger] s.skip(1)[i]).job_id != job_id by {
                assert(s.skip(1)[i] == s[i + 1]);
            }
            assert(spec_find_entry(s.skip(1), job_id) is None);
        }
    }
}

} // verus!
