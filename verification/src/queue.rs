//! The job queue between the thread that accepts connections and the
//! workers that serve them.
//!
//! The queue is first in, first out, and has no bound. It can be closed:
//! from then on it takes no new job. The jobs that are pending at that
//! moment are still handed out, so a pool that closes its queue and waits
//! for its workers completes every job it accepted. The queue does not
//! block and does not lock; the pool keeps it behind a lock and parks a
//! worker that is told to wait.

use std::collections::VecDeque;
use vstd::prelude::*;

verus! {

/// A first-in, first-out queue of jobs that can be closed.
pub struct JobQueue<J> {
    jobs: VecDeque<J>,
    closed: bool,
}

/// What a worker does next.
pub enum Next<J> {
    /// Run this job, then ask again.
    Run(J),
    /// Nothing is pending: sleep until a job is pushed or the queue is
    /// closed, then ask again.
    Wait,
    /// Nothing is pending and nothing will come: stop.
    Exit,
}

impl<J> JobQueue<J> {
    /// The jobs that wait to be run, oldest first.
    pub closed spec fn pending(&self) -> Seq<J> {
        self.jobs@
    }

    /// Whether the queue has been closed.
    pub closed spec fn is_closed(&self) -> bool {
        self.closed
    }

    /// An open queue without jobs.
    pub fn new() -> (queue: JobQueue<J>)
        ensures
            queue.pending() == Seq::<J>::empty(),
            !queue.is_closed(),
    {
        JobQueue { jobs: VecDeque::new(), closed: false }
    }

    /// The number of pending jobs.
    pub fn len(&self) -> (n: usize)
        ensures
            n == self.pending().len(),
    {
        self.jobs.len()
    }

    /// Adds `job` behind the pending jobs. A closed queue takes nothing
    /// and hands the job back.
    pub fn push(&mut self, job: J) -> (refused: Option<J>)
        ensures
            final(self).is_closed() == old(self).is_closed(),
            old(self).is_closed() ==> {
                &&& refused == Some(job)
                &&& final(self).pending() == old(self).pending()
            },
            !old(self).is_closed() ==> {
                &&& refused is None
                &&& final(self).pending() == old(self).pending().push(job)
            },
    {
        if self.closed {
            Some(job)
        } else {
            self.jobs.push_back(job);
            None
        }
    }

    /// Takes the oldest pending job. Without a pending job, tells the
    /// worker to wait while the queue is open and to stop once it is
    /// closed.
    pub fn next(&mut self) -> (next: Next<J>)
        ensures
            final(self).is_closed() == old(self).is_closed(),
            old(self).pending().len() > 0 ==> {
                &&& next == Next::Run(old(self).pending()[0])
                &&& final(self).pending() == old(self).pending().skip(1)
            },
            old(self).pending().len() == 0 ==> {
                &&& final(self).pending() == old(self).pending()
                &&& old(self).is_closed() ==> next == Next::<J>::Exit
                &&& !old(self).is_closed() ==> next == Next::<J>::Wait
            },
    {
        match self.jobs.pop_front() {
            Some(job) => Next::Run(job),
            None => if self.closed {
                Next::Exit
            } else {
                Next::Wait
            },
        }
    }

    /// Closes the queue. The pending jobs stay.
    pub fn close(&mut self)
        ensures
            final(self).is_closed(),
            final(self).pending() == old(self).pending(),
    {
        self.closed = true;
    }
}

} // verus!
