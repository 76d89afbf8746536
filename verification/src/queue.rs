//! The worker pool's queue discipline: a FIFO of submitted jobs, shared
//! by the workers.
//!
//! Submitting never drops or reorders a job; a claim takes exactly the
//! oldest one and removes it, so no job can be claimed twice.  The
//! blocking, the threads and the lock around this queue live outside;
//! every decision about what a worker does next is taken here.

use vstd::prelude::*;

verus! {

/// The shared job queue: jobs in submission order, and whether the
/// queue has been closed for shutdown.
pub struct JobQueue<T> {
    items: Vec<T>,
    closed: bool,
}

/// What a worker that asked the queue must do next.
pub enum PoolStep<T> {
    /// Run this job, then ask again.
    Run(T),
    /// The queue is closed and drained: stop.
    Exit,
    /// Nothing to do yet: block until the queue changes.
    Wait,
}

impl<T> JobQueue<T> {
    /// The jobs waiting, oldest first.
    pub closed spec fn jobs(self) -> Seq<T> {
        self.items@
    }

    /// Whether the queue was closed for shutdown.
    pub closed spec fn is_closed(self) -> bool {
        self.closed
    }

    /// An empty, open queue.
    pub fn new() -> (q: JobQueue<T>)
        ensures
            q.jobs() == Seq::<T>::empty(),
            !q.is_closed(),
    {
        JobQueue { items: Vec::new(), closed: false }
    }

    /// How many jobs are waiting.
    pub fn len(&self) -> (n: usize)
        ensures
            n == self.jobs().len(),
    {
        self.items.len()
    }

    /// Submit a job: it is appended behind every job already waiting,
    /// and nothing else changes — no job is ever dropped or reordered
    /// by a submission.
    pub fn submit(&mut self, job: T)
        ensures
            final(self).jobs() == old(self).jobs().push(job),
            final(self).is_closed() == old(self).is_closed(),
    {
        self.items.push(job);
    }

    /// Close the queue: the jobs still waiting stay, and workers exit
    /// once they are drained.
    pub fn close(&mut self)
        ensures
            final(self).jobs() == old(self).jobs(),
            final(self).is_closed(),
    {
        self.closed = true;
    }

    /// Decide a worker's next step.  When jobs wait, the oldest one is
    /// claimed: it is handed to exactly this caller and removed, so it
    /// can never be claimed again.  When none wait, the worker exits
    /// if the queue is closed and otherwise blocks.
    pub fn next_step(&mut self) -> (r: PoolStep<T>)
        ensures
            old(self).jobs().len() > 0 ==> (r matches PoolStep::Run(job) && job == old(
                self,
            ).jobs()[0] && final(self).jobs() == old(self).jobs().drop_first()),
            old(self).jobs().len() == 0 ==> final(self).jobs() == old(self).jobs() && (if old(
                self,
            ).is_closed() {
                r is Exit
            } else {
                r is Wait
            }),
            final(self).is_closed() == old(self).is_closed(),
    {
        if self.items.len() > 0 {
            let job = self.items.remove(0);
            proof {
                assert(self.items@ =~= old(self).jobs().drop_first());
            }
            PoolStep::Run(job)
        } else if self.closed {
            PoolStep::Exit
        } else {
            PoolStep::Wait
        }
    }
}

} // verus!
