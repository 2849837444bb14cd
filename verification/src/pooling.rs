use std::collections::VecDeque;
use vstd::prelude::*;

verus! {

/// The queue of a pool of workers: jobs are taken in, handed to the workers
/// in the order in which they came, and refused once the pool has been
/// closed. The host owns the worker threads; each of them claims a job here,
/// runs it and reports back. The jobs wait in a double-ended queue, which
/// takes them in at the back and hands them out at the front.
pub struct Pool<J> {
    size: usize,
    queue: VecDeque<J>,
    open: bool,
    active: usize,
    submitted: Ghost<Seq<J>>,
    claimed: Ghost<Seq<J>>,
}

/// A pool, as its contracts see it.
pub struct PoolView<J> {
    /// Number of workers.
    pub size: nat,
    /// Whether jobs are still taken in.
    pub open: bool,
    /// The jobs that wait for a worker, oldest first.
    pub queued: Seq<J>,
    /// Number of jobs that a worker has claimed and not yet finished.
    pub active: nat,
    /// Every job that was taken in, in order.
    pub submitted: Seq<J>,
    /// Every job that was handed to a worker, in order.
    pub claimed: Seq<J>,
}

/// What a worker that asks for a job is told.
pub enum Claim<J> {
    /// Run this job, then report that it is finished.
    Run(J),
    /// No job waits: ask again when one is submitted or the pool is closed.
    Wait,
    /// The pool is closed and no job waits: leave.
    Exit,
}

impl<J> View for Pool<J> {
    type V = PoolView<J>;

    closed spec fn view(&self) -> PoolView<J> {
        PoolView {
            size: self.size as nat,
            open: self.open,
            queued: self.queue@,
            active: self.active as nat,
            submitted: self.submitted@,
            claimed: self.claimed@,
        }
    }
}

impl<J> Pool<J> {
    /// The invariant of a pool: it has a worker, no more jobs run than it has
    /// workers, and every job that was taken in has either been handed to a
    /// worker, once, or waits in the queue, in the order of submission.
    pub closed spec fn wf(&self) -> bool {
        &&& self.size > 0
        &&& self.active <= self.size
        &&& self.active <= self.claimed@.len()
        &&& self.submitted@ == self.claimed@ + self.queue@
    }

    /// Every job that was taken in was handed to a worker exactly once or
    /// still waits: the jobs handed out and the jobs that wait, in this
    /// order, are the jobs submitted. No more jobs run than there are
    /// workers, and none that was not handed out.
    pub proof fn lemma_every_job_once(&self)
        requires
            self.wf(),
        ensures
            self@.submitted == self@.claimed + self@.queued,
            self@.size > 0,
            self@.active <= self@.size,
            self@.active <= self@.claimed.len(),
    {
    }

    /// Once no job waits, every job that was submitted has been handed to a
    /// worker; once none runs either, all of them have been run.
    pub proof fn lemma_drained_ran_all(&self)
        requires
            self.wf(),
            self@.queued.len() == 0,
        ensures
            self@.claimed == self@.submitted,
    {
    }

    /// A pool of `size` workers, open and empty.
    pub fn new(size: usize) -> (pool: Pool<J>)
        requires
            size > 0,
        ensures
            pool.wf(),
            pool@ == (PoolView::<J> {
                size: size as nat,
                open: true,
                queued: Seq::empty(),
                active: 0,
                submitted: Seq::empty(),
                claimed: Seq::empty(),
            }),
    {
        Pool {
            size,
            queue: VecDeque::new(),
            open: true,
            active: 0,
            submitted: Ghost(Seq::empty()),
            claimed: Ghost(Seq::empty()),
        }
    }

    /// Submits a job. An open pool puts it behind the jobs that wait; a
    /// closed one hands it back.
    pub fn execute(&mut self, job: J) -> (result: Result<(), J>)
        requires
            old(self).wf(),
        ensures
            final(self).wf(),
            old(self)@.open ==> result is Ok && final(self)@ == (PoolView {
                queued: old(self)@.queued.push(job),
                submitted: old(self)@.submitted.push(job),
                ..old(self)@
            }),
            !old(self)@.open ==> result == Err::<(), J>(job) && final(self)@ == old(self)@,
    {
        if !self.open {
            return Err(job);
        }
        proof {
            self.submitted@ = self.submitted@.push(job);
        }
        self.queue.push_back(job);
        Ok(())
    }

    /// Answers a worker that is free: the oldest waiting job if there is one
    /// and a worker is left to run it, else whether to wait or to leave.
    pub fn claim(&mut self) -> (claim: Claim<J>)
        requires
            old(self).wf(),
        ensures
            final(self).wf(),
            old(self)@.queued.len() > 0 && old(self)@.active < old(self)@.size ==> claim
                == Claim::Run(old(self)@.queued[0]) && final(self)@ == (PoolView {
                queued: old(self)@.queued.skip(1),
                claimed: old(self)@.claimed.push(old(self)@.queued[0]),
                active: old(self)@.active + 1,
                ..old(self)@
            }),
            !(old(self)@.queued.len() > 0 && old(self)@.active < old(self)@.size) ==> final(self)@
                == old(self)@,
            old(self)@.queued.len() > 0 && old(self)@.active >= old(self)@.size ==> claim is Wait,
            old(self)@.queued.len() == 0 ==> (if old(self)@.open {
                claim is Wait
            } else {
                claim is Exit
            }),
    {
        if self.active >= self.size {
            return if self.queue.len() > 0 || self.open {
                Claim::Wait
            } else {
                Claim::Exit
            };
        }
        match self.queue.pop_front() {
            Some(job) => {
                proof {
                    self.claimed@ = self.claimed@.push(job);
                }
                self.active = self.active + 1;
                assert(self.submitted@ =~= self.claimed@ + self.queue@);
                assert(self.queue@ =~= old(self).queue@.skip(1));
                Claim::Run(job)
            },
            None => if self.open {
                Claim::Wait
            } else {
                Claim::Exit
            },
        }
    }

    /// Takes the report of a worker that has run its job.
    pub fn finish(&mut self)
        requires
            old(self).wf(),
        ensures
            final(self).wf(),
            final(self)@ == (PoolView {
                active: if old(self)@.active > 0 {
                    (old(self)@.active - 1) as nat
                } else {
                    0
                },
                ..old(self)@
            }),
    {
        if self.active > 0 {
            self.active = self.active - 1;
        }
    }

    /// Begins the teardown: from now on no job is taken in. The jobs that
    /// wait are still handed out.
    pub fn close(&mut self)
        requires
            old(self).wf(),
        ensures
            final(self).wf(),
            final(self)@ == (PoolView { open: false, ..old(self)@ }),
    {
        self.open = false;
    }

    /// Whether the teardown may end: the pool is closed, no job waits and
    /// none runs.
    pub fn drained(&self) -> (done: bool)
        requires
            self.wf(),
        ensures
            done == (!self@.open && self@.queued.len() == 0 && self@.active == 0),
    {
        !self.open && self.queue.len() == 0 && self.active == 0
    }

    /// Number of workers.
    pub fn size(&self) -> (size: usize)
        ensures
            size == self@.size,
    {
        self.size
    }
}

} // verus!
