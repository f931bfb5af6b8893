//! A pool of workers that share one queue of jobs.
//!
//! This is the part of the pool that decides: which worker gets which job, and
//! when a worker stops. Whoever runs the workers keeps it under a lock, gives
//! each worker a thread, and carries out what [`ThreadPool::next`] says.

use std::collections::VecDeque;

use vstd::prelude::*;

verus! {

/// A worker of a pool.
#[derive(Debug)]
pub struct Worker {
    pub id: usize,
}

/// What a worker does next.
#[derive(Debug)]
pub enum Next<J> {
    /// Run this job.
    Run(J),
    /// Wait until there is a job or the pool is shut down.
    Wait,
    /// Stop: the pool is shut down and every job has been handed out.
    Stop,
}

/// A pool of workers that share one queue of jobs.
pub struct ThreadPool<J> {
    /// The workers, numbered from zero.
    pub workers: Vec<Worker>,
    /// The jobs that no worker has taken yet.
    pub jobs: VecDeque<J>,
    /// Whether new jobs are taken.
    pub open: bool,
    /// How many workers have died of a job.
    pub lost: usize,
}

/// The job that a worker gets when the given ones wait: the one that has waited
/// longest.
pub open spec fn job_taken<J>(waiting: Seq<J>) -> Option<J> {
    if waiting.len() == 0 {
        None
    } else {
        Some(waiting[0])
    }
}

/// The jobs that wait on after a worker has asked for one.
pub open spec fn jobs_left<J>(waiting: Seq<J>) -> Seq<J> {
    if waiting.len() == 0 {
        waiting
    } else {
        waiting.drop_first()
    }
}

impl<J> ThreadPool<J> {
    /// The jobs that no worker has taken yet, in the order of their submission.
    pub open spec fn waiting(self) -> Seq<J> {
        self.jobs@
    }

    /// The workers are numbered from zero, and no more are lost than there are.
    pub open spec fn wf(self) -> bool {
        &&& forall|i: int| 0 <= i < self.workers@.len() ==> (#[trigger] self.workers@[i]).id == i
        &&& self.lost <= self.workers@.len()
    }

    /// Whether a worker is left to take a job.
    pub open spec fn is_alive(self) -> bool {
        self.lost < self.workers@.len()
    }

    /// A pool of `size` workers, numbered from zero. There must be room for the
    /// list of them: it may not take more than `isize::MAX` bytes, of which a
    /// worker takes eight at most.
    pub fn new(size: usize) -> (res: Self)
        requires
            8 * size <= isize::MAX,
        ensures
            res.wf(),
            res.workers@.len() == size,
            res.waiting() == Seq::<J>::empty(),
            forall|i: int| 0 <= i < size ==> (#[trigger] res.workers@[i]).id == i,
            res.jobs@.len() == 0,
            res.open,
            res.lost == 0,
    {
        let mut workers: Vec<Worker> = Vec::with_capacity(size);
        let mut id: usize = 0;
        while id < size
            invariant
                id <= size,
                workers@.len() == id,
                forall|i: int| 0 <= i < workers@.len() ==> (#[trigger] workers@[i]).id == i,
            decreases size - id,
        {
            workers.push(Worker { id });
            id += 1;
        }
        ThreadPool { workers, jobs: VecDeque::new(), open: true, lost: 0 }
    }

    /// Submits a job. A worker must be left to take it, and the pool must not be
    /// shut down.
    pub fn execute(&mut self, job: J)
        requires
            old(self).wf(),
            old(self).open,
            old(self).is_alive(),
        ensures
            final(self).wf(),
            final(self).waiting() == old(self).waiting().push(job),
            final(self).jobs@ == old(self).jobs@.push(job),
            final(self).workers == old(self).workers,
            final(self).open,
            final(self).lost == old(self).lost,
    {
        self.jobs.push_back(job);
    }

    /// Whether a job can be submitted.
    pub fn accepts(&self) -> (res: bool)
        ensures
            res == (self.open && self.is_alive()),
            res <==> self.open && self.lost < self.workers@.len(),
    {
        self.open && self.lost < self.workers.len()
    }

    /// What a worker that asks for a job does next: the job that has waited
    /// longest, if there is one.
    pub fn next(&mut self) -> (res: Next<J>)
        requires
            old(self).wf(),
        ensures
            final(self).wf(),
            match job_taken(old(self).waiting()) {
                Some(job) => res == Next::Run(job),
                None => if old(self).open {
                    res is Wait
                } else {
                    res is Stop
                },
            },
            final(self).waiting() == jobs_left(old(self).waiting()),
            old(self).jobs@.len() > 0 ==> res == Next::Run(old(self).jobs@[0]) && old(self).jobs@
                == seq![old(self).jobs@[0]] + final(self).jobs@,
            old(self).jobs@.len() == 0 ==> final(self).jobs@.len() == 0 && (res is Wait
                <==> old(self).open) && (res is Stop <==> !old(self).open),
            final(self).workers == old(self).workers,
            final(self).open == old(self).open,
            final(self).lost == old(self).lost,
    {
        match self.jobs.pop_front() {
            Some(job) => {
                assert(self.jobs@ == old(self).jobs@.drop_first());
                assert(old(self).jobs@ == seq![old(self).jobs@[0]] + self.jobs@);
                Next::Run(job)
            },
            None => {
                if self.open {
                    Next::Wait
                } else {
                    Next::Stop
                }
            },
        }
    }

    /// Shuts the pool down: it takes no more jobs, and its workers stop once
    /// every job has been handed out.
    pub fn shut_down(&mut self)
        requires
            old(self).wf(),
        ensures
            final(self).wf(),
            !final(self).open,
            final(self).waiting() == old(self).waiting(),
            final(self).jobs@ == old(self).jobs@,
            final(self).workers == old(self).workers,
            final(self).lost == old(self).lost,
    {
        self.open = false;
    }

    /// Notes that a worker has died of a job.
    pub fn lose_worker(&mut self)
        requires
            old(self).wf(),
            old(self).is_alive(),
        ensures
            final(self).wf(),
            final(self).lost == old(self).lost + 1,
            final(self).waiting() == old(self).waiting(),
            final(self).jobs@ == old(self).jobs@,
            final(self).workers == old(self).workers,
            final(self).open == old(self).open,
    {
        assert(self.lost < self.workers.len());
        self.lost = self.lost + 1;
    }
}

// ---------------------------------------------------------------------------
// Laws
// ---------------------------------------------------------------------------
/// What happens to the queue of a pool.
pub enum PoolEvent<J> {
    /// A job is submitted.
    Submit(J),
    /// A worker asks for a job.
    Ask,
}

/// The jobs that are submitted, in order.
pub open spec fn submitted<J>(events: Seq<PoolEvent<J>>) -> Seq<J>
    decreases events.len(),
{
    if events.len() == 0 {
        Seq::empty()
    } else {
        match events.last() {
            PoolEvent::Submit(job) => submitted(events.drop_last()).push(job),
            PoolEvent::Ask => submitted(events.drop_last()),
        }
    }
}

/// The jobs that wait after the events, and those that were handed out, in
/// order, on a pool whose queue was empty.
pub open spec fn queue_after<J>(events: Seq<PoolEvent<J>>) -> (Seq<J>, Seq<J>)
    decreases events.len(),
{
    if events.len() == 0 {
        (Seq::empty(), Seq::empty())
    } else {
        let (waiting, taken) = queue_after(events.drop_last());
        match events.last() {
            PoolEvent::Submit(job) => (waiting.push(job), taken),
            PoolEvent::Ask => match job_taken(waiting) {
                Some(job) => (jobs_left(waiting), taken.push(job)),
                None => (jobs_left(waiting), taken),
            },
        }
    }
}

/// Jobs are handed out in the order of their submission, each of them once and
/// none of them lost: those handed out, followed by those that wait, are those
/// submitted.
pub proof fn law_jobs_are_taken_in_order<J>(events: Seq<PoolEvent<J>>)
    ensures
        queue_after(events).1 + queue_after(events).0 == submitted(events),
    decreases events.len(),
{
    if events.len() > 0 {
        law_jobs_are_taken_in_order(events.drop_last());
        let (waiting, taken) = queue_after(events.drop_last());
        match events.last() {
            PoolEvent::Submit(job) => {
                assert(taken + waiting.push(job) == (taken + waiting).push(job));
            },
            PoolEvent::Ask => {
                if waiting.len() > 0 {
                    assert(taken.push(waiting[0]) + waiting.drop_first() == taken + waiting);
                }
            },
        }
    }
}

/// A worker gets the job that was submitted first of those that wait, and the
/// others wait on in their order; only where none waits does it get none.
pub proof fn law_first_job_is_taken<J>(job: J, others: Seq<J>)
    ensures
        job_taken(seq![job] + others) == Some(job),
        jobs_left(seq![job] + others) == others,
        job_taken(Seq::<J>::empty()) is None,
        jobs_left(Seq::<J>::empty()) == Seq::<J>::empty(),
{
    assert((seq![job] + others).drop_first() == others);
}

/// One more job is submitted after the others, whether or not workers have asked
/// in between.
pub proof fn law_jobs_are_submitted_in_order<J>(events: Seq<PoolEvent<J>>, job: J)
    ensures
        submitted(Seq::<PoolEvent<J>>::empty()) == Seq::<J>::empty(),
        submitted(events.push(PoolEvent::Submit(job))) == submitted(events).push(job),
        submitted(events.push(PoolEvent::Ask)) == submitted(events),
        queue_after(events.push(PoolEvent::Submit(job))).0 == queue_after(events).0.push(job),
        queue_after(events.push(PoolEvent::Submit(job))).1 == queue_after(events).1,
{
    assert(events.push(PoolEvent::Submit(job)).drop_last() == events);
    assert(events.push(PoolEvent::Ask).drop_last() == events);
}

/// A pool takes jobs as long as fewer workers are lost than it has, and its
/// workers bear the numbers of their places.
pub proof fn law_pool_lives_on_its_workers<J>(pool: ThreadPool<J>, i: int)
    ensures
        pool.waiting() == pool.jobs@,
        pool.is_alive() <==> pool.lost < pool.workers@.len(),
        pool.wf() && 0 <= i < pool.workers@.len() ==> pool.workers@[i].id == i,
        pool.wf() ==> pool.lost <= pool.workers@.len(),
{
}

} // verus!
