use std::collections::VecDeque;
use vstd::prelude::*;

verus! {

/// The state that the workers of a pool share: the queue of jobs waiting to
/// run, and whether the pool is shutting down.
pub struct SharedData<J> {
    pub jobs: VecDeque<J>,
    pub is_dead: bool,
}

/// What a worker does next.
pub enum WorkerAction<J> {
    /// Nothing to run yet: sleep until notified.
    Wait,
    /// The pool is shutting down: leave the loop.
    Exit,
    /// Run this job, taken from the front of the queue.
    Run(J),
}

/// A worker's decision on the queue `jobs` and the shutdown flag `is_dead`:
/// the queue it leaves behind and the action. Shutdown wins over waiting
/// jobs; otherwise jobs run in the order they were queued.
pub open spec fn worker_step<J>(jobs: Seq<J>, is_dead: bool) -> (Seq<J>, WorkerAction<J>) {
    if is_dead {
        (jobs, WorkerAction::Exit)
    } else if jobs.len() == 0 {
        (jobs, WorkerAction::Wait)
    } else {
        (jobs.drop_first(), WorkerAction::Run(jobs.first()))
    }
}

/// Once the pool is shutting down, every worker leaves and the queue stays
/// as it is.
pub proof fn law_shutdown_is_final<J>(jobs: Seq<J>)
    ensures
        worker_step(jobs, true) == (jobs, WorkerAction::<J>::Exit),
{
}

/// Jobs run in the order they were queued: a job queued behind others waits
/// until they have been taken, and a job queued on an empty running pool is
/// the next one taken.
pub proof fn law_jobs_run_in_order<J>(jobs: Seq<J>, job: J)
    ensures
        jobs.len() > 0 ==> worker_step(jobs.push(job), false) == (
            jobs.drop_first().push(job),
            WorkerAction::Run(jobs[0]),
        ),
        jobs.len() == 0 ==> worker_step(jobs.push(job), false) == (
            Seq::<J>::empty(),
            WorkerAction::Run(job),
        ),
{
    assert(jobs.push(job).drop_first() =~= if jobs.len() > 0 {
        jobs.drop_first().push(job)
    } else {
        Seq::<J>::empty()
    });
}

impl<J> SharedData<J> {
    /// A running pool's state with no job queued.
    pub fn new() -> (r: Self)
        ensures
            r.jobs@ == Seq::<J>::empty(),
            !r.is_dead,
    {
        SharedData { jobs: VecDeque::new(), is_dead: false }
    }

    /// Queues `job` behind the jobs already waiting.
    pub fn push_job(&mut self, job: J)
        ensures
            final(self).jobs@ == old(self).jobs@.push(job),
            final(self).is_dead == old(self).is_dead,
    {
        self.jobs.push_back(job);
    }

    /// Decides what a worker that holds the lock does next, and takes the job
    /// it is to run off the queue.
    pub fn next_action(&mut self) -> (a: WorkerAction<J>)
        ensures
            (final(self).jobs@, a) == worker_step(old(self).jobs@, old(self).is_dead),
            final(self).is_dead == old(self).is_dead,
    {
        if self.is_dead {
            WorkerAction::Exit
        } else {
            match self.jobs.pop_front() {
                Some(job) => WorkerAction::Run(job),
                None => WorkerAction::Wait,
            }
        }
    }
}

} // verus!
