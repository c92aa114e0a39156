//! The bookkeeping of a worker pool: a queue of pending jobs, a fixed set of
//! workers, and the rules by which jobs are handed out and the pool winds
//! down.
//!
//! The dispatcher runs nothing and blocks nobody. Whoever owns the threads
//! keeps one dispatcher behind a lock: the submitter calls
//! [`Dispatcher::execute`], each worker calls [`Dispatcher::next`], runs the
//! job it was handed, and reports back with [`Dispatcher::finish`], whether
//! the job completed or failed.

use std::collections::VecDeque;
use vstd::prelude::*;

verus! {

/// Why a pool could not be made.
#[derive(Clone, Copy, Debug, PartialEq, Eq, Structural)]
pub enum PoolError {
    /// A pool needs at least one worker.
    ConstructionError,
}

/// What a worker is doing.
#[derive(Clone, Copy, Debug, PartialEq, Eq, Structural)]
pub enum WorkerState {
    /// Waiting for a job.
    Idle,
    /// Running a job.
    Busy,
    /// Gone for good.
    Exited,
}

/// What a worker that asked for work is to do.
#[derive(Debug)]
pub enum Step<T> {
    /// Run this job, then report back.
    Run(T),
    /// Nothing to do yet: ask again when a job was submitted or the pool
    /// was shut down.
    Wait,
    /// Leave the loop.
    Exit,
}

/// The number of workers that are running a job.
pub open spec fn busy_count(workers: Seq<WorkerState>) -> nat
    decreases workers.len(),
{
    if workers.len() == 0 {
        0
    } else {
        busy_count(workers.drop_last()) + if workers.last() == WorkerState::Busy {
            1nat
        } else {
            0nat
        }
    }
}

/// Whether every worker has left.
pub open spec fn all_exited(workers: Seq<WorkerState>) -> bool {
    forall|i: int| 0 <= i < workers.len() ==> #[trigger] workers[i] == WorkerState::Exited
}

/// Whether no worker has left.
pub open spec fn none_exited(workers: Seq<WorkerState>) -> bool {
    forall|i: int| 0 <= i < workers.len() ==> #[trigger] workers[i] != WorkerState::Exited
}

/// A worker that changes from one state to another changes the number of
/// busy workers by what the two states count.
pub proof fn lemma_busy_count_update(workers: Seq<WorkerState>, worker: int, state: WorkerState)
    requires
        0 <= worker < workers.len(),
    ensures
        busy_count(workers.update(worker, state)) + (if workers[worker] == WorkerState::Busy {
            1nat
        } else {
            0nat
        }) == busy_count(workers) + (if state == WorkerState::Busy {
            1nat
        } else {
            0nat
        }),
    decreases workers.len(),
{
    let after = workers.update(worker, state);
    if worker == workers.len() - 1 {
        assert(after.drop_last() == workers.drop_last());
    } else {
        lemma_busy_count_update(workers.drop_last(), worker, state);
        assert(after.drop_last() == workers.drop_last().update(worker, state));
    }
}

/// A worker that stays changes nothing about whether one has left.
pub proof fn lemma_none_exited_update(workers: Seq<WorkerState>, worker: int, state: WorkerState)
    requires
        0 <= worker < workers.len(),
        workers[worker] != WorkerState::Exited,
        state != WorkerState::Exited,
    ensures
        none_exited(workers.update(worker, state)) == none_exited(workers),
{
    let after = workers.update(worker, state);
    if !none_exited(after) {
        let gone = choose|i: int| 0 <= i < after.len() && after[i] == WorkerState::Exited;
        assert(workers[gone] == WorkerState::Exited);
    }
    if !none_exited(workers) {
        let gone = choose|i: int| 0 <= i < workers.len() && workers[i] == WorkerState::Exited;
        assert(after[gone] == WorkerState::Exited);
    }
}

/// Where no worker is busy, none is counted.
pub proof fn lemma_busy_count_none(workers: Seq<WorkerState>)
    requires
        forall|i: int| 0 <= i < workers.len() ==> #[trigger] workers[i] != WorkerState::Busy,
    ensures
        busy_count(workers) == 0,
    decreases workers.len(),
{
    if workers.len() > 0 {
        lemma_busy_count_none(workers.drop_last());
    }
}

/// The state of a pool with a fixed number of workers and an unbounded
/// first-in, first-out queue of jobs of type `T`.
pub struct Dispatcher<T> {
    queue: VecDeque<T>,
    workers: Vec<WorkerState>,
    accepting: bool,
    submitted: Ghost<Seq<T>>,
    dispatched: Ghost<Seq<T>>,
    finished: Ghost<nat>,
}

impl<T> Dispatcher<T> {
    /// The jobs that wait, oldest first.
    pub closed spec fn pending(&self) -> Seq<T> {
        self.queue@
    }

    /// The state of each worker.
    pub closed spec fn workers(&self) -> Seq<WorkerState> {
        self.workers@
    }

    /// Whether jobs are still taken in.
    pub closed spec fn accepting(&self) -> bool {
        self.accepting
    }

    /// Every job that was taken in, in the order of submission.
    pub closed spec fn submitted(&self) -> Seq<T> {
        self.submitted@
    }

    /// Every job that was handed to a worker, in the order of dispatch.
    pub closed spec fn dispatched(&self) -> Seq<T> {
        self.dispatched@
    }

    /// The number of jobs whose worker has reported back.
    pub closed spec fn finished(&self) -> nat {
        self.finished@
    }

    /// What holds of every dispatcher: there is a worker; each job taken in
    /// either waits or was handed out once, in the order of submission; a
    /// job handed out has finished or keeps one worker busy; and a worker
    /// leaves only once the pool is shut down and drained.
    pub open spec fn wf(&self) -> bool {
        &&& self.workers().len() >= 1
        &&& self.submitted() == self.dispatched() + self.pending()
        &&& self.dispatched().len() == self.finished() + busy_count(self.workers())
        &&& !none_exited(self.workers()) ==> !self.accepting() && self.pending().len() == 0
    }

    /// Makes a pool of `size` idle workers with nothing queued.
    pub fn new(size: usize) -> (made: Result<Dispatcher<T>, PoolError>)
        ensures
            match made {
                Ok(pool) => {
                    &&& size >= 1
                    &&& pool.wf()
                    &&& pool.workers() == Seq::new(size as nat, |i: int| WorkerState::Idle)
                    &&& pool.accepting()
                    &&& pool.pending() == Seq::<T>::empty()
                    &&& pool.submitted() == Seq::<T>::empty()
                    &&& pool.dispatched() == Seq::<T>::empty()
                    &&& pool.finished() == 0
                },
                Err(error) => size == 0 && error == PoolError::ConstructionError,
            },
    {
        if size == 0 {
            return Err(PoolError::ConstructionError);
        }
        let mut workers: Vec<WorkerState> = Vec::new();
        while workers.len() < size
            invariant
                workers.len() <= size,
                workers@ == Seq::new(workers.len() as nat, |i: int| WorkerState::Idle),
            decreases size - workers.len(),
        {
            workers.push(WorkerState::Idle);
        }
        proof {
            lemma_busy_count_none(workers@);
        }
        Ok(
            Dispatcher {
                queue: VecDeque::new(),
                workers,
                accepting: true,
                submitted: Ghost(Seq::empty()),
                dispatched: Ghost(Seq::empty()),
                finished: Ghost(0),
            },
        )
    }

    /// The number of workers.
    pub fn size(&self) -> (size: usize)
        ensures
            size == self.workers().len(),
    {
        self.workers.len()
    }

    /// Whether jobs are still taken in.
    pub fn is_accepting(&self) -> (accepting: bool)
        ensures
            accepting == self.accepting(),
    {
        self.accepting
    }

    /// The number of jobs that wait.
    pub fn queued(&self) -> (count: usize)
        ensures
            count == self.pending().len(),
    {
        self.queue.len()
    }

    /// The state of a worker, where there is one of that number.
    pub fn worker(&self, worker: usize) -> (state: Option<WorkerState>)
        ensures
            state == if worker < self.workers().len() {
                Some(self.workers()[worker as int])
            } else {
                None
            },
    {
        if worker < self.workers.len() {
            Some(self.workers[worker])
        } else {
            None
        }
    }

    /// Takes a job in at the end of the queue. Once the pool is shut down
    /// the job is handed back and nothing changes. The queue has no bound,
    /// so a submitter is never held up.
    pub fn execute(&mut self, job: T) -> (taken: Result<(), T>)
        requires
            old(self).wf(),
        ensures
            final(self).wf(),
            final(self).workers() == old(self).workers(),
            final(self).accepting() == old(self).accepting(),
            final(self).dispatched() == old(self).dispatched(),
            final(self).finished() == old(self).finished(),
            match taken {
                Ok(_) => {
                    &&& old(self).accepting()
                    &&& final(self).pending() == old(self).pending().push(job)
                    &&& final(self).submitted() == old(self).submitted().push(job)
                },
                Err(rejected) => {
                    &&& !old(self).accepting()
                    &&& rejected == job
                    &&& final(self).pending() == old(self).pending()
                    &&& final(self).submitted() == old(self).submitted()
                },
            },
    {
        if self.accepting {
            self.queue.push_back(job);
            proof {
                self.submitted@ = self.submitted@.push(job);
            }
            Ok(())
        } else {
            Err(job)
        }
    }

    /// Stops taking jobs in. Jobs that wait are still handed out; workers
    /// leave once the queue is empty.
    pub fn shutdown(&mut self)
        requires
            old(self).wf(),
        ensures
            final(self).wf(),
            !final(self).accepting(),
            final(self).workers() == old(self).workers(),
            final(self).pending() == old(self).pending(),
            final(self).submitted() == old(self).submitted(),
            final(self).dispatched() == old(self).dispatched(),
            final(self).finished() == old(self).finished(),
    {
        self.accepting = false;
    }

    /// Answers a worker that asks for work. An idle worker gets the oldest
    /// waiting job, whatever the other workers are doing. With nothing
    /// waiting it is told to wait while the pool takes jobs in, and to leave
    /// once it does not. A worker that is busy is told to wait; one that has
    /// left, or a number that names no worker, is told to leave.
    pub fn next(&mut self, worker: usize) -> (step: Step<T>)
        requires
            old(self).wf(),
        ensures
            final(self).wf(),
            final(self).accepting() == old(self).accepting(),
            final(self).submitted() == old(self).submitted(),
            final(self).finished() == old(self).finished(),
            match step {
                Step::Run(job) => {
                    &&& old(self).hands_out(worker as int)
                    &&& job == old(self).pending()[0]
                    &&& final(self).pending() == old(self).pending().drop_first()
                    &&& final(self).dispatched() == old(self).dispatched().push(job)
                    &&& final(self).workers() == old(self).workers().update(
                        worker as int,
                        WorkerState::Busy,
                    )
                },
                Step::Wait => {
                    &&& old(self).holds_back(worker as int)
                    &&& final(self).pending() == old(self).pending()
                    &&& final(self).dispatched() == old(self).dispatched()
                    &&& final(self).workers() == old(self).workers()
                },
                Step::Exit => {
                    &&& !old(self).hands_out(worker as int)
                    &&& !old(self).holds_back(worker as int)
                    &&& final(self).pending() == old(self).pending()
                    &&& final(self).dispatched() == old(self).dispatched()
                    &&& final(self).workers() == if worker < old(self).workers().len() {
                        old(self).workers().update(worker as int, WorkerState::Exited)
                    } else {
                        old(self).workers()
                    }
                },
            },
    {
        if worker >= self.workers.len() {
            return Step::Exit;
        }
        match self.workers[worker] {
            WorkerState::Busy => Step::Wait,
            WorkerState::Exited => Step::Exit,
            WorkerState::Idle => {
                match self.queue.pop_front() {
                    Some(job) => {
                        proof {
                            lemma_busy_count_update(
                                self.workers@,
                                worker as int,
                                WorkerState::Busy,
                            );
                            lemma_none_exited_update(
                                self.workers@,
                                worker as int,
                                WorkerState::Busy,
                            );
                            self.dispatched@ = self.dispatched@.push(job);
                        }
                        self.workers[worker] = WorkerState::Busy;
                        assert(self.submitted() == self.dispatched() + self.pending());
                        Step::Run(job)
                    },
                    None => {
                        if self.accepting {
                            Step::Wait
                        } else {
                            proof {
                                lemma_busy_count_update(
                                    self.workers@,
                                    worker as int,
                                    WorkerState::Exited,
                                );
                            }
                            self.workers[worker] = WorkerState::Exited;
                            Step::Exit
                        }
                    },
                }
            },
        }
    }

    /// Takes the report of a worker that its job is over, completed or
    /// failed: the worker is idle again. A report from a worker that is not
    /// busy, or under a number that names no worker, changes nothing.
    pub fn finish(&mut self, worker: usize)
        requires
            old(self).wf(),
        ensures
            final(self).wf(),
            final(self).accepting() == old(self).accepting(),
            final(self).pending() == old(self).pending(),
            final(self).submitted() == old(self).submitted(),
            final(self).dispatched() == old(self).dispatched(),
            if old(self).is_busy(worker as int) {
                &&& final(self).workers() == old(self).workers().update(
                    worker as int,
                    WorkerState::Idle,
                )
                &&& final(self).finished() == old(self).finished() + 1
            } else {
                &&& final(self).workers() == old(self).workers()
                &&& final(self).finished() == old(self).finished()
            },
    {
        if worker < self.workers.len() {
            match self.workers[worker] {
                WorkerState::Busy => {
                    proof {
                        lemma_busy_count_update(self.workers@, worker as int, WorkerState::Idle);
                        lemma_none_exited_update(self.workers@, worker as int, WorkerState::Idle);
                        self.finished@ = self.finished@ + 1;
                    }
                    self.workers[worker] = WorkerState::Idle;
                },
                _ => {},
            }
        }
    }

    /// Whether every worker has left, so that a shutdown can return.
    pub fn is_terminated(&self) -> (done: bool)
        requires
            self.wf(),
        ensures
            done == all_exited(self.workers()),
    {
        let mut at: usize = 0;
        while at < self.workers.len()
            invariant
                at <= self.workers.len(),
                forall|i: int| 0 <= i < at ==> #[trigger] self.workers@[i] == WorkerState::Exited,
            decreases self.workers.len() - at,
        {
            match self.workers[at] {
                WorkerState::Exited => {},
                _ => {
                    return false;
                },
            }
            at += 1;
        }
        true
    }

    /// Whether `worker` may be handed a job: it is idle and a job waits.
    pub open spec fn hands_out(&self, worker: int) -> bool {
        &&& 0 <= worker < self.workers().len()
        &&& self.workers()[worker] == WorkerState::Idle
        &&& self.pending().len() > 0
    }

    /// Whether `worker` is to wait: it is busy, or it is idle with nothing
    /// waiting while the pool takes jobs in.
    pub open spec fn holds_back(&self, worker: int) -> bool {
        &&& 0 <= worker < self.workers().len()
        &&& {
            ||| self.workers()[worker] == WorkerState::Busy
            ||| self.workers()[worker] == WorkerState::Idle && self.pending().len() == 0
                && self.accepting()
        }
    }

    /// Whether `worker` is running a job.
    pub open spec fn is_busy(&self, worker: int) -> bool {
        0 <= worker < self.workers().len() && self.workers()[worker] == WorkerState::Busy
    }
}

/// Every job that was taken in either waits or was handed to a worker, and
/// to one only; jobs are handed out in the order in which they were taken
/// in.
pub proof fn lemma_handed_out_once_in_order<T>(pool: Dispatcher<T>)
    requires
        pool.wf(),
    ensures
        pool.submitted() == pool.dispatched() + pool.pending(),
        pool.submitted().len() == pool.dispatched().len() + pool.pending().len(),
        forall|i: int|
            0 <= i < pool.dispatched().len() ==> pool.dispatched()[i] == pool.submitted()[i],
        forall|i: int|
            0 <= i < pool.pending().len() ==> pool.pending()[i] == pool.submitted()[
                pool.dispatched().len() + i
            ],
{
}

/// Once every worker has left, the pool takes no job in, no job waits, and
/// every job that was ever taken in was handed out and has finished: none is
/// left half done.
pub proof fn lemma_terminated_pool_is_drained<T>(pool: Dispatcher<T>)
    requires
        pool.wf(),
        all_exited(pool.workers()),
    ensures
        !pool.accepting(),
        pool.pending().len() == 0,
        pool.dispatched() == pool.submitted(),
        pool.finished() == pool.submitted().len(),
{
    lemma_busy_count_none(pool.workers());
}

} // verus!
