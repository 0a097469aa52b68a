//! The dispatch core of the worker pool.
//!
//! `PoolCore` decides everything about jobs and workers: which job a worker
//! takes next, when a worker stops, when a submission is refused. Whoever runs
//! the worker threads holds a `PoolCore` behind a lock, performs the step it
//! returns and reports back when a job has finished.
use crate::error::PoolError;
use std::collections::VecDeque;
use vstd::prelude::*;

verus! {

/// What a worker is doing.
#[derive(Debug, Clone, Copy, PartialEq, Eq, Structural)]
pub enum WorkerState {
    /// Waiting for a job.
    Idle,
    /// Running a job it took from the queue.
    Busy,
    /// Gone for good: the pool was closed and the queue ran dry.
    Stopped,
}

/// Where a submitted job is in its life, in the model.
pub enum JobState {
    Queued,
    /// Being run by the worker with this index.
    Running(nat),
    Done,
}

/// What a worker is told to do after asking for work.
pub enum Step<T> {
    /// Run this job, then report with `finish`.
    Run(T),
    /// Nothing to do yet: wait for a submission or for the pool to close.
    Wait,
    /// Leave the loop and end the thread.
    Stop,
}

/// The queue of jobs and the state of every worker of a fixed-size pool.
pub struct PoolCore<T> {
    workers: Vec<WorkerState>,
    queue: VecDeque<T>,
    open: bool,
    faults: u64,
    /// Every job ever submitted, in submission order.
    history: Ghost<Seq<T>>,
    /// How many jobs workers have taken from the queue.
    taken: Ghost<nat>,
    /// The state of each submitted job, by submission index.
    status: Ghost<Seq<JobState>>,
    /// For each busy worker, the submission index of its job.
    running: Ghost<Seq<nat>>,
}

impl<T> PoolCore<T> {
    /// The number of workers, fixed at construction.
    pub closed spec fn spec_size(&self) -> nat {
        self.workers@.len()
    }

    pub closed spec fn worker(&self, w: int) -> WorkerState {
        self.workers@[w]
    }

    pub closed spec fn is_open_spec(&self) -> bool {
        self.open
    }

    /// Jobs waiting in the queue, oldest first.
    pub closed spec fn queued(&self) -> Seq<T> {
        self.queue@
    }

    /// Every job submitted so far, in submission order.
    pub closed spec fn history(&self) -> Seq<T> {
        self.history@
    }

    /// How many jobs have been handed to workers.
    pub closed spec fn taken(&self) -> nat {
        self.taken@
    }

    /// The state of the job submitted in position `t`.
    pub closed spec fn job_state(&self, t: int) -> JobState {
        self.status@[t]
    }

    /// The submission index of the job that worker `w` runs.
    pub closed spec fn job_of(&self, w: int) -> nat {
        self.running@[w]
    }

    pub closed spec fn fault_count(&self) -> nat {
        self.faults as nat
    }

    pub open spec fn all_stopped(&self) -> bool {
        forall|w: int| 0 <= w < self.spec_size() ==> self.worker(w) == WorkerState::Stopped
    }

    /// `self` and `other` agree on everything the model shows.
    pub open spec fn same_model(&self, other: Self) -> bool {
        &&& self.spec_size() == other.spec_size()
        &&& self.is_open_spec() == other.is_open_spec()
        &&& self.queued() == other.queued()
        &&& self.history() == other.history()
        &&& self.taken() == other.taken()
        &&& self.fault_count() == other.fault_count()
        &&& forall|w: int|
            0 <= w < self.spec_size() ==> self.worker(w) == other.worker(w) && self.job_of(w)
                == other.job_of(w)
        &&& forall|t: int|
            0 <= t < self.history().len() ==> self.job_state(t) == other.job_state(t)
    }

    /// The invariant every pool keeps between operations.
    pub closed spec fn wf(&self) -> bool {
        let n = self.workers@.len();
        let h = self.history@.len();
        &&& n >= 1
        &&& self.status@.len() == h
        &&& self.running@.len() == n
        &&& self.taken@ <= h
        &&& self.queue@ =~= self.history@.subrange(self.taken@ as int, h as int)
        &&& forall|t: int|
            0 <= t < h ==> (#[trigger] self.status@[t] is Queued <==> t >= self.taken@)
        &&& forall|t: int|
            0 <= t < h && #[trigger] self.status@[t] is Running ==> {
                let w = self.status@[t]->Running_0;
                &&& w < n
                &&& self.workers@[w as int] == WorkerState::Busy
                &&& self.running@[w as int] == t
            }
        &&& forall|w: int|
            0 <= w < n && #[trigger] self.workers@[w] == WorkerState::Busy ==> {
                &&& self.running@[w] < self.taken@
                &&& self.status@[self.running@[w] as int] == JobState::Running(w as nat)
            }
        &&& forall|w: int|
            0 <= w < n && #[trigger] self.workers@[w] == WorkerState::Stopped ==> {
                &&& !self.open
                &&& self.queue@.len() == 0
            }
        &&& n == 1 ==> forall|t: int|
            0 <= t < self.taken@ ==> (#[trigger] self.status@[t] is Done || (t
                == self.taken@ - 1 && self.workers@[0] == WorkerState::Busy))
    }

    /// Creates a pool of `size` idle workers with an empty, open queue.
    pub fn new(size: usize) -> (r: core::result::Result<Self, PoolError>)
        ensures
            size == 0 <==> r == Err::<Self, PoolError>(PoolError::InvalidPoolSize),
            size >= 1 <==> r is Ok,
            r is Ok ==> {
                let p = r->Ok_0;
                &&& p.wf()
                &&& p.spec_size() == size
                &&& p.is_open_spec()
                &&& p.history() == Seq::<T>::empty()
                &&& p.queued() == Seq::<T>::empty()
                &&& p.taken() == 0
                &&& p.fault_count() == 0
                &&& forall|w: int| 0 <= w < size ==> p.worker(w) == WorkerState::Idle
            },
    {
        if size == 0 {
            return Err(PoolError::InvalidPoolSize);
        }
        let mut workers: Vec<WorkerState> = Vec::new();
        let mut i: usize = 0;
        while i < size
            invariant
                i <= size,
                workers@.len() == i,
                forall|w: int| 0 <= w < i ==> workers@[w] == WorkerState::Idle,
            decreases size - i,
        {
            workers.push(WorkerState::Idle);
            i = i + 1;
        }
        Ok(PoolCore {
            workers,
            queue: VecDeque::new(),
            open: true,
            faults: 0,
            history: Ghost(Seq::empty()),
            taken: Ghost(0),
            status: Ghost(Seq::empty()),
            running: Ghost(Seq::new(size as nat, |w: int| 0nat)),
        })
    }

    /// The number of workers.
    pub fn size(&self) -> (r: usize)
        requires
            self.wf(),
        ensures
            r == self.spec_size(),
            r >= 1,
    {
        self.workers.len()
    }

    /// Whether the pool still takes submissions.
    pub fn is_open(&self) -> (r: bool)
        ensures
            r == self.is_open_spec(),
    {
        self.open
    }

    /// How many jobs wait in the queue.
    pub fn pending(&self) -> (r: usize)
        ensures
            r == self.queued().len(),
    {
        self.queue.len()
    }

    /// How many jobs ended in a fault (saturating at `u64::MAX`).
    pub fn faults(&self) -> (r: u64)
        ensures
            r == self.fault_count(),
    {
        self.faults
    }

    /// The state of worker `w`.
    pub fn worker_state(&self, w: usize) -> (r: WorkerState)
        requires
            w < self.spec_size(),
        ensures
            r == self.worker(w as int),
    {
        self.workers[w]
    }

    /// Whether every worker has stopped.
    pub fn is_drained(&self) -> (r: bool)
        ensures
            r == self.all_stopped(),
    {
        let mut i: usize = 0;
        while i < self.workers.len()
            invariant
                i <= self.workers@.len(),
                forall|w: int| 0 <= w < i ==> self.workers@[w] == WorkerState::Stopped,
            decreases self.workers@.len() - i,
        {
            if self.workers[i] != WorkerState::Stopped {
                assert(self.worker(i as int) != WorkerState::Stopped);
                return false;
            }
            i = i + 1;
        }
        true
    }

    /// Puts `job` at the tail of the queue; refused once the pool is closed.
    pub fn submit(&mut self, job: T) -> (r: core::result::Result<(), PoolError>)
        requires
            old(self).wf(),
        ensures
            final(self).wf(),
            old(self).is_open_spec() <==> r is Ok,
            r is Err ==> r == Err::<(), PoolError>(PoolError::PoolClosed) && final(self).same_model(
                *old(self),
            ),
            r is Ok ==> {
                &&& final(self).history() == old(self).history().push(job)
                &&& final(self).queued() == old(self).queued().push(job)
                &&& final(self).job_state(old(self).history().len() as int) is Queued
                &&& final(self).taken() == old(self).taken()
                &&& final(self).is_open_spec()
                &&& final(self).fault_count() == old(self).fault_count()
                &&& final(self).spec_size() == old(self).spec_size()
                &&& forall|w: int|
                    0 <= w < old(self).spec_size() ==> final(self).worker(w) == old(self).worker(w)
                        && final(self).job_of(w) == old(self).job_of(w)
                &&& forall|t: int|
                    0 <= t < old(self).history().len() ==> final(self).job_state(t) == old(
                        self,
                    ).job_state(t)
            },
    {
        if !self.open {
            return Err(PoolError::PoolClosed);
        }
        proof {
            let old_h = self.history@;
            self.history@ = old_h.push(job);
            self.status@ = self.status@.push(JobState::Queued);
            assert(old_h.subrange(self.taken@ as int, old_h.len() as int).push(job)
                =~= self.history@.subrange(self.taken@ as int, self.history@.len() as int));
        }
        self.queue.push_back(job);
        assert(forall|t: int|
            0 <= t < self.history@.len() - 1 ==> self.status@[t] == old(self).status@[t]);
        Ok(())
    }

    /// Asks for work on behalf of idle worker `w`.
    ///
    /// The oldest queued job goes to `w`, which becomes busy. With the queue
    /// empty, `w` stops if the pool is closed and waits otherwise.
    pub fn next_job(&mut self, w: usize) -> (r: Step<T>)
        requires
            old(self).wf(),
            w < old(self).spec_size(),
            old(self).worker(w as int) == WorkerState::Idle,
        ensures
            final(self).wf(),
            final(self).history() == old(self).history(),
            final(self).is_open_spec() == old(self).is_open_spec(),
            final(self).fault_count() == old(self).fault_count(),
            final(self).spec_size() == old(self).spec_size(),
            forall|v: int|
                0 <= v < old(self).spec_size() && v != w ==> final(self).worker(v) == old(
                    self,
                ).worker(v) && final(self).job_of(v) == old(self).job_of(v),
            match r {
                Step::Run(job) => {
                    &&& old(self).queued().len() > 0
                    &&& job == old(self).queued()[0]
                    &&& job == old(self).history()[old(self).taken() as int]
                    &&& old(self).job_state(old(self).taken() as int) is Queued
                    &&& final(self).queued() == old(self).queued().drop_first()
                    &&& final(self).taken() == old(self).taken() + 1
                    &&& final(self).worker(w as int) == WorkerState::Busy
                    &&& final(self).job_of(w as int) == old(self).taken()
                    &&& final(self).job_state(old(self).taken() as int) == JobState::Running(
                        w as nat,
                    )
                    &&& forall|t: int|
                        0 <= t < old(self).history().len() && t != old(self).taken()
                            ==> final(self).job_state(t) == old(self).job_state(t)
                },
                Step::Stop => {
                    &&& old(self).queued().len() == 0
                    &&& !old(self).is_open_spec()
                    &&& final(self).worker(w as int) == WorkerState::Stopped
                    &&& final(self).queued() == old(self).queued()
                    &&& final(self).taken() == old(self).taken()
                    &&& forall|t: int|
                        0 <= t < old(self).history().len() ==> final(self).job_state(t) == old(
                            self,
                        ).job_state(t)
                },
                Step::Wait => {
                    &&& old(self).queued().len() == 0
                    &&& old(self).is_open_spec()
                    &&& final(self).same_model(*old(self))
                },
            },
    {
        match self.queue.pop_front() {
            Some(job) => {
                proof {
                    let t = self.taken@;
                    assert(old(self).queue@[0] == self.history@[t as int]);
                    self.taken@ = t + 1;
                    self.status@ = self.status@.update(t as int, JobState::Running(w as nat));
                    self.running@ = self.running@.update(w as int, t);
                    assert(self.queue@ =~= old(self).queue@.drop_first());
                    assert(self.queue@ =~= self.history@.subrange(
                        self.taken@ as int,
                        self.history@.len() as int,
                    ));
                }
                self.workers.set(w, WorkerState::Busy);
                Step::Run(job)
            },
            None => {
                if self.open {
                    Step::Wait
                } else {
                    self.workers.set(w, WorkerState::Stopped);
                    Step::Stop
                }
            },
        }
    }

    /// Reports that busy worker `w` has finished its job, with or without a
    /// fault. Either way the worker goes back to idle: a faulty job does not
    /// cost the pool a worker.
    pub fn finish(&mut self, w: usize, faulted: bool)
        requires
            old(self).wf(),
            w < old(self).spec_size(),
            old(self).worker(w as int) == WorkerState::Busy,
        ensures
            final(self).wf(),
            final(self).history() == old(self).history(),
            final(self).queued() == old(self).queued(),
            final(self).taken() == old(self).taken(),
            final(self).is_open_spec() == old(self).is_open_spec(),
            final(self).spec_size() == old(self).spec_size(),
            final(self).worker(w as int) == WorkerState::Idle,
            old(self).job_of(w as int) < old(self).history().len(),
            old(self).job_state(old(self).job_of(w as int) as int) == JobState::Running(w as nat),
            final(self).job_state(old(self).job_of(w as int) as int) is Done,
            forall|v: int|
                0 <= v < old(self).spec_size() && v != w ==> final(self).worker(v) == old(
                    self,
                ).worker(v) && final(self).job_of(v) == old(self).job_of(v),
            forall|t: int|
                0 <= t < old(self).history().len() && t != old(self).job_of(w as int)
                    ==> final(self).job_state(t) == old(self).job_state(t),
            final(self).fault_count() == if faulted && old(self).fault_count() < u64::MAX {
                old(self).fault_count() + 1
            } else {
                old(self).fault_count()
            },
    {
        proof {
            let t = self.running@[w as int];
            assert(self.workers@[w as int] == WorkerState::Busy);
            self.status@ = self.status@.update(t as int, JobState::Done);
        }
        self.workers.set(w, WorkerState::Idle);
        if faulted && self.faults < u64::MAX {
            self.faults = self.faults + 1;
        }
    }

    /// Closes the pool: later submissions are refused, and workers stop once
    /// the queue is empty. Returns whether the pool was open before.
    pub fn close(&mut self) -> (r: bool)
        requires
            old(self).wf(),
        ensures
            final(self).wf(),
            r == old(self).is_open_spec(),
            !final(self).is_open_spec(),
            final(self).history() == old(self).history(),
            final(self).queued() == old(self).queued(),
            final(self).taken() == old(self).taken(),
            final(self).fault_count() == old(self).fault_count(),
            final(self).spec_size() == old(self).spec_size(),
            forall|w: int|
                0 <= w < old(self).spec_size() ==> final(self).worker(w) == old(self).worker(w)
                    && final(self).job_of(w) == old(self).job_of(w),
            forall|t: int|
                0 <= t < old(self).history().len() ==> final(self).job_state(t) == old(
                    self,
                ).job_state(t),
    {
        let was_open = self.open;
        self.open = false;
        was_open
    }
}

/// Once every worker has stopped, every job ever submitted has been run to
/// its end: none was dropped and none is left in flight.
pub proof fn lemma_drained_pool_ran_everything<T>(p: PoolCore<T>)
    requires
        p.wf(),
        p.all_stopped(),
    ensures
        !p.is_open_spec(),
        p.queued().len() == 0,
        p.taken() == p.history().len(),
        forall|t: int| 0 <= t < p.history().len() ==> p.job_state(t) is Done,
{
    assert(p.worker(0) == WorkerState::Stopped);
    assert forall|t: int| 0 <= t < p.history().len() implies p.job_state(t) is Done by {
        assert(!(p.status@[t] is Queued));
        if p.status@[t] is Running {
            let w = p.status@[t]->Running_0;
            assert(p.worker(w as int) == WorkerState::Stopped);
        }
    }
}

/// Two busy workers never run the same job: each job taken from the queue is
/// held by exactly one worker.
pub proof fn lemma_one_worker_per_job<T>(p: PoolCore<T>, v: int, w: int)
    requires
        p.wf(),
        0 <= v < p.spec_size(),
        0 <= w < p.spec_size(),
        v != w,
        p.worker(v) == WorkerState::Busy,
        p.worker(w) == WorkerState::Busy,
    ensures
        p.job_of(v) != p.job_of(w),
        p.job_state(p.job_of(v) as int) == JobState::Running(v as nat),
        p.job_state(p.job_of(w) as int) == JobState::Running(w as nat),
{
    assert(p.workers@[v] == WorkerState::Busy);
    assert(p.workers@[w] == WorkerState::Busy);
}

/// With a single worker, jobs finish in the order they were submitted: when a
/// job is done, so is every job submitted before it.
pub proof fn lemma_single_worker_keeps_order<T>(p: PoolCore<T>, a: int, b: int)
    requires
        p.wf(),
        p.spec_size() == 1,
        0 <= a < b < p.history().len(),
        p.job_state(b) is Done,
    ensures
        p.job_state(a) is Done,
{
    assert(!(p.status@[b] is Queued));
    assert(p.status@[a] is Done || a == p.taken@ - 1);
}

/// While the pool is open it keeps every one of its workers: no worker has
/// stopped, whatever jobs ran or faulted before.
pub proof fn lemma_open_pool_keeps_all_workers<T>(p: PoolCore<T>)
    requires
        p.wf(),
        p.is_open_spec(),
    ensures
        forall|w: int| 0 <= w < p.spec_size() ==> p.worker(w) != WorkerState::Stopped,
{
    assert forall|w: int| 0 <= w < p.spec_size() implies p.worker(w) != WorkerState::Stopped by {
        if p.workers@[w] == WorkerState::Stopped {
        }
    }
}

/// Every running job runs on a worker of the pool, and two running jobs run on
/// two different workers: at most as many jobs as there are workers run at
/// once.
pub proof fn lemma_running_jobs_on_distinct_workers<T>(p: PoolCore<T>, a: int, b: int)
    requires
        p.wf(),
        0 <= a < p.history().len(),
        0 <= b < p.history().len(),
        a != b,
        p.job_state(a) is Running,
        p.job_state(b) is Running,
    ensures
        p.job_state(a)->Running_0 < p.spec_size(),
        p.job_state(b)->Running_0 < p.spec_size(),
        p.job_state(a)->Running_0 != p.job_state(b)->Running_0,
{
    assert(p.status@[a] is Running);
    assert(p.status@[b] is Running);
}

/// In every state each submitted job is in exactly one place: still in the
/// queue, at its place in submission order; running on exactly one worker,
/// which holds it; or done.
pub proof fn lemma_each_job_in_one_place<T>(p: PoolCore<T>, t: int)
    requires
        p.wf(),
        0 <= t < p.history().len(),
    ensures
        p.job_state(t) is Queued <==> t >= p.taken(),
        p.job_state(t) is Queued ==> p.queued()[t - p.taken()] == p.history()[t],
        p.job_state(t) is Running ==> {
            let w = p.job_state(t)->Running_0 as int;
            &&& w < p.spec_size()
            &&& p.worker(w) == WorkerState::Busy
            &&& p.job_of(w) == t
            &&& forall|v: int|
                0 <= v < p.spec_size() && v != w && p.worker(v) == WorkerState::Busy
                    ==> p.job_of(v) != t
        },
{
    assert(p.status@[t] is Queued <==> t >= p.taken@);
    if p.status@[t] is Running {
        let w = p.status@[t]->Running_0 as int;
        assert forall|v: int|
            0 <= v < p.spec_size() && v != w && p.worker(v) == WorkerState::Busy
                implies p.job_of(v) != t by {
            assert(p.workers@[v] == WorkerState::Busy);
        }
    }
}

} // verus!
