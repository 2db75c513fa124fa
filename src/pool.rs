//! The decision core of a fixed-size worker pool.
//!
//! A `ThreadPool` owns the shared queue of messages and the status of every
//! worker. The threads themselves live outside: a worker thread asks
//! `receive` for its next action, runs the job it is handed without holding
//! the pool, and reports back with `finish_job`. `shutdown` puts one
//! `Terminate` per worker behind all pending jobs, so every worker ends.
use std::collections::VecDeque;
use vstd::prelude::*;

verus! {

/// Returned by `ThreadPool::new` when asked for a pool without workers.
#[derive(Debug, Clone, Copy, PartialEq, Eq, Structural)]
pub struct PoolCreationError;

/// Returned by `ThreadPool::execute` once the pool has been shut down; the
/// job is dropped without being run.
#[derive(Debug, Clone, Copy, PartialEq, Eq, Structural)]
pub struct DeliveryError;

/// What travels through the shared queue.
pub enum Message<J> {
    NewJob(J),
    Terminate,
}

/// Where a worker stands in its loop.
#[derive(Debug, Clone, Copy, PartialEq, Eq, Structural)]
pub enum WorkerStatus {
    /// Blocked on the queue, ready to take the next message.
    Waiting,
    /// Running a job it took from the queue.
    Executing,
    /// Took its `Terminate`; it takes nothing more.
    Exited,
}

/// What a worker does next, as decided by `ThreadPool::receive`.
pub enum WorkerAction<J> {
    /// Run this job, then report with `finish_job`.
    Run(J),
    /// Leave the loop: the thread returns.
    Exit,
    /// The queue is empty: block until something is submitted.
    Wait,
}

/// Number of entries of `s` equal to `w`.
pub open spec fn count_status(s: Seq<WorkerStatus>, w: WorkerStatus) -> nat
    decreases s.len(),
{
    if s.len() == 0 {
        0
    } else {
        count_status(s.drop_last(), w) + if s.last() == w { 1nat } else { 0nat }
    }
}

/// Number of workers that have not exited.
pub open spec fn live_count(s: Seq<WorkerStatus>) -> nat {
    (s.len() - count_status(s, WorkerStatus::Exited)) as nat
}

/// Number of `Terminate` messages in `q`.
pub open spec fn terminate_count<J>(q: Seq<Message<J>>) -> nat
    decreases q.len(),
{
    if q.len() == 0 {
        0
    } else {
        terminate_count(q.drop_last()) + if q.last() is Terminate { 1nat } else { 0nat }
    }
}

/// The jobs carried by the first `n` messages of `q`.
pub open spec fn jobs_of<J>(q: Seq<Message<J>>, n: nat) -> Seq<J> {
    Seq::new(n, |i: int| q[i]->NewJob_0)
}

proof fn lemma_count_status_bound(s: Seq<WorkerStatus>, w: WorkerStatus)
    ensures
        count_status(s, w) <= s.len(),
    decreases s.len(),
{
    if s.len() > 0 {
        lemma_count_status_bound(s.drop_last(), w);
    }
}

proof fn lemma_count_status_update(s: Seq<WorkerStatus>, i: int, v: WorkerStatus, w: WorkerStatus)
    requires
        0 <= i < s.len(),
    ensures
        count_status(s.update(i, v), w) + (if s[i] == w { 1int } else { 0int })
            == count_status(s, w) + (if v == w { 1int } else { 0int }),
    decreases s.len(),
{
    let t = s.update(i, v);
    if i == s.len() - 1 {
        assert(t.drop_last() =~= s.drop_last());
    } else {
        assert(t.drop_last() =~= s.drop_last().update(i, v));
        lemma_count_status_update(s.drop_last(), i, v, w);
    }
}

proof fn lemma_count_status_none(s: Seq<WorkerStatus>, w: WorkerStatus)
    requires
        forall|i: int| 0 <= i < s.len() ==> s[i] != w,
    ensures
        count_status(s, w) == 0,
    decreases s.len(),
{
    if s.len() > 0 {
        lemma_count_status_none(s.drop_last(), w);
    }
}

proof fn lemma_count_status_all(s: Seq<WorkerStatus>, w: WorkerStatus)
    requires
        count_status(s, w) == s.len(),
    ensures
        forall|i: int| 0 <= i < s.len() ==> s[i] == w,
    decreases s.len(),
{
    if s.len() > 0 {
        lemma_count_status_bound(s.drop_last(), w);
        lemma_count_status_all(s.drop_last(), w);
        assert forall|i: int| 0 <= i < s.len() implies s[i] == w by {
            if i < s.len() - 1 {
                assert(s[i] == s.drop_last()[i]);
            }
        }
    }
}

proof fn lemma_terminate_count_split<J>(q: Seq<Message<J>>, n: int)
    requires
        0 <= n <= q.len(),
        forall|i: int| 0 <= i < n ==> q[i] is NewJob,
        forall|i: int| n <= i < q.len() ==> q[i] is Terminate,
    ensures
        terminate_count(q) == q.len() - n,
    decreases q.len(),
{
    if q.len() > n {
        lemma_terminate_count_split(q.drop_last(), n);
    } else if q.len() > 0 {
        lemma_terminate_count_none(q);
    } else {
    }
}

proof fn lemma_terminate_count_none<J>(q: Seq<Message<J>>)
    requires
        forall|i: int| 0 <= i < q.len() ==> q[i] is NewJob,
    ensures
        terminate_count(q) == 0,
    decreases q.len(),
{
    if q.len() > 0 {
        lemma_terminate_count_none(q.drop_last());
    }
}

/// The shared state of a worker pool: the message queue, the status of each
/// worker, and a ghost record of the jobs submitted, started and completed.
pub struct ThreadPool<J> {
    size: usize,
    accepting: bool,
    queue: VecDeque<Message<J>>,
    status: Vec<WorkerStatus>,
    submitted: Ghost<Seq<J>>,
    started: Ghost<Seq<J>>,
    completed: Ghost<nat>,
}

impl<J> ThreadPool<J> {
    /// The number of workers, fixed at construction.
    pub closed spec fn spec_size(&self) -> nat {
        self.size as nat
    }

    /// Whether `execute` still takes jobs (no shutdown yet).
    pub closed spec fn spec_accepting(&self) -> bool {
        self.accepting
    }

    /// The messages in the queue, front first.
    pub closed spec fn queue(&self) -> Seq<Message<J>> {
        self.queue@
    }

    /// The status of each worker, by id.
    pub closed spec fn status(&self) -> Seq<WorkerStatus> {
        self.status@
    }

    /// Every job accepted by `execute`, in submission order.
    pub closed spec fn submitted(&self) -> Seq<J> {
        self.submitted@
    }

    /// Every job handed to a worker, in the order they were handed out.
    pub closed spec fn started(&self) -> Seq<J> {
        self.started@
    }

    /// How many jobs workers have reported finished.
    pub closed spec fn completed(&self) -> nat {
        self.completed@
    }

    /// Number of jobs still in the queue: all of it while accepting, else
    /// what stands before the terminate messages.
    pub closed spec fn pending(&self) -> nat {
        if self.accepting {
            self.queue@.len()
        } else {
            (self.queue@.len() - live_count(self.status@)) as nat
        }
    }

    /// Every worker has exited.
    pub open spec fn all_exited(&self) -> bool {
        forall|i: int| 0 <= i < self.status().len() ==> self.status()[i] == WorkerStatus::Exited
    }

    /// The pool's invariant.
    pub closed spec fn wf(&self) -> bool {
        let q = self.queue@;
        let s = self.status@;
        let live = live_count(s);
        &&& self.size > 0
        &&& s.len() == self.size
        &&& self.accepting ==> {
            &&& forall|i: int| 0 <= i < q.len() ==> q[i] is NewJob
            &&& forall|i: int| 0 <= i < s.len() ==> s[i] != WorkerStatus::Exited
        }
        &&& !self.accepting ==> {
            &&& q.len() >= live
            &&& forall|i: int| 0 <= i < q.len() - live ==> q[i] is NewJob
            &&& forall|i: int| q.len() - live <= i < q.len() ==> q[i] is Terminate
        }
        &&& live < s.len() ==> q.len() == live
        &&& self.submitted@ == self.started@ + jobs_of(q, self.pending())
        &&& self.started@.len() == self.completed@ + count_status(s, WorkerStatus::Executing)
    }

    /// Creates a pool of `size` workers, all waiting on an empty queue.
    /// A pool without workers is refused.
    pub fn new(size: usize) -> (r: Result<ThreadPool<J>, PoolCreationError>)
        ensures
            size == 0 <==> r is Err,
            r matches Ok(p) ==> {
                &&& p.wf()
                &&& p.spec_size() == size
                &&& p.spec_accepting()
                &&& p.queue().len() == 0
                &&& p.status().len() == size
                &&& forall|i: int| 0 <= i < size ==> p.status()[i] == WorkerStatus::Waiting
                &&& live_count(p.status()) == size
                &&& p.submitted().len() == 0
                &&& p.started().len() == 0
                &&& p.completed() == 0
            },
    {
        if size == 0 {
            return Err(PoolCreationError);
        }
        let mut status: Vec<WorkerStatus> = Vec::with_capacity(size);
        let mut id: usize = 0;
        while id < size
            invariant
                id <= size,
                status@.len() == id,
                forall|i: int| 0 <= i < id ==> status@[i] == WorkerStatus::Waiting,
            decreases size - id,
        {
            status.push(WorkerStatus::Waiting);
            id = id + 1;
        }
        proof {
            lemma_count_status_none(status@, WorkerStatus::Exited);
            lemma_count_status_none(status@, WorkerStatus::Executing);
        }
        let p = ThreadPool {
            size,
            accepting: true,
            queue: VecDeque::new(),
            status,
            submitted: Ghost(Seq::empty()),
            started: Ghost(Seq::empty()),
            completed: Ghost(0),
        };
        assert(p.submitted@ =~= p.started@ + jobs_of(p.queue@, p.pending()));
        Ok(p)
    }

    /// The number of workers.
    pub fn size(&self) -> (r: usize)
        ensures
            r == self.spec_size(),
    {
        self.size
    }

    /// Whether the pool still takes jobs.
    pub fn is_accepting(&self) -> (r: bool)
        ensures
            r == self.spec_accepting(),
    {
        self.accepting
    }

    /// Queues `job` behind everything submitted before it. After shutdown
    /// the job is refused and nothing changes.
    pub fn execute(&mut self, job: J) -> (r: Result<(), DeliveryError>)
        requires
            old(self).wf(),
        ensures
            final(self).wf(),
            r is Ok <==> old(self).spec_accepting(),
            r is Ok ==> {
                &&& final(self).queue() == old(self).queue().push(Message::NewJob(job))
                &&& final(self).submitted() == old(self).submitted().push(job)
            },
            r is Err ==> final(self).queue() == old(self).queue() && final(self).submitted()
                == old(self).submitted(),
            final(self).spec_size() == old(self).spec_size(),
            final(self).spec_accepting() == old(self).spec_accepting(),
            final(self).status() == old(self).status(),
            final(self).started() == old(self).started(),
            final(self).completed() == old(self).completed(),
    {
        if !self.accepting {
            return Err(DeliveryError);
        }
        let ghost q0 = self.queue@;
        self.queue.push_back(Message::NewJob(job));
        proof {
            lemma_count_status_none(self.status@, WorkerStatus::Exited);
            self.submitted@ = self.submitted@.push(job);
            assert(jobs_of(self.queue@, self.pending()) =~= jobs_of(q0, q0.len()).push(job));
            assert(self.submitted@ =~= self.started@ + jobs_of(self.queue@, self.pending()));
        }
        Ok(())
    }

    /// Starts the shutdown: puts one `Terminate` per worker behind all
    /// pending jobs and refuses further jobs. Shutting down twice is not
    /// allowed.
    pub fn shutdown(&mut self)
        requires
            old(self).wf(),
            old(self).spec_accepting(),
        ensures
            final(self).wf(),
            !final(self).spec_accepting(),
            final(self).queue() == old(self).queue() + Seq::new(
                old(self).spec_size(),
                |i: int| Message::<J>::Terminate,
            ),
            final(self).spec_size() == old(self).spec_size(),
            final(self).status() == old(self).status(),
            final(self).submitted() == old(self).submitted(),
            final(self).started() == old(self).started(),
            final(self).completed() == old(self).completed(),
    {
        let ghost q0 = self.queue@;
        proof {
            lemma_count_status_none(self.status@, WorkerStatus::Exited);
        }
        let mut k: usize = 0;
        while k < self.size
            invariant
                k <= self.size,
                self.size == old(self).size,
                self.accepting,
                self.status@ == old(self).status@,
                self.submitted@ == old(self).submitted@,
                self.started@ == old(self).started@,
                self.completed@ == old(self).completed@,
                count_status(self.status@, WorkerStatus::Exited) == 0,
                self.queue@ == q0 + Seq::new(k as nat, |i: int| Message::<J>::Terminate),
            decreases self.size - k,
        {
            self.queue.push_back(Message::Terminate);
            proof {
                assert(q0 + Seq::new((k + 1) as nat, |i: int| Message::<J>::Terminate) =~= (q0
                    + Seq::new(k as nat, |i: int| Message::<J>::Terminate)).push(
                    Message::Terminate,
                ));
            }
            k = k + 1;
        }
        self.accepting = false;
        assert(jobs_of(self.queue@, self.pending()) =~= jobs_of(q0, q0.len()));
    }

    /// Takes the next message for worker `id`, which must be waiting: a job
    /// to run, the order to exit, or, on an empty queue, to wait.
    pub fn receive(&mut self, id: usize) -> (r: WorkerAction<J>)
        requires
            old(self).wf(),
            id < old(self).spec_size(),
            old(self).status()[id as int] == WorkerStatus::Waiting,
        ensures
            final(self).wf(),
            final(self).spec_size() == old(self).spec_size(),
            final(self).spec_accepting() == old(self).spec_accepting(),
            final(self).submitted() == old(self).submitted(),
            final(self).completed() == old(self).completed(),
            old(self).queue().len() == 0 ==> {
                &&& r is Wait
                &&& final(self).queue() == old(self).queue()
                &&& final(self).status() == old(self).status()
                &&& final(self).started() == old(self).started()
            },
            old(self).queue().len() > 0 ==> final(self).queue() == old(self).queue().drop_first(),
            old(self).queue().len() > 0 && old(self).queue()[0] is NewJob ==> {
                &&& r == WorkerAction::Run(old(self).queue()[0]->NewJob_0)
                &&& final(self).status() == old(self).status().update(
                    id as int,
                    WorkerStatus::Executing,
                )
                &&& final(self).started() == old(self).started().push(
                    old(self).queue()[0]->NewJob_0,
                )
            },
            old(self).queue().len() > 0 && old(self).queue()[0] is Terminate ==> {
                &&& r is Exit
                &&& final(self).status() == old(self).status().update(
                    id as int,
                    WorkerStatus::Exited,
                )
                &&& final(self).started() == old(self).started()
            },
    {
        let ghost q0 = self.queue@;
        let ghost s0 = self.status@;
        let ghost p0 = self.pending();
        proof {
            if self.accepting {
                lemma_count_status_none(s0, WorkerStatus::Exited);
            }
        }
        match self.queue.pop_front() {
            None => WorkerAction::Wait,
            Some(Message::NewJob(job)) => {
                self.status.set(id, WorkerStatus::Executing);
                proof {
                    if !self.accepting && q0.len() <= live_count(s0) {
                        assert(q0[0] is Terminate);
                    }
                    lemma_count_status_update(s0, id as int, WorkerStatus::Executing, WorkerStatus::Executing);
                    lemma_count_status_update(s0, id as int, WorkerStatus::Executing, WorkerStatus::Exited);
                    lemma_count_status_bound(s0, WorkerStatus::Exited);
                    self.started@ = self.started@.push(job);
                    assert(jobs_of(q0, p0) =~= seq![job] + jobs_of(self.queue@, self.pending()));
                    assert(self.submitted@ =~= self.started@ + jobs_of(self.queue@, self.pending()));
                }
                WorkerAction::Run(job)
            },
            Some(Message::Terminate) => {
                self.status.set(id, WorkerStatus::Exited);
                proof {
                    if q0.len() > live_count(s0) {
                        assert(q0[0] is NewJob);
                    }
                    lemma_count_status_update(s0, id as int, WorkerStatus::Exited, WorkerStatus::Executing);
                    lemma_count_status_update(s0, id as int, WorkerStatus::Exited, WorkerStatus::Exited);
                    lemma_count_status_bound(s0, WorkerStatus::Exited);
                    assert(jobs_of(self.queue@, self.pending()) =~= jobs_of(q0, p0));
                }
                WorkerAction::Exit
            },
        }
    }

    /// Worker `id` reports that the job it was running has finished.
    pub fn finish_job(&mut self, id: usize)
        requires
            old(self).wf(),
            id < old(self).spec_size(),
            old(self).status()[id as int] == WorkerStatus::Executing,
        ensures
            final(self).wf(),
            final(self).status() == old(self).status().update(id as int, WorkerStatus::Waiting),
            final(self).completed() == old(self).completed() + 1,
            final(self).spec_size() == old(self).spec_size(),
            final(self).spec_accepting() == old(self).spec_accepting(),
            final(self).queue() == old(self).queue(),
            final(self).submitted() == old(self).submitted(),
            final(self).started() == old(self).started(),
    {
        let ghost s0 = self.status@;
        self.status.set(id, WorkerStatus::Waiting);
        proof {
            lemma_count_status_update(s0, id as int, WorkerStatus::Waiting, WorkerStatus::Executing);
            lemma_count_status_update(s0, id as int, WorkerStatus::Waiting, WorkerStatus::Exited);
            self.completed@ = self.completed@ + 1;
        }
    }

    /// The status of worker `id`.
    pub fn worker_status(&self, id: usize) -> (r: WorkerStatus)
        requires
            id < self.spec_size(),
            self.wf(),
        ensures
            r == self.status()[id as int],
    {
        self.status[id]
    }

    /// Whether every worker has exited.
    pub fn is_shut_down(&self) -> (r: bool)
        requires
            self.wf(),
        ensures
            r == self.all_exited(),
    {
        let mut i: usize = 0;
        while i < self.size
            invariant
                self.wf(),
                i <= self.size,
                forall|j: int| 0 <= j < i ==> self.status@[j] == WorkerStatus::Exited,
            decreases self.size - i,
        {
            if self.status[i] != WorkerStatus::Exited {
                return false;
            }
            i = i + 1;
        }
        true
    }
}

proof fn lemma_count_status_full(s: Seq<WorkerStatus>, w: WorkerStatus)
    requires
        forall|i: int| 0 <= i < s.len() ==> s[i] == w,
    ensures
        count_status(s, w) == s.len(),
    decreases s.len(),
{
    if s.len() > 0 {
        lemma_count_status_full(s.drop_last(), w);
    }
}

/// Once every worker has exited, the queue is empty, every submitted job has
/// been handed to a worker exactly once and in submission order, and every
/// one of them has finished.
pub proof fn lemma_all_exited_all_jobs_done<J>(p: ThreadPool<J>)
    requires
        p.wf(),
        p.all_exited(),
    ensures
        !p.spec_accepting(),
        p.queue().len() == 0,
        p.started() == p.submitted(),
        p.completed() == p.submitted().len(),
{
    let s = p.status@;
    lemma_count_status_full(s, WorkerStatus::Exited);
    lemma_count_status_none(s, WorkerStatus::Executing);
    assert(s[0] == WorkerStatus::Exited);
    assert(jobs_of(p.queue@, p.pending()) =~= Seq::<J>::empty());
    assert(p.submitted@ =~= p.started@);
}

/// Jobs are handed to workers in the order they were submitted, each at
/// most once: what has started is a prefix of what was submitted.
pub proof fn lemma_jobs_start_in_submission_order<J>(p: ThreadPool<J>)
    requires
        p.wf(),
    ensures
        p.started().len() <= p.submitted().len(),
        p.submitted().subrange(0, p.started().len() as int) == p.started(),
{
    assert(p.submitted().subrange(0, p.started().len() as int) =~= p.started());
}

/// With a single worker, a job starts only after the one before it has
/// finished, so jobs run one at a time in submission order.
pub proof fn lemma_single_worker_runs_in_order<J>(p: ThreadPool<J>)
    requires
        p.wf(),
        p.spec_size() == 1,
    ensures
        p.started().len() <= p.completed() + 1,
        p.submitted().subrange(0, p.started().len() as int) == p.started(),
{
    lemma_count_status_bound(p.status@, WorkerStatus::Executing);
    lemma_jobs_start_in_submission_order(p);
}

/// After shutdown the queue holds exactly one `Terminate` for each worker
/// that has not exited, and all of them stand behind every pending job, so
/// every worker is eventually told to exit and none waits forever.
pub proof fn lemma_shutdown_reaches_every_worker<J>(p: ThreadPool<J>)
    requires
        p.wf(),
        !p.spec_accepting(),
    ensures
        terminate_count(p.queue()) == live_count(p.status()),
        forall|i: int, j: int|
            0 <= i < j < p.queue().len() && p.queue()[i] is Terminate ==> p.queue()[j] is Terminate,
{
    let q = p.queue@;
    lemma_terminate_count_split(q, q.len() - live_count(p.status@));
}

} // verus!
