//! The worker-pool supervisor, modelled sequentially.
//!
//! The pool owns a FIFO queue of messages (a job or a stop marker), a set of
//! workers, and four progress counters.  Jobs are identified by the number
//! they received on submission; running them is the embedding program's
//! business, so a worker's life is split into the two decision steps of its
//! loop: `worker_poll` (take the next message and act on it) and
//! `worker_finish` (record the outcome of the job it was running).  The two
//! shutdown protocols close the intake and drain every worker to its
//! `Stopped` state.

use vstd::prelude::*;
use vstd::string::StringExecFns;
use std::collections::VecDeque;
use crate::textutil;

verus! {

/// The largest pool size accepted by `build`; a fixed design ceiling.
pub const MAX_POOL_SIZE: usize = 1000;

/// Why pool construction was refused.
#[derive(Debug, Clone, Copy, PartialEq, Eq, Structural)]
pub enum PoolCreationError {
    /// A pool needs at least one worker.
    ZeroSize,
    /// The requested size (carried here) exceeds `MAX_POOL_SIZE`.
    TooLarge(usize),
}

impl PoolCreationError {
    /// The human-readable description of the refusal.
    pub fn message(&self) -> (r: String)
        ensures
            *self is ZeroSize ==> r@ == "线程池大小不能为0"@,
            (self matches PoolCreationError::TooLarge(size) ==> r@ == "线程池大小 "@
                + textutil::dec_digits(*size as int) + " 超过最大限制 1000"@),
    {
        match self {
            PoolCreationError::ZeroSize => String::from_str("线程池大小不能为0"),
            PoolCreationError::TooLarge(size) => {
                let mut s = String::from_str("线程池大小 ");
                textutil::push_decimal(&mut s, *size);
                s.append(" 超过最大限制 1000");
                proof {
                    assert(s@ =~= "线程池大小 "@ + textutil::dec_digits(*size as int)
                        + " 超过最大限制 1000"@);
                }
                s
            },
        }
    }
}

/// Why a submission was refused.
#[derive(Debug, Clone, Copy, PartialEq, Eq, Structural)]
pub enum SubmitError {
    /// The pool no longer accepts work: a shutdown protocol already closed it.
    SubmitAfterShutdown,
}

/// What travels on the queue: a submitted job (by its id) or a stop marker.
#[derive(Debug, Clone, Copy, PartialEq, Eq, Structural)]
pub enum Message {
    NewJob(usize),
    Terminate,
}

/// The externally visible phase of one worker.
#[derive(Debug, Clone, Copy, PartialEq, Eq, Structural)]
pub enum WorkerState {
    Idle,
    Executing(usize),
    Stopped,
}

/// What a polling worker is told to do next.
#[derive(Debug, Clone, Copy, PartialEq, Eq, Structural)]
pub enum WorkerAction {
    /// Run the job with this id, then report back through `worker_finish`.
    RunJob(usize),
    /// Leave the loop: a stop marker arrived or the closed queue ran dry.
    Stop,
    /// Nothing to do yet: the queue is empty but still open.
    Park,
}

/// One persistent worker: a stable id and its current phase.
pub struct Worker {
    id: usize,
    state: WorkerState,
}

/// The pool supervisor: workers, intake flag, message queue, counters.
pub struct ThreadPool {
    workers: Vec<Worker>,
    open: bool,
    queue: VecDeque<Message>,
    submitted: usize,
    completed: usize,
    failed: usize,
    active: usize,
}

/// How many of the queued messages carry a job.
pub open spec fn pending_jobs(q: Seq<Message>) -> int
    decreases q.len(),
{
    if q.len() == 0 {
        0
    } else {
        (if q[0] is NewJob { 1int } else { 0int }) + pending_jobs(q.drop_first())
    }
}

/// How many of the queued messages are stop markers.
pub open spec fn pending_terminates(q: Seq<Message>) -> int
    decreases q.len(),
{
    if q.len() == 0 {
        0
    } else {
        (if q[0] is Terminate { 1int } else { 0int }) + pending_terminates(q.drop_first())
    }
}

/// No job stands behind a stop marker: markers are only ever appended after
/// the intake is closed, so the queue is always jobs first, then markers.
pub open spec fn jobs_before_terminates(q: Seq<Message>) -> bool {
    forall|i: int, j: int|
        0 <= i <= j < q.len() && (#[trigger] q[i]) is Terminate ==> !((#[trigger] q[j]) is NewJob)
}

/// How many workers are currently running a job.
pub open spec fn num_executing(ws: Seq<WorkerState>) -> int
    decreases ws.len(),
{
    if ws.len() == 0 {
        0
    } else {
        (if ws[0] is Executing { 1int } else { 0int }) + num_executing(ws.drop_first())
    }
}

/// How many workers have not yet left their loop.
pub open spec fn num_not_stopped(ws: Seq<WorkerState>) -> int
    decreases ws.len(),
{
    if ws.len() == 0 {
        0
    } else {
        (if ws[0] is Stopped { 0int } else { 1int }) + num_not_stopped(ws.drop_first())
    }
}

/// Every worker has left its loop.
pub open spec fn all_stopped(ws: Seq<WorkerState>) -> bool {
    forall|i: int| 0 <= i < ws.len() ==> (#[trigger] ws[i]) is Stopped
}

impl Worker {
    /// The worker's stable id.
    pub closed spec fn spec_id(&self) -> int {
        self.id as int
    }

    /// The worker's current phase.
    pub closed spec fn spec_state(&self) -> WorkerState {
        self.state
    }
}

impl ThreadPool {
    /// The number of workers, fixed at construction.
    pub closed spec fn spec_size(&self) -> int {
        self.workers@.len() as int
    }

    /// Whether the intake is still open (no shutdown protocol has run).
    pub closed spec fn is_open(&self) -> bool {
        self.open
    }

    /// The queued messages, oldest first.
    pub closed spec fn spec_queue(&self) -> Seq<Message> {
        self.queue@
    }

    /// The phase of each worker, by worker id.
    pub closed spec fn worker_states(&self) -> Seq<WorkerState> {
        self.workers@.map_values(|w: Worker| w.state)
    }

    /// Jobs accepted so far.
    pub closed spec fn spec_submitted(&self) -> int {
        self.submitted as int
    }

    /// Jobs that ran to completion.
    pub closed spec fn spec_completed(&self) -> int {
        self.completed as int
    }

    /// Jobs whose run was reported as a failure.
    pub closed spec fn spec_failed(&self) -> int {
        self.failed as int
    }

    /// Jobs currently being run by some worker.
    pub closed spec fn spec_active(&self) -> int {
        self.active as int
    }

    /// Well-formedness: every accepted job is accounted for exactly once
    /// (done, failed, running, or still queued), the active counter agrees
    /// with the worker phases, ids are the workers' positions, and an open
    /// pool has no stop markers and no stopped workers.
    pub closed spec fn wf(&self) -> bool {
        &&& 1 <= self.workers@.len() <= MAX_POOL_SIZE
        &&& self.active as int == num_executing(self.worker_states())
        &&& self.submitted as int == self.completed as int + self.failed as int
            + self.active as int + pending_jobs(self.queue@)
        &&& forall|i: int|
            0 <= i < self.workers@.len() ==> (#[trigger] self.workers@[i]).id as int == i
        &&& jobs_before_terminates(self.queue@)
        &&& pending_terminates(self.queue@) <= num_not_stopped(self.worker_states())
        &&& self.open ==> pending_terminates(self.queue@) == 0
        &&& self.open ==> forall|i: int|
            0 <= i < self.worker_states().len() ==> !((#[trigger] self.worker_states()[i]) is Stopped)
        &&& num_not_stopped(self.worker_states()) == 0 ==> pending_jobs(self.queue@) == 0
    }

    /// A freshly built pool: everything zero, all workers idle, intake open.
    pub open spec fn fresh(&self, size: usize) -> bool {
        &&& self.wf()
        &&& self.spec_size() == size
        &&& self.is_open()
        &&& self.spec_queue() == Seq::<Message>::empty()
        &&& self.spec_submitted() == 0
        &&& self.spec_completed() == 0
        &&& self.spec_failed() == 0
        &&& self.spec_active() == 0
        &&& forall|i: int|
            0 <= i < self.worker_states().len() ==> (#[trigger] self.worker_states()[i]) is Idle
    }

    /// Build a pool of `size` workers.  Succeeds exactly on sizes in
    /// `1..=MAX_POOL_SIZE`; zero and oversized requests are refused with the
    /// matching error.
    pub fn build(size: usize) -> (r: Result<ThreadPool, PoolCreationError>)
        ensures
            size == 0 ==> r == Result::<ThreadPool, PoolCreationError>::Err(
                PoolCreationError::ZeroSize,
            ),
            size > MAX_POOL_SIZE ==> r == Result::<ThreadPool, PoolCreationError>::Err(
                PoolCreationError::TooLarge(size),
            ),
            1 <= size <= MAX_POOL_SIZE ==> r is Ok && r.unwrap().fresh(size),
    {
        if size == 0 {
            return Err(PoolCreationError::ZeroSize);
        }
        if size > MAX_POOL_SIZE {
            return Err(PoolCreationError::TooLarge(size));
        }

        let mut workers: Vec<Worker> = Vec::with_capacity(size);
        for i in 0..size
            invariant
                workers@.len() == i,
                forall|j: int|
                    0 <= j < i ==> (#[trigger] workers@[j]).id as int == j
                        && workers@[j].state is Idle,
        {
            workers.push(Worker { id: i, state: WorkerState::Idle });
        }

        let pool = ThreadPool {
            workers,
            open: true,
            queue: VecDeque::new(),
            submitted: 0,
            completed: 0,
            failed: 0,
            active: 0,
        };
        proof {
            assert(forall|i: int|
                0 <= i < pool.worker_states().len() ==> (#[trigger] pool.worker_states()[i])
                    is Idle);
            lemma_counts_all_idle(pool.worker_states());
        }
        Ok(pool)
    }

    /// Build a pool of `size` workers, for callers that know the size is
    /// acceptable.
    pub fn new(size: usize) -> (p: ThreadPool)
        requires
            1 <= size <= MAX_POOL_SIZE,
        ensures
            p.fresh(size),
    {
        match ThreadPool::build(size) {
            Ok(pool) => pool,
            Err(_) => {
                proof {
                    assert(false);
                }
                vstd::pervasive::unreached()
            },
        }
    }

    /// The number of workers.
    pub fn size(&self) -> (r: usize)
        ensures
            r as int == self.spec_size(),
    {
        self.workers.len()
    }

    /// Jobs currently being run.
    pub fn active_count(&self) -> (r: usize)
        ensures
            r as int == self.spec_active(),
    {
        self.active
    }

    /// Jobs that ran to completion.
    pub fn completed_count(&self) -> (r: usize)
        ensures
            r as int == self.spec_completed(),
    {
        self.completed
    }

    /// Jobs whose run failed.
    pub fn failed_count(&self) -> (r: usize)
        ensures
            r as int == self.spec_failed(),
    {
        self.failed
    }

    /// Jobs accepted so far.
    pub fn submitted_count(&self) -> (r: usize)
        ensures
            r as int == self.spec_submitted(),
    {
        self.submitted
    }

    /// Accept one job for execution.  On an open pool the job gets the next
    /// id, the submission counter moves up by one, and a job message joins
    /// the back of the queue; on a closed pool nothing changes and the
    /// caller gets the typed refusal.
    pub fn execute(&mut self) -> (r: Result<usize, SubmitError>)
        requires
            old(self).wf(),
            old(self).spec_submitted() < usize::MAX as int,
        ensures
            final(self).wf(),
            old(self).is_open() ==> {
                &&& r is Ok
                &&& r.unwrap() as int == old(self).spec_submitted()
                &&& final(self).spec_submitted() == old(self).spec_submitted() + 1
                &&& final(self).spec_queue() == old(self).spec_queue().push(
                    Message::NewJob(r.unwrap()),
                )
                &&& final(self).spec_size() == old(self).spec_size()
                &&& final(self).is_open()
                &&& final(self).spec_completed() == old(self).spec_completed()
                &&& final(self).spec_failed() == old(self).spec_failed()
                &&& final(self).spec_active() == old(self).spec_active()
                &&& final(self).worker_states() == old(self).worker_states()
            },
            !old(self).is_open() ==> r == Result::<usize, SubmitError>::Err(
                SubmitError::SubmitAfterShutdown,
            ) && *final(self) == *old(self),
    {
        if !self.open {
            return Err(SubmitError::SubmitAfterShutdown);
        }
        let id = self.submitted;
        self.submitted = self.submitted + 1;
        self.queue.push_back(Message::NewJob(id));
        proof {
            lemma_counts_push(old(self).queue@, Message::NewJob(id));
            lemma_no_terminates_when_zero(old(self).queue@);
            assert(jobs_before_terminates(self.queue@)) by {
                assert(forall|i: int|
                    0 <= i < old(self).queue@.len() ==> #[trigger] self.queue@[i] == old(
                        self,
                    ).queue@[i]);
            }
            lemma_num_not_stopped_positive(self.worker_states(), 0);
        }
        Ok(id)
    }

    /// The phase worker `w` is currently in.
    pub fn worker_state(&self, w: usize) -> (s: WorkerState)
        requires
            w < self.spec_size(),
        ensures
            s == self.worker_states()[w as int],
    {
        self.workers[w].state
    }

    /// Move worker `w` to phase `s`, leaving everything else alone.
    fn set_worker_state(&mut self, w: usize, s: WorkerState)
        requires
            w < old(self).spec_size(),
        ensures
            final(self).worker_states() == old(self).worker_states().update(w as int, s),
            final(self).workers@.len() == old(self).workers@.len(),
            forall|i: int|
                0 <= i < final(self).workers@.len() ==> (#[trigger] final(self).workers@[i]).id
                    == old(self).workers@[i].id,
            final(self).open == old(self).open,
            final(self).queue == old(self).queue,
            final(self).submitted == old(self).submitted,
            final(self).completed == old(self).completed,
            final(self).failed == old(self).failed,
            final(self).active == old(self).active,
    {
        let worker = &mut self.workers[w];
        worker.state = s;
        proof {
            assert(final(self).worker_states() =~= old(self).worker_states().update(
                w as int,
                s,
            ));
        }
    }

    /// One worker's polling step: take the message at the head of the queue
    /// and act on it.  A job message moves the worker to `Executing` and
    /// tells it to run the job; a stop marker, or a closed and empty queue,
    /// moves it to `Stopped`; an open but empty queue tells it to wait.
    pub fn worker_poll(&mut self, w: usize) -> (a: WorkerAction)
        requires
            old(self).wf(),
            w < old(self).spec_size(),
            old(self).worker_states()[w as int] is Idle,
        ensures
            final(self).wf(),
            final(self).spec_size() == old(self).spec_size(),
            final(self).is_open() == old(self).is_open(),
            final(self).spec_submitted() == old(self).spec_submitted(),
            final(self).spec_completed() == old(self).spec_completed(),
            final(self).spec_failed() == old(self).spec_failed(),
            old(self).spec_queue().len() > 0 ==> (old(self).spec_queue()[0] matches
                Message::NewJob(j) ==> {
                &&& a == WorkerAction::RunJob(j)
                &&& final(self).spec_queue() == old(self).spec_queue().drop_first()
                &&& final(self).worker_states() == old(self).worker_states().update(
                    w as int,
                    WorkerState::Executing(j),
                )
                &&& final(self).spec_active() == old(self).spec_active() + 1
            }),
            (old(self).spec_queue().len() > 0 && old(self).spec_queue()[0] is Terminate) ==> {
                &&& a == WorkerAction::Stop
                &&& final(self).spec_queue() == old(self).spec_queue().drop_first()
                &&& final(self).worker_states() == old(self).worker_states().update(
                    w as int,
                    WorkerState::Stopped,
                )
                &&& final(self).spec_active() == old(self).spec_active()
            },
            (old(self).spec_queue().len() == 0 && !old(self).is_open()) ==> {
                &&& a == WorkerAction::Stop
                &&& final(self).spec_queue() == old(self).spec_queue()
                &&& final(self).worker_states() == old(self).worker_states().update(
                    w as int,
                    WorkerState::Stopped,
                )
                &&& final(self).spec_active() == old(self).spec_active()
            },
            (old(self).spec_queue().len() == 0 && old(self).is_open()) ==> {
                &&& a == WorkerAction::Park
                &&& final(self).spec_queue() == old(self).spec_queue()
                &&& final(self).worker_states() == old(self).worker_states()
                &&& final(self).spec_active() == old(self).spec_active()
            },
            a is Park <==> (old(self).spec_queue().len() == 0 && old(self).is_open()),
    {
        proof {
            lemma_count_bounds(old(self).queue@, old(self).worker_states());
        }
        match self.queue.pop_front() {
            Some(Message::NewJob(j)) => {
                proof {
                    assert(old(self).queue@.drop_first() =~= old(self).queue@.subrange(
                        1,
                        old(self).queue@.len() as int,
                    ));
                    lemma_worker_counts_update(
                        old(self).worker_states(),
                        w as int,
                        WorkerState::Executing(j),
                    );
                    assert(jobs_before_terminates(old(self).queue@.drop_first())) by {
                        assert(forall|i: int|
                            0 <= i < old(self).queue@.drop_first().len()
                                ==> #[trigger] old(self).queue@.drop_first()[i] == old(
                                self,
                            ).queue@[i + 1]);
                    }
                    lemma_num_not_stopped_positive(old(self).worker_states(), w as int);
                }
                self.active = self.active + 1;
                self.set_worker_state(w, WorkerState::Executing(j));
                proof {
                    lemma_num_not_stopped_positive(self.worker_states(), w as int);
                    lemma_count_bounds(self.queue@, self.worker_states());
                }
                WorkerAction::RunJob(j)
            },
            Some(Message::Terminate) => {
                proof {
                    assert(old(self).queue@.drop_first() =~= old(self).queue@.subrange(
                        1,
                        old(self).queue@.len() as int,
                    ));
                    lemma_worker_counts_update(
                        old(self).worker_states(),
                        w as int,
                        WorkerState::Stopped,
                    );
                    assert(jobs_before_terminates(old(self).queue@.drop_first())) by {
                        assert(forall|i: int|
                            0 <= i < old(self).queue@.drop_first().len()
                                ==> #[trigger] old(self).queue@.drop_first()[i] == old(
                                self,
                            ).queue@[i + 1]);
                    }
                    lemma_head_terminate_no_jobs(old(self).queue@);
                }
                self.set_worker_state(w, WorkerState::Stopped);
                proof {
                    lemma_count_bounds(self.queue@, self.worker_states());
                }
                WorkerAction::Stop
            },
            None => {
                if self.open {
                    WorkerAction::Park
                } else {
                    proof {
                        lemma_worker_counts_update(
                            old(self).worker_states(),
                            w as int,
                            WorkerState::Stopped,
                        );
                    }
                    self.set_worker_state(w, WorkerState::Stopped);
                    proof {
                        lemma_count_bounds(self.queue@, self.worker_states());
                    }
                    WorkerAction::Stop
                }
            },
        }
    }

    /// One worker's completion step: the job it was running has finished,
    /// successfully when `ok` holds, and the worker returns to `Idle`.  The
    /// outcome moves exactly one of the completion and failure counters.
    pub fn worker_finish(&mut self, w: usize, ok: bool)
        requires
            old(self).wf(),
            w < old(self).spec_size(),
            old(self).worker_states()[w as int] is Executing,
        ensures
            final(self).wf(),
            final(self).spec_size() == old(self).spec_size(),
            final(self).is_open() == old(self).is_open(),
            final(self).spec_submitted() == old(self).spec_submitted(),
            final(self).spec_queue() == old(self).spec_queue(),
            final(self).worker_states() == old(self).worker_states().update(
                w as int,
                WorkerState::Idle,
            ),
            final(self).spec_active() == old(self).spec_active() - 1,
            ok ==> final(self).spec_completed() == old(self).spec_completed() + 1
                && final(self).spec_failed() == old(self).spec_failed(),
            !ok ==> final(self).spec_failed() == old(self).spec_failed() + 1
                && final(self).spec_completed() == old(self).spec_completed(),
    {
        proof {
            lemma_count_bounds(old(self).queue@, old(self).worker_states());
            lemma_num_executing_positive(old(self).worker_states(), w as int);
            lemma_worker_counts_update(old(self).worker_states(), w as int, WorkerState::Idle);
            lemma_num_not_stopped_positive(old(self).worker_states(), w as int);
        }
        self.active = self.active - 1;
        if ok {
            self.completed = self.completed + 1;
        } else {
            self.failed = self.failed + 1;
        }
        self.set_worker_state(w, WorkerState::Idle);
        proof {
            lemma_num_not_stopped_positive(self.worker_states(), w as int);
            lemma_count_bounds(self.queue@, self.worker_states());
        }
    }

    /// Run every remaining worker to its `Stopped` state.  The intake must
    /// already be closed, so each worker keeps taking messages until its
    /// stop marker arrives or the queue runs dry; jobs it picks up on the
    /// way are run (here: reported successful).  Afterwards nothing is
    /// queued, nothing is running, and every accepted job is accounted for.
    fn drain_workers(&mut self)
        requires
            old(self).wf(),
            !old(self).is_open(),
        ensures
            final(self).wf(),
            !final(self).is_open(),
            final(self).spec_size() == old(self).spec_size(),
            all_stopped(final(self).worker_states()),
            final(self).spec_queue().len() == 0,
            final(self).spec_active() == 0,
            final(self).spec_submitted() == old(self).spec_submitted(),
            final(self).spec_failed() == old(self).spec_failed(),
            final(self).spec_completed() == old(self).spec_submitted() - old(self).spec_failed(),
            all_stopped(old(self).worker_states()) ==> *final(self) == *old(self),
    {
        let n: usize = self.workers.len();
        let mut w: usize = 0;
        while w < n
            invariant
                self.wf(),
                !self.is_open(),
                w <= n,
                n as int == self.spec_size(),
                self.spec_size() == old(self).spec_size(),
                forall|j: int| 0 <= j < w ==> (#[trigger] self.worker_states()[j]) is Stopped,
                self.spec_submitted() == old(self).spec_submitted(),
                self.spec_failed() == old(self).spec_failed(),
                all_stopped(old(self).worker_states()) ==> *self == *old(self),
            decreases n - w,
        {
            loop
                invariant
                    self.wf(),
                    !self.is_open(),
                    w < n,
                    n as int == self.spec_size(),
                    self.spec_size() == old(self).spec_size(),
                    forall|j: int| 0 <= j < w ==> (#[trigger] self.worker_states()[j]) is Stopped,
                    self.spec_submitted() == old(self).spec_submitted(),
                    self.spec_failed() == old(self).spec_failed(),
                    all_stopped(old(self).worker_states()) ==> *self == *old(self),
                ensures
                    self.wf(),
                    !self.is_open(),
                    n as int == self.spec_size(),
                    self.spec_size() == old(self).spec_size(),
                    forall|j: int| 0 <= j < w ==> (#[trigger] self.worker_states()[j]) is Stopped,
                    self.worker_states()[w as int] is Stopped,
                    self.spec_submitted() == old(self).spec_submitted(),
                    self.spec_failed() == old(self).spec_failed(),
                    all_stopped(old(self).worker_states()) ==> *self == *old(self),
                decreases self.spec_queue().len() + self.spec_active() + (
                if self.worker_states()[w as int] is Stopped {
                    0int
                } else {
                    1int
                }),
            {
                proof {
                    lemma_count_bounds(self.queue@, self.worker_states());
                }
                match self.worker_state(w) {
                    WorkerState::Stopped => {
                        break ;
                    },
                    WorkerState::Executing(_) => {
                        self.worker_finish(w, true);
                    },
                    WorkerState::Idle => {
                        let a = self.worker_poll(w);
                        match a {
                            WorkerAction::RunJob(_) => {
                                self.worker_finish(w, true);
                            },
                            WorkerAction::Stop => {},
                            WorkerAction::Park => {
                                proof {
                                    assert(false);
                                }
                            },
                        }
                    },
                }
            }
            w = w + 1;
        }
        proof {
            assert(all_stopped(self.worker_states()));
            lemma_counts_all_stopped(self.worker_states());
            lemma_count_bounds(self.queue@, self.worker_states());
        }
    }

    /// Graceful shutdown: close the intake, then block until every worker
    /// has drained the queue to empty and stopped.  When it returns, every
    /// accepted job has run (completed or failed), nothing is active, and
    /// nothing is queued.  Calling it again on an already shut down pool
    /// changes nothing.
    pub fn shutdown(&mut self)
        requires
            old(self).wf(),
        ensures
            final(self).wf(),
            !final(self).is_open(),
            final(self).spec_size() == old(self).spec_size(),
            all_stopped(final(self).worker_states()),
            final(self).spec_queue().len() == 0,
            final(self).spec_active() == 0,
            final(self).spec_submitted() == old(self).spec_submitted(),
            final(self).spec_failed() == old(self).spec_failed(),
            final(self).spec_completed() == old(self).spec_submitted() - old(self).spec_failed(),
            !old(self).is_open() && all_stopped(old(self).worker_states()) ==> *final(self)
                == *old(self),
    {
        self.open = false;
        self.drain_workers();
    }

    /// Forced shutdown: append one stop marker per worker to the tail of
    /// the queue, close the intake, and block until every worker has
    /// stopped.  Markers sit behind the already-queued jobs, so workers may
    /// still pick those jobs up before stopping; only new submissions are
    /// refused from here on.  On an already shut down pool this is a no-op.
    pub fn shutdown_now(&mut self)
        requires
            old(self).wf(),
        ensures
            final(self).wf(),
            !final(self).is_open(),
            final(self).spec_size() == old(self).spec_size(),
            final(self).spec_submitted() == old(self).spec_submitted(),
            final(self).spec_failed() == old(self).spec_failed(),
            old(self).is_open() ==> {
                &&& all_stopped(final(self).worker_states())
                &&& final(self).spec_queue().len() == 0
                &&& final(self).spec_active() == 0
                &&& final(self).spec_completed() == old(self).spec_submitted() - old(
                    self,
                ).spec_failed()
            },
            !old(self).is_open() ==> *final(self) == *old(self),
    {
        if !self.open {
            return ;
        }
        proof {
            lemma_count_bounds(self.queue@, self.worker_states());
            lemma_counts_none_stopped(self.worker_states());
        }
        self.open = false;
        let n: usize = self.workers.len();
        let mut i: usize = 0;
        while i < n
            invariant
                i <= n,
                n as int == self.spec_size(),
                self.workers == old(self).workers,
                self.submitted == old(self).submitted,
                self.completed == old(self).completed,
                self.failed == old(self).failed,
                self.active == old(self).active,
                !self.open,
                self.queue@.len() == old(self).queue@.len() + i,
                pending_jobs(self.queue@) == pending_jobs(old(self).queue@),
                pending_terminates(self.queue@) == i as int,
                jobs_before_terminates(self.queue@),
                num_not_stopped(self.worker_states()) == n as int,
                self.active as int == num_executing(self.worker_states()),
                self.submitted as int == self.completed as int + self.failed as int
                    + self.active as int + pending_jobs(self.queue@),
                forall|k: int|
                    0 <= k < self.workers@.len() ==> (#[trigger] self.workers@[k]).id as int == k,
                1 <= self.workers@.len() <= MAX_POOL_SIZE,
            decreases n - i,
        {
            proof {
                lemma_counts_push(self.queue@, Message::Terminate);
                assert(jobs_before_terminates(self.queue@.push(Message::Terminate))) by {
                    assert(forall|k: int|
                        0 <= k < self.queue@.len() ==> #[trigger] self.queue@.push(
                            Message::Terminate,
                        )[k] == self.queue@[k]);
                }
            }
            self.queue.push_back(Message::Terminate);
            i = i + 1;
        }
        self.drain_workers();
    }

    /// Jobs accepted but not yet picked up by a worker, derived from the
    /// counters with the difference floored at zero.  On a well-formed pool
    /// this is exactly the number of jobs still in the queue.
    pub fn queued_count(&self) -> (r: usize)
        ensures
            r as int == queued_from_spec(
                self.spec_submitted(),
                self.spec_completed(),
                self.spec_failed(),
                self.spec_active(),
            ),
            self.wf() ==> r as int == pending_jobs(self.spec_queue()),
    {
        proof {
            lemma_count_bounds(self.queue@, self.worker_states());
        }
        queued_from(self.submitted, self.completed, self.failed, self.active)
    }
}

/// The derived backlog: `submitted - completed - failed - active`, floored
/// at zero.
pub open spec fn queued_from_spec(submitted: int, completed: int, failed: int, active: int) -> int {
    if submitted - completed - failed - active >= 0 {
        submitted - completed - failed - active
    } else {
        0
    }
}

/// Compute the backlog from one read of each counter.  The four reads need
/// not be consistent with each other: whatever values they returned, the
/// result is the floored difference and so never wraps below zero.
pub fn queued_from(submitted: usize, completed: usize, failed: usize, active: usize) -> (r: usize)
    ensures
        r as int == queued_from_spec(submitted as int, completed as int, failed as int, active as int),
{
    let done_or_running = completed.saturating_add(failed).saturating_add(active);
    submitted.saturating_sub(done_or_running)
}

/// The counting functions all stay between zero and the length of what
/// they count, and every message is either a job or a stop marker.
proof fn lemma_count_bounds(q: Seq<Message>, ws: Seq<WorkerState>)
    ensures
        0 <= pending_jobs(q) <= q.len(),
        0 <= pending_terminates(q) <= q.len(),
        pending_jobs(q) + pending_terminates(q) == q.len(),
        0 <= num_executing(ws) <= ws.len(),
        0 <= num_not_stopped(ws) <= ws.len(),
{
    lemma_pending_jobs_bounds(q);
    lemma_pending_terminates_bounds(q);
    lemma_message_partition(q);
    lemma_num_executing_bounds(ws);
    lemma_num_not_stopped_bounds(ws);
}

/// Every message is either a job or a stop marker.
proof fn lemma_message_partition(q: Seq<Message>)
    ensures
        pending_jobs(q) + pending_terminates(q) == q.len(),
    decreases q.len(),
{
    if q.len() > 0 {
        lemma_message_partition(q.drop_first());
    }
}

/// Pushing a message onto the back adjusts the two counts by its kind.
proof fn lemma_counts_push(q: Seq<Message>, m: Message)
    ensures
        pending_jobs(q.push(m)) == pending_jobs(q) + (if m is NewJob {
            1int
        } else {
            0int
        }),
        pending_terminates(q.push(m)) == pending_terminates(q) + (if m is Terminate {
            1int
        } else {
            0int
        }),
    decreases q.len(),
{
    if q.len() == 0 {
        assert(q.push(m).drop_first() =~= q);
    } else {
        assert(q.push(m).drop_first() =~= q.drop_first().push(m));
        lemma_counts_push(q.drop_first(), m);
    }
}

/// A queue with no stop-marker count has no stop marker anywhere.
proof fn lemma_no_terminates_when_zero(q: Seq<Message>)
    requires
        pending_terminates(q) == 0,
    ensures
        forall|i: int| 0 <= i < q.len() ==> !((#[trigger] q[i]) is Terminate),
    decreases q.len(),
{
    if q.len() > 0 {
        lemma_pending_terminates_bounds(q.drop_first());
        lemma_no_terminates_when_zero(q.drop_first());
        assert(forall|i: int|
            1 <= i < q.len() ==> #[trigger] q[i] == q.drop_first()[i - 1]);
    }
}

/// A queue whose head is a stop marker, with every job ahead of every
/// marker, holds no job at all.
proof fn lemma_head_terminate_no_jobs(q: Seq<Message>)
    requires
        q.len() > 0,
        q[0] is Terminate,
        jobs_before_terminates(q),
    ensures
        pending_jobs(q) == 0,
    decreases q.len(),
{
    assert(forall|j: int| 0 <= j < q.len() ==> !((#[trigger] q[j]) is NewJob));
    lemma_no_jobs_when_none(q);
}

/// A queue in which no message is a job has job count zero.
proof fn lemma_no_jobs_when_none(q: Seq<Message>)
    requires
        forall|i: int| 0 <= i < q.len() ==> !((#[trigger] q[i]) is NewJob),
    ensures
        pending_jobs(q) == 0,
    decreases q.len(),
{
    if q.len() > 0 {
        assert(forall|i: int|
            0 <= i < q.drop_first().len() ==> #[trigger] q.drop_first()[i] == q[i + 1]);
        lemma_no_jobs_when_none(q.drop_first());
    }
}

/// Updating one worker's phase adjusts the two worker counts by the change
/// at that position.
proof fn lemma_worker_counts_update(ws: Seq<WorkerState>, i: int, s: WorkerState)
    requires
        0 <= i < ws.len(),
    ensures
        num_executing(ws.update(i, s)) == num_executing(ws) + (if s is Executing {
            1int
        } else {
            0int
        }) - (if ws[i] is Executing {
            1int
        } else {
            0int
        }),
        num_not_stopped(ws.update(i, s)) == num_not_stopped(ws) + (if s is Stopped {
            0int
        } else {
            1int
        }) - (if ws[i] is Stopped {
            0int
        } else {
            1int
        }),
    decreases ws.len(),
{
    if i == 0 {
        assert(ws.update(i, s).drop_first() =~= ws.drop_first());
    } else {
        assert(ws.update(i, s).drop_first() =~= ws.drop_first().update(i - 1, s));
        lemma_worker_counts_update(ws.drop_first(), i - 1, s);
    }
}

/// A worker that is executing makes the executing count positive.
proof fn lemma_num_executing_positive(ws: Seq<WorkerState>, i: int)
    requires
        0 <= i < ws.len(),
        ws[i] is Executing,
    ensures
        num_executing(ws) >= 1,
    decreases ws.len(),
{
    lemma_num_executing_bounds(ws.drop_first());
    if i > 0 {
        lemma_num_executing_positive(ws.drop_first(), i - 1);
    }
}

/// A worker that has not stopped makes the not-stopped count positive.
proof fn lemma_num_not_stopped_positive(ws: Seq<WorkerState>, i: int)
    requires
        0 <= i < ws.len(),
        !(ws[i] is Stopped),
    ensures
        num_not_stopped(ws) >= 1,
    decreases ws.len(),
{
    lemma_num_not_stopped_bounds(ws.drop_first());
    if i > 0 {
        lemma_num_not_stopped_positive(ws.drop_first(), i - 1);
    }
}

/// When every worker has stopped, both worker counts are zero.
proof fn lemma_counts_all_stopped(ws: Seq<WorkerState>)
    requires
        all_stopped(ws),
    ensures
        num_executing(ws) == 0,
        num_not_stopped(ws) == 0,
    decreases ws.len(),
{
    if ws.len() > 0 {
        assert(ws[0] is Stopped);
        assert(forall|i: int|
            0 <= i < ws.drop_first().len() ==> #[trigger] ws.drop_first()[i] == ws[i + 1]);
        lemma_counts_all_stopped(ws.drop_first());
    }
}

/// When no worker has stopped, the not-stopped count is the worker count.
proof fn lemma_counts_none_stopped(ws: Seq<WorkerState>)
    requires
        forall|i: int| 0 <= i < ws.len() ==> !((#[trigger] ws[i]) is Stopped),
    ensures
        num_not_stopped(ws) == ws.len(),
    decreases ws.len(),
{
    if ws.len() > 0 {
        assert(!(ws[0] is Stopped));
        assert(forall|i: int|
            0 <= i < ws.drop_first().len() ==> #[trigger] ws.drop_first()[i] == ws[i + 1]);
        lemma_counts_none_stopped(ws.drop_first());
    }
}

/// The job count of a queue is between zero and its length.
proof fn lemma_pending_jobs_bounds(q: Seq<Message>)
    ensures
        0 <= pending_jobs(q) <= q.len(),
    decreases q.len(),
{
    if q.len() > 0 {
        lemma_pending_jobs_bounds(q.drop_first());
    }
}

/// The stop-marker count of a queue is between zero and its length.
proof fn lemma_pending_terminates_bounds(q: Seq<Message>)
    ensures
        0 <= pending_terminates(q) <= q.len(),
    decreases q.len(),
{
    if q.len() > 0 {
        lemma_pending_terminates_bounds(q.drop_first());
    }
}

/// The executing-worker count is between zero and the number of workers.
proof fn lemma_num_executing_bounds(ws: Seq<WorkerState>)
    ensures
        0 <= num_executing(ws) <= ws.len(),
    decreases ws.len(),
{
    if ws.len() > 0 {
        lemma_num_executing_bounds(ws.drop_first());
    }
}

/// The not-yet-stopped count is between zero and the number of workers.
proof fn lemma_num_not_stopped_bounds(ws: Seq<WorkerState>)
    ensures
        0 <= num_not_stopped(ws) <= ws.len(),
    decreases ws.len(),
{
    if ws.len() > 0 {
        lemma_num_not_stopped_bounds(ws.drop_first());
    }
}

/// The worker-phase sequence has one entry per worker; callers outside
/// this module need the connection between the two spec views.
pub proof fn lemma_worker_states_len(p: &ThreadPool)
    ensures
        p.worker_states().len() == p.spec_size(),
{
}

/// Law: on a quiescent well-formed pool — no worker running a job and no
/// job waiting in the queue — the counters reconcile: every accepted job
/// was either completed or recorded as failed, and the derived backlog is
/// zero.  In particular, when no job failed, the completion counter has
/// caught up with the submission counter.
pub proof fn lemma_quiescent_counters_reconcile(p: &ThreadPool)
    requires
        p.wf(),
        p.spec_active() == 0,
        pending_jobs(p.spec_queue()) == 0,
    ensures
        p.spec_completed() + p.spec_failed() == p.spec_submitted(),
        p.spec_failed() == 0 ==> p.spec_completed() == p.spec_submitted(),
        queued_from_spec(
            p.spec_submitted(),
            p.spec_completed(),
            p.spec_failed(),
            p.spec_active(),
        ) == 0,
{
}

/// In a sequence of all-idle workers nobody is executing and nobody has
/// stopped.
proof fn lemma_counts_all_idle(ws: Seq<WorkerState>)
    requires
        forall|i: int| 0 <= i < ws.len() ==> (#[trigger] ws[i]) is Idle,
    ensures
        num_executing(ws) == 0,
        num_not_stopped(ws) == ws.len(),
    decreases ws.len(),
{
    if ws.len() > 0 {
        assert(ws[0] is Idle);
        lemma_counts_all_idle(ws.drop_first());
    }
}

} // verus!
