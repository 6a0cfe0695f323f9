//! The worker-pool core: an ordered, unbounded job queue with
//! exactly-once FIFO delivery, long-lived workers identified by stable
//! ids, and a fixed-size pool that validates its size at construction
//! and exposes a single submit operation.

use vstd::prelude::*;

verus! {

/// Lifecycle state of one worker: idle between jobs, executing one job,
/// or terminated after an unrecovered failure inside a job.
#[derive(Clone, Copy, PartialEq, Eq, Structural, Debug)]
pub enum WorkerState {
    Idle,
    Executing,
    Terminated,
}

/// One worker of the pool: a stable integer id assigned at pool
/// construction time and the worker's current lifecycle state.
#[derive(Clone, Copy, PartialEq, Eq, Structural, Debug)]
pub struct Worker {
    /// Unique identifier, equal to the worker's index in the pool.
    pub id: usize,
    /// Current point in the `Idle <-> Executing -> Terminated` lifecycle.
    pub state: WorkerState,
}

impl Worker {
    /// A worker that has not terminated and can still consume jobs.
    pub open spec fn is_live(self) -> bool {
        self.state != WorkerState::Terminated
    }

    /// A worker currently running a job.
    pub open spec fn is_executing(self) -> bool {
        self.state == WorkerState::Executing
    }

    /// A freshly spawned worker: it carries the given id and enters the
    /// receive loop idle, ready to take a job.
    pub fn new(id: usize) -> (w: Worker)
        ensures
            w.id == id,
            w.state == WorkerState::Idle,
    {
        Worker { id, state: WorkerState::Idle }
    }
}

/// Number of live (non-terminated) workers in a sequence.
pub open spec fn count_live(ws: Seq<Worker>) -> nat
    decreases ws.len(),
{
    if ws.len() == 0 {
        0
    } else {
        count_live(ws.drop_last()) + (if ws.last().is_live() { 1nat } else { 0nat })
    }
}

/// Number of workers in a sequence that are currently executing a job.
pub open spec fn count_executing(ws: Seq<Worker>) -> nat
    decreases ws.len(),
{
    if ws.len() == 0 {
        0
    } else {
        count_executing(ws.drop_last()) + (if ws.last().is_executing() { 1nat } else { 0nat })
    }
}

proof fn lemma_counts_bounded(ws: Seq<Worker>)
    ensures
        count_executing(ws) <= count_live(ws),
        count_live(ws) <= ws.len(),
    decreases ws.len(),
{
    if ws.len() > 0 {
        lemma_counts_bounded(ws.drop_last());
    }
}

proof fn lemma_count_live_all_idle(ws: Seq<Worker>)
    requires
        forall|i: int| 0 <= i < ws.len() ==> (#[trigger] ws[i]).state == WorkerState::Idle,
    ensures
        count_live(ws) == ws.len(),
        count_executing(ws) == 0,
    decreases ws.len(),
{
    if ws.len() > 0 {
        lemma_count_live_all_idle(ws.drop_last());
    }
}

proof fn lemma_count_update(ws: Seq<Worker>, i: int, w: Worker)
    requires
        0 <= i < ws.len(),
    ensures
        count_live(ws.update(i, w)) == count_live(ws)
            - (if ws[i].is_live() { 1int } else { 0int })
            + (if w.is_live() { 1int } else { 0int }),
        count_executing(ws.update(i, w)) == count_executing(ws)
            - (if ws[i].is_executing() { 1int } else { 0int })
            + (if w.is_executing() { 1int } else { 0int }),
    decreases ws.len(),
{
    if ws.len() > 0 {
        if i == ws.len() - 1 {
            assert(ws.update(i, w).drop_last() =~= ws.drop_last());
        } else {
            assert(ws.update(i, w).drop_last() =~= ws.drop_last().update(i, w));
            lemma_count_update(ws.drop_last(), i, w);
        }
    }
}

/// The error a pool constructor reports: the requested concurrency
/// degree lies outside the accepted range.
#[derive(Clone, Copy, PartialEq, Eq, Structural, Debug)]
pub enum PoolError {
    SizeOutOfRange,
}

/// A pool size is accepted exactly when it lies in `[1, 100]`.
pub open spec fn valid_pool_size(n: usize) -> bool {
    1 <= n <= 100
}

/// The ordered, unbounded channel of jobs: the producer appends at the
/// tail, each worker removes exactly one job from the head, so a job is
/// delivered to exactly one worker and never duplicated or reordered.
pub struct JobQueue<J> {
    jobs: Vec<J>,
}

impl<J> View for JobQueue<J> {
    type V = Seq<J>;

    closed spec fn view(&self) -> Seq<J> {
        self.jobs@
    }
}

impl<J> JobQueue<J> {
    /// A freshly created channel carries no jobs.
    pub fn new() -> (q: JobQueue<J>)
        ensures
            q@ == Seq::<J>::empty(),
    {
        JobQueue { jobs: Vec::new() }
    }

    /// Appends a job at the tail of the channel; the producer never blocks.
    pub fn send(&mut self, job: J)
        ensures
            final(self)@ == old(self)@.push(job),
    {
        self.jobs.push(job);
    }

    /// Removes and returns the job at the head of the channel, or
    /// returns `None` when the channel is empty (the point at which a
    /// real worker would block and wait).
    pub fn receive(&mut self) -> (r: Option<J>)
        ensures
            old(self)@.len() == 0 ==> r is None && final(self)@ == old(self)@,
            old(self)@.len() > 0 ==> r == Some(old(self)@[0]) && final(self)@ == old(self)@.skip(
                1,
            ),
    {
        if self.jobs.len() == 0 {
            None
        } else {
            let job = self.jobs.remove(0);
            proof {
                assert(old(self)@.remove(0) =~= old(self)@.skip(1));
            }
            Some(job)
        }
    }

    /// Number of jobs waiting in the channel.
    pub fn len(&self) -> (n: usize)
        ensures
            n == self@.len(),
    {
        self.jobs.len()
    }
}

/// The fixed collection of workers together with the producer side of
/// the job queue. Created once with a validated size and never resized.
pub struct ThreadPool<J> {
    /// The workers, in id order: `workers[i].id == i`.
    pub workers: Vec<Worker>,
    /// The producer side: the channel the workers consume from.
    pub queue: JobQueue<J>,
}

impl<J> ThreadPool<J> {
    /// The jobs currently queued and not yet delivered, in submission order.
    pub open spec fn jobs(&self) -> Seq<J> {
        self.queue@
    }

    /// Workers sit at the index matching their id.
    pub open spec fn workers_well_formed(&self) -> bool {
        forall|i: int|
            0 <= i < self.workers@.len() ==> (#[trigger] self.workers@[i]).id == i
    }

    /// How many workers are still live and able to consume jobs.
    pub open spec fn live_worker_count(&self) -> nat {
        count_live(self.workers@)
    }

    /// How many workers are executing a job at this instant.
    pub open spec fn executing_count(&self) -> nat {
        count_executing(self.workers@)
    }

    /// Builds a pool of exactly `pool_size` workers, ids `0..pool_size`,
    /// all idle, attached to a fresh empty job queue. Construction
    /// succeeds if and only if the size is in the accepted range; an
    /// invalid concurrency degree is a misconfiguration and is rejected.
    pub fn new(pool_size: usize) -> (r: Result<ThreadPool<J>, PoolError>)
        ensures
            r is Ok <==> valid_pool_size(pool_size),
            !valid_pool_size(pool_size) ==> r == Err::<ThreadPool<J>, PoolError>(
                PoolError::SizeOutOfRange,
            ),
            r is Ok ==> {
                let p = r->Ok_0;
                &&& p.workers@.len() == pool_size
                &&& p.workers_well_formed()
                &&& forall|i: int|
                    0 <= i < pool_size ==> (#[trigger] p.workers@[i]).state == WorkerState::Idle
                &&& p.live_worker_count() == pool_size
                &&& p.executing_count() == 0
                &&& p.jobs() == Seq::<J>::empty()
            },
    {
        if pool_size == 0 || pool_size > 100 {
            return Err(PoolError::SizeOutOfRange);
        }
        let mut workers: Vec<Worker> = Vec::new();
        let mut id: usize = 0;
        while id < pool_size
            invariant
                id <= pool_size,
                workers@.len() == id,
                forall|i: int| 0 <= i < id ==> (#[trigger] workers@[i]).id == i,
                forall|i: int|
                    0 <= i < id ==> (#[trigger] workers@[i]).state == WorkerState::Idle,
            decreases pool_size - id,
        {
            workers.push(Worker::new(id));
            id = id + 1;
        }
        proof {
            lemma_count_live_all_idle(workers@);
        }
        Ok(ThreadPool { workers, queue: JobQueue::new() })
    }

    /// Submits one job. While at least one worker survives, the job is
    /// appended at the tail of the queue and will be delivered; once
    /// every worker has terminated the channel is closed, the job is
    /// discarded, and the returned flag reports the loss (the original
    /// design only logs it and keeps accepting connections).
    pub fn execute(&mut self, job: J) -> (delivered: bool)
        ensures
            final(self).workers@ == old(self).workers@,
            delivered <==> old(self).live_worker_count() > 0,
            delivered ==> final(self).jobs() == old(self).jobs().push(job),
            !delivered ==> final(self).jobs() == old(self).jobs(),
    {
        if self.live_workers() > 0 {
            self.queue.send(job);
            true
        } else {
            false
        }
    }

    /// Number of live (non-terminated) workers.
    pub fn live_workers(&self) -> (n: usize)
        ensures
            n == self.live_worker_count(),
    {
        let mut n: usize = 0;
        let mut i: usize = 0;
        while i < self.workers.len()
            invariant
                i <= self.workers@.len(),
                n == count_live(self.workers@.take(i as int)),
                n <= i,
            decreases self.workers@.len() - i,
        {
            proof {
                assert(self.workers@.take(i + 1).drop_last() =~= self.workers@.take(i as int));
            }
            let live = match self.workers[i].state {
                WorkerState::Terminated => false,
                _ => true,
            };
            if live {
                n = n + 1;
            }
            i = i + 1;
        }
        proof {
            assert(self.workers@.take(self.workers@.len() as int) =~= self.workers@);
        }
        n
    }

    /// Number of workers executing a job at this instant.
    pub fn executing_workers(&self) -> (n: usize)
        ensures
            n == self.executing_count(),
    {
        let mut n: usize = 0;
        let mut i: usize = 0;
        while i < self.workers.len()
            invariant
                i <= self.workers@.len(),
                n == count_executing(self.workers@.take(i as int)),
                n <= i,
            decreases self.workers@.len() - i,
        {
            proof {
                assert(self.workers@.take(i + 1).drop_last() =~= self.workers@.take(i as int));
            }
            let executing = match self.workers[i].state {
                WorkerState::Executing => true,
                _ => false,
            };
            if executing {
                n = n + 1;
            }
            i = i + 1;
        }
        proof {
            assert(self.workers@.take(self.workers@.len() as int) =~= self.workers@);
        }
        n
    }

    /// Number of jobs queued and not yet delivered.
    pub fn pending_jobs(&self) -> (n: usize)
        ensures
            n == self.jobs().len(),
    {
        self.queue.len()
    }

    /// One idle worker acquires the receive side and attempts to dequeue.
    /// When a job is queued, the front job — the oldest submission — is
    /// removed and handed to this worker alone, which turns to executing
    /// it; when the queue is empty nothing changes (the worker keeps
    /// blocking). Requiring the worker to be idle is what serializes each
    /// worker: it must finish its current job before it can take another.
    pub fn take_job(&mut self, worker_index: usize) -> (r: Option<J>)
        requires
            worker_index < old(self).workers@.len(),
            old(self).workers@[worker_index as int].state == WorkerState::Idle,
        ensures
            old(self).jobs().len() == 0 ==> r is None && final(self).jobs() == old(self).jobs()
                && final(self).workers@ == old(self).workers@,
            old(self).jobs().len() > 0 ==> r == Some(old(self).jobs()[0]) && final(self).jobs()
                == old(self).jobs().skip(1) && final(self).workers@ == old(self).workers@.update(
                worker_index as int,
                Worker {
                    id: old(self).workers@[worker_index as int].id,
                    state: WorkerState::Executing,
                },
            ),
    {
        match self.queue.receive() {
            None => None,
            Some(job) => {
                let id = self.workers[worker_index].id;
                self.workers[worker_index] = Worker { id, state: WorkerState::Executing };
                Some(job)
            },
        }
    }

    /// The worker finishes its job synchronously and returns to the idle
    /// state, ready for the next dequeue. The queue is untouched.
    pub fn finish_job(&mut self, worker_index: usize)
        requires
            worker_index < old(self).workers@.len(),
            old(self).workers@[worker_index as int].state == WorkerState::Executing,
        ensures
            final(self).jobs() == old(self).jobs(),
            final(self).workers@ == old(self).workers@.update(
                worker_index as int,
                Worker {
                    id: old(self).workers@[worker_index as int].id,
                    state: WorkerState::Idle,
                },
            ),
    {
        let id = self.workers[worker_index].id;
        self.workers[worker_index] = Worker { id, state: WorkerState::Idle };
    }

    /// An unrecovered failure inside the job terminates the worker's
    /// thread permanently: the pool silently has one fewer live consumer,
    /// with no detection and no respawn. The queue is untouched.
    pub fn fail_job(&mut self, worker_index: usize)
        requires
            worker_index < old(self).workers@.len(),
            old(self).workers@[worker_index as int].state == WorkerState::Executing,
        ensures
            final(self).jobs() == old(self).jobs(),
            final(self).workers@ == old(self).workers@.update(
                worker_index as int,
                Worker {
                    id: old(self).workers@[worker_index as int].id,
                    state: WorkerState::Terminated,
                },
            ),
            final(self).live_worker_count() == old(self).live_worker_count() - 1,
    {
        let id = self.workers[worker_index].id;
        proof {
            lemma_count_update(
                self.workers@,
                worker_index as int,
                Worker { id: self.workers@[worker_index as int].id, state: WorkerState::Terminated },
            );
        }
        self.workers[worker_index] = Worker { id, state: WorkerState::Terminated };
    }
}

/// Bounded parallelism: at any instant, the number of jobs executing
/// simultaneously never exceeds the number of workers the pool was
/// created with — each job runs on exactly one worker, and a worker runs
/// at most one job at a time.
pub proof fn lemma_bounded_parallelism<J>(p: &ThreadPool<J>)
    ensures
        p.executing_count() <= p.workers@.len(),
{
    lemma_counts_bounded(p.workers@);
}

/// The sequence of jobs handed out by repeatedly dequeuing the front of
/// the queue until it is empty — the delivery order that `take_job`
/// realizes, one job per call.
pub open spec fn drain_order<J>(q: Seq<J>) -> Seq<J>
    decreases q.len(),
{
    if q.len() == 0 {
        Seq::empty()
    } else {
        seq![q[0]] + drain_order(q.skip(1))
    }
}

/// Exactly-once FIFO delivery: draining a queue hands out precisely the
/// jobs it holds, in submission order — every queued job is delivered
/// exactly once, none is duplicated, none is dropped.
pub proof fn lemma_fifo_exactly_once<J>(q: Seq<J>)
    ensures
        drain_order(q) == q,
    decreases q.len(),
{
    if q.len() == 0 {
        assert(drain_order(q) =~= q);
    } else {
        lemma_fifo_exactly_once(q.skip(1));
        assert(drain_order(q) =~= q);
    }
}

/// Single-producer FIFO: when one producer submits `j1` and then `j2`
/// to an empty queue, delivery hands out `j1` first and `j2` second.
pub proof fn lemma_single_producer_fifo<J>(j1: J, j2: J)
    ensures
        drain_order(Seq::<J>::empty().push(j1).push(j2)) =~= seq![j1, j2],
{
    let q = Seq::<J>::empty().push(j1).push(j2);
    lemma_fifo_exactly_once(q);
    assert(q =~= seq![j1, j2]);
}

} // verus!
