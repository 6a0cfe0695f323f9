use server::thread::JobQueue;
use server::thread::PoolError;
use server::thread::ThreadPool;
use server::thread::Worker;
use server::thread::WorkerState;

#[test]
fn pool_has_n_live_workers_for_every_valid_size() {
    let mut n: usize = 1;
    while n <= 100 {
        let pool: ThreadPool<u64> = ThreadPool::new(n).unwrap();
        assert_eq!(pool.workers.len(), n);
        assert_eq!(pool.live_workers(), n);
        for (i, w) in pool.workers.iter().enumerate() {
            assert_eq!(w.id, i);
            assert_eq!(w.state, WorkerState::Idle);
        }
        n += 1;
    }
}

#[test]
fn pool_rejects_size_zero() {
    let r: Result<ThreadPool<u64>, PoolError> = ThreadPool::new(0);
    assert!(matches!(r, Err(PoolError::SizeOutOfRange)));
}

#[test]
fn pool_rejects_size_one_hundred_one() {
    let r: Result<ThreadPool<u64>, PoolError> = ThreadPool::new(101);
    assert!(matches!(r, Err(PoolError::SizeOutOfRange)));
}

#[test]
fn pool_accepts_boundary_sizes() {
    assert!(ThreadPool::<u64>::new(1).is_ok());
    assert!(ThreadPool::<u64>::new(100).is_ok());
}

#[test]
fn worker_new_is_idle_with_given_id() {
    let w = Worker::new(7);
    assert_eq!(w.id, 7);
    assert_eq!(w.state, WorkerState::Idle);
}

#[test]
fn every_job_executed_exactly_once() {
    let n: u64 = 50;
    let mut pool: ThreadPool<u64> = ThreadPool::new(3).unwrap();
    for j in 0..n {
        assert!(pool.execute(j));
    }
    assert_eq!(pool.pending_jobs(), n as usize);
    let mut counts = vec![0u64; n as usize];
    let mut worker: usize = 0;
    loop {
        match pool.take_job(worker) {
            Some(j) => {
                counts[j as usize] += 1;
                pool.finish_job(worker);
            }
            None => break,
        }
        worker = (worker + 1) % 3;
    }
    assert_eq!(pool.pending_jobs(), 0);
    let mut total: u64 = 0;
    for c in counts {
        assert_eq!(c, 1);
        total += c;
    }
    assert_eq!(total, n);
}

#[test]
fn single_worker_delivers_fifo() {
    let mut pool: ThreadPool<u64> = ThreadPool::new(1).unwrap();
    assert!(pool.execute(1));
    assert!(pool.execute(2));
    // the only worker must complete job 1 before it can begin job 2
    assert_eq!(pool.take_job(0), Some(1));
    assert_eq!(pool.workers[0].state, WorkerState::Executing);
    pool.finish_job(0);
    assert_eq!(pool.take_job(0), Some(2));
    pool.finish_job(0);
    assert_eq!(pool.take_job(0), None);
}

#[test]
fn at_most_pool_size_jobs_execute_simultaneously() {
    let k: usize = 2;
    let mut pool: ThreadPool<u64> = ThreadPool::new(k).unwrap();
    for j in 0..5u64 {
        assert!(pool.execute(j));
    }
    assert_eq!(pool.take_job(0), Some(0));
    assert!(pool.executing_workers() <= k);
    assert_eq!(pool.take_job(1), Some(1));
    assert_eq!(pool.executing_workers(), k);
    // every worker is busy: only finishing one frees capacity
    pool.finish_job(0);
    assert_eq!(pool.executing_workers(), 1);
    assert_eq!(pool.take_job(0), Some(2));
    assert_eq!(pool.executing_workers(), k);
}

#[test]
fn submit_after_all_workers_terminated_is_dropped() {
    let mut pool: ThreadPool<u64> = ThreadPool::new(1).unwrap();
    assert!(pool.execute(7));
    assert_eq!(pool.take_job(0), Some(7));
    pool.fail_job(0);
    assert_eq!(pool.workers[0].state, WorkerState::Terminated);
    assert_eq!(pool.live_workers(), 0);
    // the channel is closed: the job is discarded, not queued
    assert!(!pool.execute(8));
    assert_eq!(pool.pending_jobs(), 0);
}

#[test]
fn failed_worker_reduces_live_count_only() {
    let mut pool: ThreadPool<u64> = ThreadPool::new(3).unwrap();
    pool.execute(1);
    pool.execute(2);
    assert_eq!(pool.take_job(2), Some(1));
    pool.fail_job(2);
    assert_eq!(pool.live_workers(), 2);
    // the remaining workers still drain the queue
    assert_eq!(pool.take_job(0), Some(2));
    pool.finish_job(0);
    assert!(pool.execute(3));
}

#[test]
fn queue_is_ordered_and_consumed_once() {
    let mut q: JobQueue<u64> = JobQueue::new();
    assert_eq!(q.len(), 0);
    q.send(10);
    q.send(20);
    q.send(30);
    assert_eq!(q.len(), 3);
    assert_eq!(q.receive(), Some(10));
    assert_eq!(q.receive(), Some(20));
    assert_eq!(q.receive(), Some(30));
    assert_eq!(q.receive(), None);
    assert_eq!(q.len(), 0);
}
