use rustbook::pool::{DeliveryError, PoolCreationError, ThreadPool, WorkerAction, WorkerStatus};
use std::cell::{Cell, RefCell};
use std::rc::Rc;

type Job = Box<dyn FnOnce()>;

/// Drives the workers in turn, as threads would, until every one has
/// exited; each job runs while its worker is executing.
fn drive<J, F: FnMut(J)>(pool: &mut ThreadPool<J>, mut run: F) {
    let mut exited = vec![false; pool.size()];
    let mut turns = 0;
    while exited.iter().any(|e| !e) {
        for id in 0..pool.size() {
            if exited[id] {
                continue;
            }
            match pool.receive(id) {
                WorkerAction::Run(job) => {
                    assert_eq!(pool.worker_status(id), WorkerStatus::Executing);
                    run(job);
                    pool.finish_job(id);
                }
                WorkerAction::Exit => exited[id] = true,
                WorkerAction::Wait => {}
            }
        }
        turns += 1;
        assert!(turns < 100_000, "workers did not exit");
    }
}

#[test]
fn construct_gives_ready_workers() {
    for n in [1usize, 2, 4, 16] {
        let pool: ThreadPool<u32> = ThreadPool::new(n).ok().unwrap();
        assert_eq!(pool.size(), n);
        assert!(pool.is_accepting());
        assert!(!pool.is_shut_down());
        for id in 0..n {
            assert_eq!(pool.worker_status(id), WorkerStatus::Waiting);
        }
    }
}

#[test]
fn construct_zero_fails() {
    let r: Result<ThreadPool<u32>, PoolCreationError> = ThreadPool::new(0);
    assert_eq!(r.err(), Some(PoolCreationError));
}

#[test]
fn all_jobs_done_before_shutdown_completes() {
    let counter = Rc::new(Cell::new(0u32));
    let mut pool: ThreadPool<Job> = ThreadPool::new(3).ok().unwrap();
    for _ in 0..25 {
        let c = Rc::clone(&counter);
        assert!(pool.execute(Box::new(move || c.set(c.get() + 1))).is_ok());
    }
    pool.shutdown();
    drive(&mut pool, |job| job());
    assert!(pool.is_shut_down());
    assert_eq!(counter.get(), 25);
}

#[test]
fn single_worker_runs_jobs_in_submission_order() {
    let log = Rc::new(RefCell::new(Vec::new()));
    let mut pool: ThreadPool<Job> = ThreadPool::new(1).ok().unwrap();
    for id in 0..10u32 {
        let l = Rc::clone(&log);
        pool.execute(Box::new(move || l.borrow_mut().push(id))).unwrap();
    }
    pool.shutdown();
    drive(&mut pool, |job| job());
    assert_eq!(*log.borrow(), (0..10).collect::<Vec<u32>>());
}

#[test]
fn many_workers_run_each_job_exactly_once() {
    let mut pool: ThreadPool<usize> = ThreadPool::new(5).ok().unwrap();
    for id in 0..40usize {
        pool.execute(id).unwrap();
    }
    pool.shutdown();
    let mut counts = vec![0u32; 40];
    drive(&mut pool, |id| counts[id] += 1);
    assert!(counts.iter().all(|&c| c == 1));
}

#[test]
fn shutdown_waits_for_every_worker() {
    let mut pool: ThreadPool<u32> = ThreadPool::new(3).ok().unwrap();
    pool.shutdown();
    assert!(!pool.is_shut_down());
    assert!(matches!(pool.receive(0), WorkerAction::Exit));
    assert!(matches!(pool.receive(1), WorkerAction::Exit));
    assert!(!pool.is_shut_down());
    assert_eq!(pool.worker_status(2), WorkerStatus::Waiting);
    assert!(matches!(pool.receive(2), WorkerAction::Exit));
    assert!(pool.is_shut_down());
}

#[test]
fn submit_after_shutdown_is_refused() {
    let counter = Rc::new(Cell::new(0u32));
    let mut pool: ThreadPool<Job> = ThreadPool::new(2).ok().unwrap();
    pool.shutdown();
    let c = Rc::clone(&counter);
    let r = pool.execute(Box::new(move || c.set(c.get() + 1)));
    assert_eq!(r.err(), Some(DeliveryError));
    drive(&mut pool, |job| job());
    assert_eq!(counter.get(), 0);
}

#[test]
fn empty_queue_means_wait() {
    let mut pool: ThreadPool<u32> = ThreadPool::new(2).ok().unwrap();
    assert!(matches!(pool.receive(1), WorkerAction::Wait));
    assert_eq!(pool.worker_status(1), WorkerStatus::Waiting);
    pool.execute(7).unwrap();
    assert!(matches!(pool.receive(1), WorkerAction::Run(7)));
}

#[test]
fn four_workers_hundred_ids() {
    let mut pool: ThreadPool<u32> = ThreadPool::new(4).ok().unwrap();
    for id in 0..100u32 {
        pool.execute(id).unwrap();
    }
    pool.shutdown();
    let mut seen = Vec::new();
    drive(&mut pool, |id| seen.push(id));
    assert_eq!(seen.len(), 100);
    seen.sort();
    assert_eq!(seen, (0..100).collect::<Vec<u32>>());
}
