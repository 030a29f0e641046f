use workpool::pool::{
    queued_from, PoolCreationError, SubmitError, ThreadPool, WorkerAction, WorkerState,
};

/// Run every worker until it has stopped, reporting each job it picks up
/// as successful.
fn drive_to_idle(pool: &mut ThreadPool) {
    let n = pool.size();
    for w in 0..n {
        loop {
            match pool.worker_state(w) {
                WorkerState::Stopped => break,
                WorkerState::Executing(_) => pool.worker_finish(w, true),
                WorkerState::Idle => match pool.worker_poll(w) {
                    WorkerAction::RunJob(_) => pool.worker_finish(w, true),
                    WorkerAction::Stop => {}
                    WorkerAction::Park => break,
                },
            }
        }
    }
}

#[test]
fn build_accepts_the_whole_range() {
    for size in [1, 2, 500, 999, 1000] {
        let pool = ThreadPool::build(size).unwrap();
        assert_eq!(pool.size(), size);
        assert_eq!(pool.submitted_count(), 0);
        assert_eq!(pool.completed_count(), 0);
        assert_eq!(pool.active_count(), 0);
        assert_eq!(pool.queued_count(), 0);
    }
}

#[test]
fn build_rejects_zero_and_oversize() {
    assert_eq!(ThreadPool::build(0).err(), Some(PoolCreationError::ZeroSize));
    assert_eq!(
        ThreadPool::build(1001).err(),
        Some(PoolCreationError::TooLarge(1001))
    );
    assert_eq!(
        ThreadPool::build(2000).err(),
        Some(PoolCreationError::TooLarge(2000))
    );
}

#[test]
fn submitted_jobs_get_consecutive_ids() {
    let mut pool = ThreadPool::new(2);
    assert_eq!(pool.execute(), Ok(0));
    assert_eq!(pool.execute(), Ok(1));
    assert_eq!(pool.execute(), Ok(2));
    assert_eq!(pool.submitted_count(), 3);
    assert_eq!(pool.queued_count(), 3);
}

#[test]
fn workers_drain_the_queue() {
    let mut pool = ThreadPool::new(4);
    for _ in 0..8 {
        pool.execute().unwrap();
    }
    // The first worker takes a job and runs it to completion.
    assert_eq!(pool.worker_poll(0), WorkerAction::RunJob(0));
    assert_eq!(pool.active_count(), 1);
    pool.worker_finish(0, true);
    assert_eq!(pool.active_count(), 0);
    assert_eq!(pool.completed_count(), 1);
    drive_to_idle(&mut pool);
    assert_eq!(pool.submitted_count(), 8);
    assert_eq!(pool.completed_count(), 8);
    assert_eq!(pool.active_count(), 0);
    assert_eq!(pool.queued_count(), 0);
}

#[test]
fn a_failed_job_is_counted_apart() {
    let mut pool = ThreadPool::new(1);
    pool.execute().unwrap();
    pool.execute().unwrap();
    assert_eq!(pool.worker_poll(0), WorkerAction::RunJob(0));
    pool.worker_finish(0, false);
    assert_eq!(pool.failed_count(), 1);
    assert_eq!(pool.completed_count(), 0);
    pool.shutdown();
    assert_eq!(pool.completed_count(), 1);
    assert_eq!(pool.failed_count(), 1);
    assert_eq!(pool.submitted_count(), 2);
    assert_eq!(pool.queued_count(), 0);
}

#[test]
fn an_idle_open_pool_parks_its_workers() {
    let mut pool = ThreadPool::new(1);
    assert_eq!(pool.worker_poll(0), WorkerAction::Park);
    assert_eq!(pool.active_count(), 0);
}

#[test]
fn shutdown_finishes_all_work() {
    let mut pool = ThreadPool::new(4);
    for _ in 0..8 {
        pool.execute().unwrap();
    }
    pool.shutdown();
    assert_eq!(pool.completed_count(), 8);
    assert_eq!(pool.active_count(), 0);
    assert_eq!(pool.queued_count(), 0);
    for w in 0..4 {
        assert_eq!(pool.worker_state(w), WorkerState::Stopped);
    }
}

#[test]
fn shutdown_now_stops_every_worker() {
    let mut pool = ThreadPool::new(2);
    for _ in 0..10 {
        pool.execute().unwrap();
    }
    pool.shutdown_now();
    for w in 0..2 {
        assert_eq!(pool.worker_state(w), WorkerState::Stopped);
    }
    assert_eq!(pool.queued_count(), 0);
    assert_eq!(pool.submitted_count(), 10);
}

#[test]
fn execute_after_shutdown_is_refused() {
    let mut pool = ThreadPool::new(2);
    pool.shutdown();
    assert_eq!(pool.execute(), Err(SubmitError::SubmitAfterShutdown));

    let mut pool2 = ThreadPool::new(2);
    pool2.execute().unwrap();
    pool2.shutdown_now();
    assert_eq!(pool2.execute(), Err(SubmitError::SubmitAfterShutdown));
}

#[test]
fn second_shutdown_is_a_no_op() {
    let mut pool = ThreadPool::new(3);
    for _ in 0..5 {
        pool.execute().unwrap();
    }
    pool.shutdown();
    let (s, c, f, a, q) = (
        pool.submitted_count(),
        pool.completed_count(),
        pool.failed_count(),
        pool.active_count(),
        pool.queued_count(),
    );
    pool.shutdown();
    assert_eq!(pool.submitted_count(), s);
    assert_eq!(pool.completed_count(), c);
    assert_eq!(pool.failed_count(), f);
    assert_eq!(pool.active_count(), a);
    assert_eq!(pool.queued_count(), q);
    pool.shutdown_now();
    assert_eq!(pool.submitted_count(), s);
    assert_eq!(pool.completed_count(), c);
    assert_eq!(pool.failed_count(), f);
    assert_eq!(pool.active_count(), a);
    assert_eq!(pool.queued_count(), q);
}

#[test]
fn creation_error_messages() {
    assert_eq!(PoolCreationError::ZeroSize.message(), "线程池大小不能为0");
    assert_eq!(
        PoolCreationError::TooLarge(2000).message(),
        "线程池大小 2000 超过最大限制 1000"
    );
}

#[test]
fn queued_count_never_wraps() {
    // Whatever four values the counters were read as, the derived backlog
    // is the floored difference, never a wrapped-around number.
    assert_eq!(queued_from(0, 5, 0, 3), 0);
    assert_eq!(queued_from(10, 2, 1, 3), 4);
    assert_eq!(queued_from(10, 10, 0, 0), 0);
    assert_eq!(queued_from(3, usize::MAX, usize::MAX, usize::MAX), 0);
    assert_eq!(queued_from(usize::MAX, 0, 0, 0), usize::MAX);
}
