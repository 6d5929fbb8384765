use worker_pool::{valid_pool_size, Dispatch, QueueClosed, ThreadPool, WorkerState};

fn run(job: Option<Dispatch<u32>>) -> u32 {
    match job {
        Some(Dispatch::Run(job)) => job,
        other => panic!("expected a job, got {:?}", other),
    }
}

#[test]
fn pool_size_must_be_positive() {
    assert!(!valid_pool_size(0));
    assert!(valid_pool_size(1));
    assert!(valid_pool_size(4));
    assert!(valid_pool_size(usize::MAX));
}

#[test]
fn new_pool_has_idle_workers_and_an_open_empty_queue() {
    let pool: ThreadPool<u32> = ThreadPool::new(4);
    assert_eq!(pool.size(), 4);
    assert_eq!(pool.alive(), 4);
    assert_eq!(pool.running(), 0);
    assert_eq!(pool.pending(), 0);
    assert!(pool.is_accepting());
    for worker in 0..4 {
        assert_eq!(pool.worker_state(worker), Some(WorkerState::Idle));
    }
    assert_eq!(pool.worker_state(4), None);
}

#[test]
fn submitted_job_waits_in_the_queue() {
    let mut pool: ThreadPool<u32> = ThreadPool::new(2);
    assert_eq!(pool.execute(5), Ok(()));
    assert_eq!(pool.pending(), 1);
    assert_eq!(pool.running(), 0);
    assert_eq!(pool.size(), 2);
}

#[test]
fn idle_worker_waits_while_nothing_is_pending() {
    let mut pool: ThreadPool<u32> = ThreadPool::new(2);
    assert_eq!(pool.next_job(0), Some(Dispatch::Wait));
    assert_eq!(pool.worker_state(0), Some(WorkerState::Idle));
    assert_eq!(pool.alive(), 2);
}

#[test]
fn every_job_runs_exactly_once() {
    let size = 3;
    let jobs = 10u32;
    let mut pool: ThreadPool<u32> = ThreadPool::new(size);
    for job in 0..jobs {
        assert_eq!(pool.execute(job), Ok(()));
    }
    let mut executed: Vec<(usize, u32)> = Vec::new();
    let mut busy = vec![false; size];
    let mut worker = 0;
    while pool.pending() > 0 || pool.running() > 0 {
        if busy[worker] {
            assert!(pool.complete(worker));
            busy[worker] = false;
        } else if let Some(Dispatch::Run(job)) = pool.next_job(worker) {
            executed.push((worker, job));
            busy[worker] = true;
        }
        worker = (worker + 1) % size;
    }
    assert_eq!(executed.len(), jobs as usize);
    let mut seen: Vec<u32> = executed.iter().map(|pair| pair.1).collect();
    seen.sort();
    assert_eq!(seen, (0..jobs).collect::<Vec<u32>>());
    assert_eq!(pool.pending(), 0);
    assert_eq!(pool.running(), 0);
    assert_eq!(pool.alive(), size);
}

#[test]
fn no_submission_means_no_execution() {
    let mut pool: ThreadPool<u32> = ThreadPool::new(2);
    assert_eq!(pool.next_job(0), Some(Dispatch::Wait));
    assert_eq!(pool.next_job(1), Some(Dispatch::Wait));
    assert_eq!(pool.running(), 0);
    assert_eq!(pool.pending(), 0);
}

#[test]
fn running_workers_hold_different_jobs() {
    let mut pool: ThreadPool<u32> = ThreadPool::new(3);
    for job in [11, 22, 33] {
        assert_eq!(pool.execute(job), Ok(()));
    }
    let first = run(pool.next_job(2));
    let second = run(pool.next_job(0));
    let third = run(pool.next_job(1));
    assert_eq!((first, second, third), (11, 22, 33));
    assert_eq!(pool.running(), 3);
    assert_eq!(pool.pending(), 0);
}

#[test]
fn single_worker_runs_jobs_in_submission_order() {
    let mut pool: ThreadPool<u32> = ThreadPool::new(1);
    let submitted = vec![5, 3, 9, 1, 7];
    for job in submitted.iter() {
        assert_eq!(pool.execute(*job), Ok(()));
    }
    let mut order = Vec::new();
    loop {
        match pool.next_job(0) {
            Some(Dispatch::Run(job)) => {
                assert_eq!(pool.running(), 1);
                order.push(job);
                assert!(pool.complete(0));
            }
            Some(Dispatch::Wait) => break,
            other => panic!("unexpected answer {:?}", other),
        }
    }
    assert_eq!(order, submitted);
}

#[test]
fn single_worker_keeps_order_across_later_submissions() {
    let mut pool: ThreadPool<u32> = ThreadPool::new(1);
    assert_eq!(pool.execute(1), Ok(()));
    assert_eq!(pool.execute(2), Ok(()));
    assert_eq!(run(pool.next_job(0)), 1);
    assert_eq!(pool.execute(3), Ok(()));
    assert!(pool.complete(0));
    assert_eq!(run(pool.next_job(0)), 2);
    assert!(pool.complete(0));
    assert_eq!(run(pool.next_job(0)), 3);
    assert!(pool.complete(0));
    assert_eq!(pool.next_job(0), Some(Dispatch::Wait));
}

#[test]
fn excess_jobs_wait_until_a_worker_frees_up() {
    let size = 3;
    let excess = 2;
    let mut pool: ThreadPool<u32> = ThreadPool::new(size);
    for job in 0..(size + excess) as u32 {
        assert_eq!(pool.execute(job), Ok(()));
    }
    for worker in 0..size {
        assert_eq!(run(pool.next_job(worker)), worker as u32);
    }
    assert_eq!(pool.running(), size);
    assert_eq!(pool.pending(), excess);
    for worker in 0..size {
        assert_eq!(pool.next_job(worker), None);
    }
    assert_eq!(pool.running(), size);
    assert_eq!(pool.pending(), excess);

    assert!(pool.complete(1));
    assert_eq!(pool.running(), size - 1);
    assert_eq!(run(pool.next_job(1)), 3);
    assert_eq!(pool.running(), size);
    assert_eq!(pool.pending(), 1);

    assert!(pool.complete(0));
    assert_eq!(run(pool.next_job(0)), 4);
    assert_eq!(pool.pending(), 0);
    assert!(pool.complete(2));
    assert_eq!(pool.next_job(2), Some(Dispatch::Wait));
    assert_eq!(pool.running(), 2);
}

#[test]
fn fault_stops_only_the_faulting_worker() {
    let mut pool: ThreadPool<u32> = ThreadPool::new(2);
    assert_eq!(pool.execute(1), Ok(()));
    assert_eq!(run(pool.next_job(0)), 1);
    assert!(pool.fault(0));
    assert_eq!(pool.worker_state(0), Some(WorkerState::Stopped));
    assert_eq!(pool.worker_state(1), Some(WorkerState::Idle));
    assert_eq!(pool.alive(), 1);
    assert_eq!(pool.running(), 0);
    assert_eq!(pool.size(), 2);
    assert!(pool.is_accepting());

    assert_eq!(pool.execute(2), Ok(()));
    assert_eq!(pool.execute(3), Ok(()));
    assert_eq!(run(pool.next_job(1)), 2);
    assert!(pool.complete(1));
    assert_eq!(run(pool.next_job(1)), 3);
    assert!(pool.complete(1));
    assert_eq!(pool.pending(), 0);
}

#[test]
fn faulted_worker_never_receives_again() {
    let mut pool: ThreadPool<u32> = ThreadPool::new(2);
    assert_eq!(pool.execute(1), Ok(()));
    assert_eq!(pool.execute(2), Ok(()));
    assert_eq!(run(pool.next_job(0)), 1);
    assert!(pool.fault(0));
    assert_eq!(pool.next_job(0), None);
    assert!(!pool.complete(0));
    assert!(!pool.fault(0));
    assert_eq!(pool.worker_state(0), Some(WorkerState::Stopped));
    assert_eq!(pool.pending(), 1);
    assert_eq!(pool.alive(), 1);
}

#[test]
fn queue_is_torn_down_when_the_last_worker_stops() {
    let mut pool: ThreadPool<u32> = ThreadPool::new(2);
    assert_eq!(pool.execute(1), Ok(()));
    assert_eq!(pool.execute(2), Ok(()));
    assert_eq!(pool.execute(3), Ok(()));
    assert_eq!(run(pool.next_job(0)), 1);
    assert_eq!(run(pool.next_job(1)), 2);
    assert!(pool.fault(0));
    assert!(pool.is_accepting());
    assert!(pool.fault(1));
    assert!(!pool.is_accepting());
    assert_eq!(pool.alive(), 0);
    assert_eq!(pool.execute(4), Err(QueueClosed(4)));
    assert_eq!(pool.pending(), 1);
    assert_eq!(pool.next_job(0), None);
    assert_eq!(pool.next_job(1), None);
}

#[test]
fn submission_after_disconnect_returns_the_job() {
    let mut pool: ThreadPool<u32> = ThreadPool::new(2);
    assert_eq!(pool.execute(1), Ok(()));
    pool.disconnect();
    assert!(!pool.is_accepting());
    assert_eq!(pool.execute(2), Err(QueueClosed(2)));
    assert_eq!(pool.pending(), 1);
}

#[test]
fn workers_drain_the_queue_then_stop_after_disconnect() {
    let mut pool: ThreadPool<u32> = ThreadPool::new(2);
    assert_eq!(pool.execute(1), Ok(()));
    assert_eq!(pool.execute(2), Ok(()));
    assert_eq!(pool.execute(3), Ok(()));
    pool.disconnect();
    assert_eq!(run(pool.next_job(0)), 1);
    assert_eq!(run(pool.next_job(1)), 2);
    assert!(pool.complete(0));
    assert_eq!(run(pool.next_job(0)), 3);
    assert!(pool.complete(1));
    assert_eq!(pool.next_job(1), Some(Dispatch::Stop));
    assert_eq!(pool.worker_state(1), Some(WorkerState::Stopped));
    assert_eq!(pool.alive(), 1);
    assert!(pool.complete(0));
    assert_eq!(pool.next_job(0), Some(Dispatch::Stop));
    assert_eq!(pool.alive(), 0);
    assert_eq!(pool.next_job(0), None);
    assert_eq!(pool.size(), 2);
}

#[test]
fn events_out_of_turn_change_nothing() {
    let mut pool: ThreadPool<u32> = ThreadPool::new(2);
    assert_eq!(pool.execute(1), Ok(()));
    assert_eq!(pool.execute(2), Ok(()));
    assert!(!pool.complete(0));
    assert!(!pool.fault(1));
    assert_eq!(pool.next_job(2), None);
    assert_eq!(pool.next_job(usize::MAX), None);
    assert!(!pool.complete(2));
    assert!(!pool.fault(usize::MAX));
    assert_eq!(pool.pending(), 2);
    assert_eq!(pool.running(), 0);
    assert_eq!(pool.alive(), 2);

    assert_eq!(run(pool.next_job(0)), 1);
    assert_eq!(pool.next_job(0), None);
    assert_eq!(pool.worker_state(0), Some(WorkerState::Running));
    assert_eq!(pool.pending(), 1);
    assert_eq!(pool.running(), 1);
}

#[test]
fn pool_size_never_changes() {
    let mut pool: ThreadPool<u32> = ThreadPool::new(3);
    assert_eq!(pool.size(), 3);
    assert_eq!(pool.execute(1), Ok(()));
    assert_eq!(pool.size(), 3);
    assert_eq!(run(pool.next_job(0)), 1);
    assert_eq!(pool.size(), 3);
    assert!(pool.fault(0));
    assert_eq!(pool.size(), 3);
    pool.disconnect();
    assert_eq!(pool.next_job(1), Some(Dispatch::Stop));
    assert_eq!(pool.next_job(2), Some(Dispatch::Stop));
    assert_eq!(pool.size(), 3);
    assert_eq!(pool.worker_state(2), Some(WorkerState::Stopped));
    assert_eq!(pool.worker_state(3), None);
}

#[test]
fn pool_carries_jobs_that_are_not_copyable() {
    let mut pool: ThreadPool<String> = ThreadPool::new(1);
    assert_eq!(pool.execute(String::from("first")), Ok(()));
    assert_eq!(pool.execute(String::from("second")), Ok(()));
    assert_eq!(pool.next_job(0), Some(Dispatch::Run(String::from("first"))));
    assert!(pool.complete(0));
    assert_eq!(pool.next_job(0), Some(Dispatch::Run(String::from("second"))));
}

#[test]
fn one_live_worker_drains_the_queue() {
    let mut pool: ThreadPool<u32> = ThreadPool::new(3);
    for job in 0..6 {
        assert_eq!(pool.execute(job), Ok(()));
    }
    let mut order = Vec::new();
    for _ in 0..6 {
        order.push(run(pool.next_job(2)));
        assert!(pool.complete(2));
    }
    assert_eq!(order, vec![0, 1, 2, 3, 4, 5]);
    assert_eq!(pool.pending(), 0);
    assert_eq!(pool.running(), 0);
    assert_eq!(pool.worker_state(0), Some(WorkerState::Idle));
    assert_eq!(pool.worker_state(1), Some(WorkerState::Idle));
    assert_eq!(pool.worker_state(2), Some(WorkerState::Idle));
}

#[test]
fn running_jobs_never_exceed_live_workers() {
    let mut pool: ThreadPool<u32> = ThreadPool::new(3);
    for job in 0..5 {
        assert_eq!(pool.execute(job), Ok(()));
    }
    assert_eq!(run(pool.next_job(0)), 0);
    assert!(pool.fault(0));
    assert_eq!(run(pool.next_job(1)), 1);
    assert_eq!(run(pool.next_job(2)), 2);
    assert_eq!(pool.next_job(0), None);
    assert_eq!(pool.alive(), 2);
    assert_eq!(pool.running(), 2);
    assert_eq!(pool.pending(), 2);
}
