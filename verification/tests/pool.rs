use worker_pool::error::PoolError;
use worker_pool::pool::ThreadPool;
use worker_pool::queue::Claim;
use worker_pool::worker::WorkerState;

fn pool_of(size: usize) -> ThreadPool<u32> {
    match ThreadPool::new(size) {
        Ok(pool) => pool,
        Err(error) => panic!("no pool of {} workers: {:?}", size, error),
    }
}

#[test]
fn a_pool_without_workers_is_refused() {
    let made: Result<ThreadPool<u32>, PoolError> = ThreadPool::new(0);
    assert!(matches!(made, Err(PoolError::Configuration)));
}

#[test]
fn a_new_pool_has_its_workers_claiming() {
    let pool = pool_of(4);
    assert_eq!(pool.size(), 4);
    assert_eq!(pool.pending(), 0);
    assert!(!pool.is_closed());
    assert!(!pool.is_shut_down());
    for id in 0..4 {
        assert_eq!(pool.worker_state(id), Some(WorkerState::Claiming));
    }
    assert_eq!(pool.worker_state(4), None);
}

#[test]
fn an_idle_pool_shuts_down_in_one_claim_per_worker() {
    for size in 1..=8usize {
        let mut pool = pool_of(size);
        pool.close();
        for id in 0..size {
            assert!(!pool.is_shut_down());
            assert!(matches!(pool.claim(id), Claim::EndOfStream));
            assert_eq!(pool.worker_state(id), Some(WorkerState::Terminated));
        }
        assert!(pool.is_shut_down());
    }
}

#[test]
fn an_open_pool_makes_an_idle_worker_wait() {
    let mut pool = pool_of(2);
    assert!(matches!(pool.claim(1), Claim::Wait));
    assert_eq!(pool.worker_state(1), Some(WorkerState::Claiming));
    assert_eq!(pool.execute(9), Ok(()));
    assert!(matches!(pool.claim(1), Claim::Task(9)));
    assert_eq!(pool.worker_state(1), Some(WorkerState::Executing));
    assert_eq!(pool.worker_state(0), Some(WorkerState::Claiming));
}

#[test]
fn every_task_is_handed_out_exactly_once() {
    let mut pool = pool_of(3);
    let mut collected: Vec<u32> = Vec::new();
    let mut busy: Vec<usize> = Vec::new();
    let total: u32 = 50;
    let mut next: u32 = 0;
    let mut turn: usize = 0;
    while next < total || !busy.is_empty() || pool.pending() > 0 {
        if next < total {
            assert_eq!(pool.execute(next), Ok(()));
            next += 1;
            if turn % 3 == 0 && next < total {
                assert_eq!(pool.execute(next), Ok(()));
                next += 1;
            }
        }
        let id = turn % 3;
        match pool.worker_state(id) {
            Some(WorkerState::Claiming) => {
                if let Claim::Task(task) = pool.claim(id) {
                    collected.push(task);
                    busy.push(id);
                }
            }
            Some(WorkerState::Executing) => {
                pool.complete(id);
                busy.retain(|other| *other != id);
            }
            _ => panic!("a worker stopped while the queue was open"),
        }
        turn += 1;
    }
    pool.close();
    for id in 0..3 {
        assert!(matches!(pool.claim(id), Claim::EndOfStream));
    }
    assert!(pool.is_shut_down());
    let expected: Vec<u32> = (0..total).collect();
    assert_eq!(collected, expected);
}

#[test]
fn two_workers_execute_at_the_same_time() {
    let mut pool = pool_of(2);
    assert_eq!(pool.execute(1), Ok(()));
    assert_eq!(pool.execute(2), Ok(()));
    assert!(matches!(pool.claim(0), Claim::Task(1)));
    assert!(matches!(pool.claim(1), Claim::Task(2)));
    assert_eq!(pool.worker_state(0), Some(WorkerState::Executing));
    assert_eq!(pool.worker_state(1), Some(WorkerState::Executing));
    assert_eq!(pool.pending(), 0);
}

#[test]
fn a_task_submitted_after_close_is_refused_and_never_handed_out() {
    let mut pool = pool_of(2);
    assert_eq!(pool.execute(1), Ok(()));
    pool.close();
    assert!(pool.is_closed());
    assert_eq!(pool.execute(2), Err(PoolError::Dispatch));
    assert_eq!(pool.pending(), 1);
    assert!(matches!(pool.claim(0), Claim::Task(1)));
    assert!(matches!(pool.claim(1), Claim::EndOfStream));
    pool.complete(0);
    assert!(matches!(pool.claim(0), Claim::EndOfStream));
    assert!(pool.is_shut_down());
    assert_eq!(pool.execute(3), Err(PoolError::Dispatch));
    assert_eq!(pool.pending(), 0);
}

#[test]
fn a_single_worker_takes_one_task_at_a_time() {
    let mut pool = pool_of(1);
    assert_eq!(pool.execute(1), Ok(()));
    assert_eq!(pool.execute(2), Ok(()));
    assert!(matches!(pool.claim(0), Claim::Task(1)));
    assert_eq!(pool.worker_state(0), Some(WorkerState::Executing));
    assert_eq!(pool.pending(), 1);
    pool.complete(0);
    assert_eq!(pool.worker_state(0), Some(WorkerState::Claiming));
    assert!(matches!(pool.claim(0), Claim::Task(2)));
    assert_eq!(pool.pending(), 0);
}

#[test]
fn teardown_waits_for_the_task_at_hand() {
    let mut pool = pool_of(2);
    assert_eq!(pool.execute(1), Ok(()));
    assert!(matches!(pool.claim(0), Claim::Task(1)));
    pool.close();
    assert!(matches!(pool.claim(1), Claim::EndOfStream));
    assert!(!pool.is_shut_down());
    assert_eq!(pool.worker_state(0), Some(WorkerState::Executing));
    pool.complete(0);
    assert!(!pool.is_shut_down());
    assert!(matches!(pool.claim(0), Claim::EndOfStream));
    assert!(pool.is_shut_down());
}

#[test]
fn closing_a_pool_twice_changes_nothing() {
    let mut pool = pool_of(1);
    assert_eq!(pool.execute(4), Ok(()));
    pool.close();
    pool.close();
    assert!(pool.is_closed());
    assert_eq!(pool.pending(), 1);
    assert_eq!(pool.worker_state(0), Some(WorkerState::Claiming));
    assert!(matches!(pool.claim(0), Claim::Task(4)));
}
