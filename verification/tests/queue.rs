use worker_pool::error::PoolError;
use worker_pool::queue::{Claim, TaskQueue};

#[test]
fn new_queue_is_open_and_empty() {
    let queue: TaskQueue<u32> = TaskQueue::new();
    assert!(!queue.is_closed());
    assert_eq!(queue.len(), 0);
}

#[test]
fn open_empty_queue_tells_the_worker_to_wait() {
    let mut queue: TaskQueue<u32> = TaskQueue::new();
    assert!(matches!(queue.claim(), Claim::Wait));
    assert_eq!(queue.len(), 0);
    assert!(!queue.is_closed());
}

#[test]
fn tasks_come_out_in_submission_order() {
    let mut queue: TaskQueue<u32> = TaskQueue::new();
    assert_eq!(queue.submit(10), Ok(()));
    assert_eq!(queue.submit(20), Ok(()));
    assert_eq!(queue.submit(30), Ok(()));
    assert_eq!(queue.len(), 3);
    assert!(matches!(queue.claim(), Claim::Task(10)));
    assert!(matches!(queue.claim(), Claim::Task(20)));
    assert_eq!(queue.len(), 1);
    assert_eq!(queue.submit(40), Ok(()));
    assert!(matches!(queue.claim(), Claim::Task(30)));
    assert!(matches!(queue.claim(), Claim::Task(40)));
    assert!(matches!(queue.claim(), Claim::Wait));
}

#[test]
fn closed_queue_refuses_submissions() {
    let mut queue: TaskQueue<u32> = TaskQueue::new();
    queue.close();
    assert!(queue.is_closed());
    assert_eq!(queue.submit(1), Err(PoolError::Dispatch));
    assert_eq!(queue.len(), 0);
    assert!(matches!(queue.claim(), Claim::EndOfStream));
}

#[test]
fn closed_queue_still_hands_out_what_was_pending() {
    let mut queue: TaskQueue<u32> = TaskQueue::new();
    assert_eq!(queue.submit(1), Ok(()));
    assert_eq!(queue.submit(2), Ok(()));
    queue.close();
    assert_eq!(queue.submit(3), Err(PoolError::Dispatch));
    assert_eq!(queue.len(), 2);
    assert!(matches!(queue.claim(), Claim::Task(1)));
    assert!(matches!(queue.claim(), Claim::Task(2)));
    assert!(matches!(queue.claim(), Claim::EndOfStream));
    assert!(matches!(queue.claim(), Claim::EndOfStream));
}

#[test]
fn closing_twice_is_closing_once() {
    let mut queue: TaskQueue<u32> = TaskQueue::new();
    assert_eq!(queue.submit(5), Ok(()));
    queue.close();
    queue.close();
    assert!(queue.is_closed());
    assert_eq!(queue.len(), 1);
    assert!(matches!(queue.claim(), Claim::Task(5)));
    assert!(matches!(queue.claim(), Claim::EndOfStream));
}

#[test]
fn queue_moves_tasks_that_cannot_be_copied() {
    let mut queue: TaskQueue<Box<dyn FnOnce() -> u32>> = TaskQueue::new();
    let captured = String::from("four");
    assert!(queue.submit(Box::new(move || captured.len() as u32)).is_ok());
    match queue.claim() {
        Claim::Task(task) => assert_eq!(task(), 4),
        _ => panic!("the task was not handed out"),
    }
}
