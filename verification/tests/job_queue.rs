use worker_pool::{JobQueue, QueueClosed, Received};

#[test]
fn new_queue_is_open_and_empty() {
    let queue: JobQueue<u32> = JobQueue::new();
    assert!(queue.is_open());
    assert!(queue.is_empty());
    assert_eq!(queue.len(), 0);
}

#[test]
fn empty_open_queue_yields_empty() {
    let mut queue: JobQueue<u32> = JobQueue::new();
    assert_eq!(queue.recv(), Received::Empty);
    assert_eq!(queue.len(), 0);
}

#[test]
fn queue_delivers_in_order_of_acceptance() {
    let mut queue: JobQueue<u32> = JobQueue::new();
    for job in [30, 10, 20] {
        assert_eq!(queue.send(job), Ok(()));
    }
    assert_eq!(queue.len(), 3);
    assert!(!queue.is_empty());
    assert_eq!(queue.recv(), Received::Job(30));
    assert_eq!(queue.recv(), Received::Job(10));
    assert_eq!(queue.len(), 1);
    assert_eq!(queue.recv(), Received::Job(20));
    assert_eq!(queue.recv(), Received::Empty);
    assert!(queue.is_empty());
}

#[test]
fn queue_delivers_each_job_once() {
    let mut queue: JobQueue<u32> = JobQueue::new();
    assert_eq!(queue.send(7), Ok(()));
    assert_eq!(queue.recv(), Received::Job(7));
    assert_eq!(queue.recv(), Received::Empty);
    assert_eq!(queue.recv(), Received::Empty);
}

#[test]
fn interleaved_sends_keep_their_order() {
    let mut queue: JobQueue<u32> = JobQueue::new();
    assert_eq!(queue.send(1), Ok(()));
    assert_eq!(queue.send(2), Ok(()));
    assert_eq!(queue.recv(), Received::Job(1));
    assert_eq!(queue.send(3), Ok(()));
    assert_eq!(queue.recv(), Received::Job(2));
    assert_eq!(queue.recv(), Received::Job(3));
}

#[test]
fn send_after_sender_released_returns_the_job() {
    let mut queue: JobQueue<u32> = JobQueue::new();
    queue.close_sending();
    assert!(!queue.is_open());
    assert_eq!(queue.send(5), Err(QueueClosed(5)));
    assert_eq!(queue.len(), 0);
}

#[test]
fn send_after_receiver_released_returns_the_job() {
    let mut queue: JobQueue<u32> = JobQueue::new();
    queue.close_receiving();
    assert!(!queue.is_open());
    assert_eq!(queue.send(6), Err(QueueClosed(6)));
    assert_eq!(queue.len(), 0);
}

#[test]
fn refused_job_can_be_taken_back() {
    let mut queue: JobQueue<String> = JobQueue::new();
    queue.close_sending();
    match queue.send(String::from("job")) {
        Ok(()) => panic!("a closed queue accepted a job"),
        Err(closed) => assert_eq!(closed.into_job(), "job"),
    }
}

#[test]
fn pending_jobs_outlive_the_sender() {
    let mut queue: JobQueue<u32> = JobQueue::new();
    assert_eq!(queue.send(1), Ok(()));
    assert_eq!(queue.send(2), Ok(()));
    queue.close_sending();
    assert_eq!(queue.recv(), Received::Job(1));
    assert_eq!(queue.recv(), Received::Job(2));
    assert_eq!(queue.recv(), Received::Disconnected);
    assert_eq!(queue.recv(), Received::Disconnected);
}

#[test]
fn nothing_is_received_after_receiver_released() {
    let mut queue: JobQueue<u32> = JobQueue::new();
    assert_eq!(queue.send(1), Ok(()));
    queue.close_receiving();
    assert_eq!(queue.recv(), Received::Disconnected);
    assert_eq!(queue.len(), 1);
}
