use tl_async_runtime::ready::{get_thread_count, Acquire, Queue};

fn task<T>(acquired: Acquire<T>) -> Option<T> {
    match acquired {
        Acquire::Task(task) => task,
        Acquire::Wait => panic!("told to wait"),
    }
}

fn waits<T>(acquired: Acquire<T>) -> bool {
    matches!(acquired, Acquire::Wait)
}

#[test]
fn thread_count_is_what_the_machine_reports() {
    assert_eq!(get_thread_count(Some(7)), 7);
    assert_eq!(get_thread_count(Some(1)), 1);
    assert_eq!(get_thread_count(None), 4);
    let queue: Queue<u8> = Queue::new(None);
    assert_eq!(queue.max_waiting(), 4);
    assert_eq!(queue.waiting(), 0);
}

#[test]
fn tasks_leave_in_the_order_of_their_signals() {
    let mut queue = Queue::new(Some(2));
    assert!(queue.should_wait());
    queue.signal("a");
    queue.signal("b");
    assert!(!queue.should_wait());
    assert_eq!(task(queue.acquire_task(false)), Some("a"));
    queue.signal("c");
    assert_eq!(task(queue.acquire_task(false)), Some("b"));
    assert_eq!(task(queue.acquire_task(false)), Some("c"));
    assert!(queue.should_wait());
    assert_eq!(task(queue.acquire_task(false)), None);
}

#[test]
fn the_last_worker_is_not_told_to_wait() {
    let mut queue: Queue<u8> = Queue::new(Some(3));
    assert!(waits(queue.acquire_task(true)));
    assert!(waits(queue.acquire_task(true)));
    assert_eq!(queue.waiting(), 2);
    assert_eq!(task(queue.acquire_task(true)), None);
    assert_eq!(queue.waiting(), 2);
    queue.signal(9);
    assert_eq!(queue.resume(), Some(9));
    assert_eq!(queue.waiting(), 1);
    assert_eq!(queue.resume(), None);
    assert_eq!(queue.waiting(), 0);
}

#[test]
fn a_single_worker_never_waits() {
    let mut queue: Queue<u8> = Queue::new(Some(1));
    assert_eq!(task(queue.acquire_task(true)), None);
    let mut none: Queue<u8> = Queue::new(Some(0));
    assert_eq!(task(none.acquire_task(true)), None);
}

#[test]
fn a_worker_does_not_wait_beside_a_task() {
    let mut queue = Queue::new(Some(2));
    queue.signal(1);
    assert_eq!(task(queue.acquire_task(true)), Some(1));
    assert_eq!(queue.waiting(), 0);
    assert!(waits(queue.acquire_task(true)));
}
