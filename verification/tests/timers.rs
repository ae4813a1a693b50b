use tl_async_runtime::reactor::timers::{PriorityQueueEntry, Queue, Sleep};
use tl_async_runtime::timers as numbered;
use tl_async_runtime::Poll;

#[test]
fn entries_are_compared_by_their_instants() {
    let early = PriorityQueueEntry("a", 1);
    let late = PriorityQueueEntry("b", 2);
    assert!(late < early);
    assert!(early > late);
    assert!(PriorityQueueEntry("x", 2) == late);
    assert!(early != late);
}

#[test]
fn wakers_leave_in_the_order_in_which_they_are_due() {
    let mut queue = Queue::default();
    for (instant, task) in [(30, "c"), (10, "a"), (40, "d"), (20, "b")] {
        queue.insert(instant, task);
    }
    assert_eq!(queue.next(9), None);
    assert_eq!(queue.next(10), Some("a"));
    assert_eq!(queue.next(10), None);
    assert_eq!(queue.next(35), Some("b"));
    assert_eq!(queue.next(35), Some("c"));
    assert_eq!(queue.next(35), None);
    assert_eq!(queue.next(u128::MAX), Some("d"));
    assert_eq!(queue.next(u128::MAX), None);
}

#[test]
fn of_equal_instants_the_first_inserted_leaves_first() {
    let mut queue = Queue::default();
    queue.insert(5, 1);
    queue.insert(5, 2);
    queue.insert(4, 0);
    queue.insert(5, 3);
    let mut order = vec![];
    while let Some(task) = queue.next(5) {
        order.push(task);
    }
    assert_eq!(order, vec![0, 1, 2, 3]);
}

#[test]
fn book_keeping_at_two_instants_wakes_the_same() {
    let fill = || {
        let mut queue = Queue::default();
        for (instant, task) in [(3, 'x'), (1, 'y'), (2, 'z'), (9, 'w')] {
            queue.insert(instant, task);
        }
        queue
    };
    let drain = |queue: &mut Queue<char>, now| {
        let mut order = vec![];
        while let Some(task) = queue.next(now) {
            order.push(task);
        }
        order
    };
    let mut once = fill();
    let mut twice = fill();
    let mut both = drain(&mut twice, 1);
    both.extend(drain(&mut twice, 5));
    assert_eq!(drain(&mut once, 5), both);
    assert_eq!(both, vec!['y', 'z', 'x']);
}

#[test]
fn a_sleep_lasts_its_duration() {
    let sleep = Sleep::duration(100, 50);
    let mut timers = Queue::default();
    assert!(matches!(sleep.poll(149, &mut timers, 'a'), Poll::Pending));
    assert!(!sleep.is_over(149));
    assert!(sleep.is_over(150));
    assert!(matches!(sleep.poll(150, &mut timers, 'b'), Poll::Ready(())));
    assert_eq!(timers.next(149), None);
    assert_eq!(timers.next(150), Some('a'));
    assert_eq!(timers.next(u128::MAX), None);
}

#[test]
fn a_sleep_until_a_past_instant_is_over() {
    let mut timers = Queue::default();
    assert!(matches!(Sleep::until(7).poll(8, &mut timers, ()), Poll::Ready(())));
    assert!(matches!(Sleep::until(8).poll(8, &mut timers, ()), Poll::Ready(())));
    assert!(matches!(Sleep::until(9).poll(8, &mut timers, ()), Poll::Pending));
}

#[test]
fn numbered_tasks_leave_by_instant_then_by_greater_number() {
    let mut queue = numbered::Queue::default();
    for (instant, task) in [(20, 1), (10, 5), (10, 7), (20, 0), (10, 6)] {
        queue.insert(instant, task);
    }
    assert_eq!(queue.next(9), None);
    assert_eq!(queue.next(15), Some(7));
    assert_eq!(queue.next(15), Some(6));
    assert_eq!(queue.next(15), Some(5));
    assert_eq!(queue.next(15), None);
    assert_eq!(queue.next(20), Some(1));
    assert_eq!(queue.next(20), Some(0));
    assert_eq!(queue.next(20), None);
}

#[test]
fn a_numbered_sleep_queues_its_task() {
    let mut timers = numbered::Queue::default();
    let sleep = numbered::Sleep::duration(1, 2);
    assert!(matches!(sleep.poll(2, &mut timers, 4), Poll::Pending));
    assert!(matches!(sleep.poll(2, &mut timers, 4), Poll::Pending));
    assert!(matches!(sleep.poll(3, &mut timers, 4), Poll::Ready(())));
    assert_eq!(timers.next(3), Some(4));
    assert_eq!(timers.next(3), Some(4));
    assert_eq!(timers.next(3), None);
}
