use std::sync::atomic::{AtomicUsize, Ordering};
use std::sync::{Arc, Mutex};
use std::task::{Wake, Waker};
use tl_async_runtime::io::{Event, OsEvent, Registration};
use tl_async_runtime::reactor::{BookKeepingAction, BookKeepingInput, Books, Reactor};

struct Recorder {
    name: char,
    log: Arc<Mutex<Vec<char>>>,
    count: AtomicUsize,
}

impl Wake for Recorder {
    fn wake(self: Arc<Self>) {
        self.count.fetch_add(1, Ordering::SeqCst);
        self.log.lock().unwrap().push(self.name);
    }
}

fn waker(name: char, log: &Arc<Mutex<Vec<char>>>) -> Waker {
    Waker::from(Arc::new(Recorder {
        name,
        log: log.clone(),
        count: AtomicUsize::new(0),
    }))
}

fn keep(reactor: &mut Reactor, now: u128, events: Vec<OsEvent>) -> Books {
    let wakes = match reactor.book_keeping(BookKeepingInput::Start(now)) {
        BookKeepingAction::PollOs(wakes) => wakes,
        BookKeepingAction::Done(_) => panic!("events are asked for"),
    };
    match reactor.book_keeping(BookKeepingInput::Polled(wakes, events)) {
        BookKeepingAction::Done(books) => books,
        BookKeepingAction::PollOs(_) => panic!("events were asked for"),
    }
}

fn total(books: Books) -> usize {
    match books.total() {
        Ok(total) => total,
        Err(_) => panic!("undelivered"),
    }
}

#[test]
fn elapsed_timers_are_woken_in_order() {
    let log = Arc::new(Mutex::new(vec![]));
    let mut reactor = Reactor::default();
    reactor.timers.insert(30, waker('c', &log));
    reactor.timers.insert(10, waker('a', &log));
    reactor.timers.insert(20, waker('b', &log));
    let books = keep(&mut reactor, 20, vec![]);
    assert_eq!(books.wakes.count(), 2);
    assert_eq!(total(books), 2);
    assert_eq!(*log.lock().unwrap(), vec!['a', 'b']);
    assert_eq!(total(keep(&mut reactor, 20, vec![])), 0);
    assert_eq!(total(keep(&mut reactor, 31, vec![])), 1);
    assert_eq!(*log.lock().unwrap(), vec!['a', 'b', 'c']);
}

#[test]
fn timers_and_events_are_counted_together() {
    let log = Arc::new(Mutex::new(vec![]));
    let mut reactor = Reactor::default();
    reactor.timers.insert(1, waker('a', &log));
    let mut receiver = Registration::with_token(5).events(&mut reactor.os);
    let event = OsEvent {
        token: 5,
        readable: true,
        writable: true,
    };
    let stray = OsEvent { token: 6, ..event };
    assert_eq!(total(keep(&mut reactor, 1, vec![event, stray, event])), 3);
    assert_eq!(receiver.try_recv(), Ok(Event(6)));
    assert_eq!(receiver.try_recv(), Ok(Event(6)));
    assert!(receiver.try_recv().is_err());
}

#[test]
fn an_undelivered_event_is_reported_after_the_timers_were_woken() {
    let log = Arc::new(Mutex::new(vec![]));
    let mut reactor = Reactor::default();
    reactor.timers.insert(1, waker('a', &log));
    drop(Registration::with_token(5).events(&mut reactor.os));
    let event = OsEvent {
        token: 5,
        readable: false,
        writable: true,
    };
    match keep(&mut reactor, 1, vec![event]).total() {
        Ok(_) => panic!("nobody receives it"),
        Err(failure) => {
            assert_eq!(failure.token, 5);
            assert_eq!(failure.refused.event(), Event(4));
            assert_eq!(failure.sends.count(), 0);
        }
    }
    assert_eq!(*log.lock().unwrap(), vec!['a']);
}
