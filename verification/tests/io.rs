use tl_async_runtime::io::sends::Sends;
use tl_async_runtime::io::{
    Event, Interest, Os, OsEvent, Registration, EVENT_CAPACITY,
    POLL_TIMEOUT_MILLIS,
};

fn os_event(token: usize, readable: bool, writable: bool) -> OsEvent {
    OsEvent {
        token,
        readable,
        writable,
    }
}

#[test]
fn the_two_lowest_bits_are_read() {
    for (bits, readable, writable) in [
        (0, false, false),
        (1, true, false),
        (2, false, true),
        (3, true, true),
        (4, false, false),
        (255, true, true),
    ] {
        assert_eq!(Event(bits).is_readable(), readable);
        assert_eq!(Event(bits).is_writable(), writable);
    }
}

#[test]
fn the_second_and_third_bits_are_written() {
    assert_eq!(Event::from(&os_event(1, false, false)), Event(0));
    assert_eq!(Event::from(&os_event(1, true, false)), Event(2));
    assert_eq!(Event::from(&os_event(1, false, true)), Event(4));
    assert_eq!(Event::from(&os_event(1, true, true)), Event(6));
    for readable in [false, true] {
        for writable in [false, true] {
            let event = Event::from(&os_event(1, readable, writable));
            assert!(!event.is_readable());
            assert_eq!(event.is_writable(), readable);
        }
    }
}

#[test]
fn polling_constants() {
    assert_eq!(EVENT_CAPACITY, 128);
    assert_eq!(POLL_TIMEOUT_MILLIS, 10);
}

#[test]
fn only_awaited_sources_are_routed() {
    let mut os = Os::default();
    let seven = Registration::with_token(7);
    let _receiver = seven.events(&mut os);
    let events = vec![
        os_event(7, true, false),
        os_event(8, true, false),
        os_event(7, false, true),
    ];
    assert_eq!(os.route(&events), vec![(7, Event(2)), (7, Event(4))]);
    seven.deregister(&mut os);
    assert!(os.route(&events).is_empty());
}

#[test]
fn routing_two_batches_is_routing_their_sum() {
    let mut os = Os::default();
    let _one = Registration::with_token(1).events(&mut os);
    let first = vec![os_event(1, true, true), os_event(2, true, true)];
    let second = vec![os_event(1, false, true)];
    let mut sum = os.route(&first);
    sum.extend(os.route(&second));
    let all = [first, second].concat();
    assert_eq!(os.route(&all), sum);
}

#[test]
fn events_reach_the_last_receiver() {
    let mut os = Os::default();
    let registration = Registration::with_token(3);
    let mut first = registration.events(&mut os);
    let mut second = registration.events(&mut os);
    match os.process(&vec![os_event(3, true, false), os_event(4, true, true)]) {
        Ok(sends) => assert_eq!(sends.count(), 1),
        Err(_) => panic!("undelivered"),
    }
    assert_eq!(second.try_recv(), Ok(Event(2)));
    assert!(second.try_recv().is_err());
    assert!(first.try_recv().is_err());
}

#[test]
fn dispatch_stops_where_nobody_receives() {
    let mut os = Os::default();
    let mut kept = Registration::with_token(1).events(&mut os);
    drop(Registration::with_token(2).events(&mut os));
    let events = vec![
        os_event(1, true, false),
        os_event(2, true, true),
        os_event(1, false, true),
    ];
    match os.process(&events) {
        Ok(_) => panic!("nobody receives the second"),
        Err(failure) => {
            assert_eq!(failure.sends.count(), 1);
            assert_eq!(failure.token, 2);
            assert_eq!(failure.refused.event(), Event(6));
        }
    }
    assert_eq!(kept.try_recv(), Ok(Event(2)));
    assert!(kept.try_recv().is_err());
}

#[test]
fn nothing_is_sent_for_no_events() {
    match Os::default().process(&vec![]) {
        Ok(sends) => assert_eq!(sends.count(), 0),
        Err(_) => panic!("undelivered"),
    }
}

#[test]
fn a_failed_send_gives_the_event_back() {
    let (sender, mut receiver) = futures::channel::mpsc::unbounded();
    let mut sends = Sends::none();
    assert!(sends.send(&sender, Event(9)).is_ok());
    assert_eq!(receiver.try_recv(), Ok(Event(9)));
    drop(receiver);
    match sends.send(&sender, Event(5)) {
        Ok(()) => panic!("nobody receives it"),
        Err(refused) => assert_eq!(refused.event(), Event(5)),
    }
    assert_eq!(sends.count(), 1);
}

const BOTH: Interest = Interest {
    readable: true,
    writable: true,
};

#[test]
fn tokens_are_drawn_at_random() {
    let tokens: Vec<usize> = (0..8)
        .map(|_| match Registration::new((), BOTH, |(), _, _| Ok::<(), ()>(())) {
            Ok((registration, ())) => registration.token(),
            Err(()) => panic!("not registered"),
        })
        .collect();
    assert!(tokens.iter().any(|token| *token != tokens[0]));
    assert_eq!(Registration::with_token(12).token(), 12);
}

#[test]
fn a_registration_holds_the_token_that_was_asked_for() {
    let mut asked = vec![];
    let outcome = Registration::new("source", BOTH, |source, token, interests| {
        asked.push((source, token, interests));
        Ok::<&str, ()>(source)
    });
    match outcome {
        Ok((registration, source)) => {
            assert_eq!(source, "source");
            assert_eq!(asked, vec![("source", registration.token(), BOTH)]);
        }
        Err(()) => panic!("not registered"),
    }
}

#[test]
fn an_error_of_registering_is_handed_on() {
    let outcome = Registration::new((), BOTH, |(), _, _| Err::<(), &str>("refused"));
    assert_eq!(outcome.err(), Some("refused"));
}
