use tl_async_runtime::io::net::{
    AcceptAction, AcceptInput, Action, ErrorKind, EventPoll, Failure, Input, StreamError,
    TcpListener, TcpStream,
};
use tl_async_runtime::io::{Event, Interest, Os, OsEvent, Registration};
use tl_async_runtime::Poll;

const READABLE: Event = Event(1);
const WRITABLE: Event = Event(2);

fn stream() -> TcpStream {
    TcpStream::registered(Registration::with_token(4))
}

fn would_block<N>() -> Input<N, &'static str> {
    Input::Tried(Err(Failure {
        kind: ErrorKind::WouldBlock,
        error: "would block",
    }))
}

fn broken<N>() -> Input<N, &'static str> {
    Input::Tried(Err(Failure {
        kind: ErrorKind::Other,
        error: "broken",
    }))
}

fn received<N>(event: Event) -> Input<N, &'static str> {
    Input::Polled(EventPoll::Received(event))
}

#[test]
fn a_new_stream_tries_both_directions() {
    let mut stream = stream();
    assert_eq!(stream.registration().token(), 4);
    assert!(matches!(stream.poll_read::<usize, ()>(Input::Start), Action::Try));
    assert!(matches!(stream.poll_write::<usize, ()>(Input::Start), Action::Try));
}

#[test]
fn a_successful_read_is_answered_and_repeated() {
    let mut stream = stream();
    stream.poll_read::<usize, &str>(Input::Start);
    assert!(matches!(
        stream.poll_read::<usize, &str>(Input::Tried(Ok(12))),
        Action::Return(Poll::Ready(Ok(12)))
    ));
    assert!(matches!(stream.poll_read::<usize, &str>(Input::Start), Action::Try));
}

#[test]
fn a_read_that_would_block_waits_for_an_event() {
    let mut stream = stream();
    stream.poll_read::<usize, &str>(Input::Start);
    assert!(matches!(stream.poll_read::<usize, _>(would_block()), Action::PollEvent));
    assert!(matches!(
        stream.poll_read::<usize, &str>(Input::Polled(EventPoll::Pending)),
        Action::Return(Poll::Pending)
    ));
    // the next poll asks for an event at once
    assert!(matches!(stream.poll_read::<usize, &str>(Input::Start), Action::PollEvent));
    // an event that says nothing about reading does not help
    assert!(matches!(stream.poll_read::<usize, _>(received(WRITABLE)), Action::PollEvent));
    assert!(matches!(stream.poll_read::<usize, _>(received(READABLE)), Action::Try));
}

#[test]
fn an_error_of_the_socket_is_answered() {
    let mut stream = stream();
    stream.poll_write::<usize, &str>(Input::Start);
    assert!(matches!(
        stream.poll_write::<usize, _>(broken()),
        Action::Return(Poll::Ready(Err(StreamError::Io("broken"))))
    ));
    assert!(matches!(stream.poll_write::<usize, &str>(Input::Start), Action::PollEvent));
}

#[test]
fn a_closed_channel_is_a_broken_pipe() {
    let mut stream = stream();
    stream.poll_flush::<&str>(Input::Start);
    assert!(matches!(stream.poll_flush(would_block()), Action::PollEvent));
    assert!(matches!(
        stream.poll_flush::<&str>(Input::Polled(EventPoll::Closed)),
        Action::Return(Poll::Ready(Err(StreamError::ChannelDisconnected)))
    ));
    assert_eq!(
        StreamError::<()>::disconnected_message(),
        "channel disconnected"
    );
}

#[test]
fn writing_and_flushing_share_their_readiness() {
    let mut stream = stream();
    stream.poll_write::<usize, &str>(Input::Start);
    stream.poll_write::<usize, _>(would_block());
    assert!(matches!(stream.poll_flush::<&str>(Input::Start), Action::PollEvent));
    assert!(matches!(stream.poll_flush(received(WRITABLE)), Action::Try));
    assert!(matches!(
        stream.poll_flush::<&str>(Input::Tried(Ok(()))),
        Action::Return(Poll::Ready(Ok(())))
    ));
    assert!(matches!(stream.poll_write::<usize, &str>(Input::Start), Action::Try));
}

#[test]
fn reading_keeps_the_readiness_to_write() {
    let mut stream = stream();
    stream.poll_read::<usize, &str>(Input::Start);
    stream.poll_read::<usize, _>(would_block());
    stream.poll_read::<usize, &str>(Input::Polled(EventPoll::Pending));
    assert!(matches!(stream.poll_write::<usize, &str>(Input::Start), Action::Try));
    // while writing, an event is remembered for the reader
    stream.poll_write::<usize, _>(would_block());
    assert!(matches!(stream.poll_write::<usize, _>(received(READABLE)), Action::PollEvent));
    assert!(matches!(stream.poll_read::<usize, &str>(Input::Start), Action::Try));
}

#[test]
fn poll_event_reports_what_the_channel_gave() {
    let mut stream = stream();
    assert!(matches!(stream.poll_event::<()>(EventPoll::Pending), Poll::Pending));
    assert!(matches!(
        stream.poll_event::<()>(EventPoll::Received(Event(3))),
        Poll::Ready(Ok(()))
    ));
    assert!(matches!(
        stream.poll_event::<()>(EventPoll::Closed),
        Poll::Ready(Err(StreamError::ChannelDisconnected))
    ));
}

#[test]
fn interests_of_listeners_and_streams() {
    assert_eq!(
        TcpListener::interests(),
        Interest {
            readable: true,
            writable: false
        }
    );
    assert_eq!(
        TcpStream::interests(),
        Interest {
            readable: true,
            writable: true
        }
    );
}

fn listener() -> TcpListener {
    match TcpListener::bind(Ok::<(), ()>(()), |(), _, _| Ok(())) {
        Ok((listener, ())) => listener,
        Err(()) => panic!("not bound"),
    }
}

#[test]
fn a_listener_is_registered_for_reading() {
    let mut asked = vec![];
    let bound = TcpListener::bind(Ok::<&str, &str>("socket"), |socket, token, interests| {
        asked.push((socket, token, interests));
        Ok(socket)
    });
    match bound {
        Ok((listener, socket)) => {
            assert_eq!(socket, "socket");
            let token = listener.registration().token();
            assert_eq!(asked, vec![("socket", token, TcpListener::interests())]);
        }
        Err(error) => panic!("{}", error),
    }
}

#[test]
fn binding_fails_with_its_own_error_or_that_of_registering() {
    let mut asked = 0;
    let unbound = TcpListener::bind(Err::<(), &str>("in use"), |(), _, _| {
        asked += 1;
        Ok(())
    });
    assert_eq!(unbound.err(), Some("in use"));
    assert_eq!(asked, 0);
    let refused = TcpListener::bind(Ok::<(), &str>(()), |(), _, _| Err("refused"));
    assert_eq!(refused.err(), Some("refused"));
}

#[test]
fn the_events_of_a_new_stream_reach_its_receiver() {
    let mut os = Os::default();
    let mut wanted = None;
    let made = TcpStream::from_mio(
        "socket",
        |socket, token, interests| {
            wanted = Some((token, interests));
            Ok::<&str, ()>(socket)
        },
        &mut os,
    );
    let (stream, socket, mut events) = match made {
        Ok(made) => made,
        Err(()) => panic!("not registered"),
    };
    let token = stream.registration().token();
    assert_eq!(socket, "socket");
    assert_eq!(wanted, Some((token, TcpStream::interests())));
    let event = OsEvent {
        token,
        readable: true,
        writable: false,
    };
    assert!(os.process(&vec![event]).is_ok());
    assert_eq!(events.try_recv(), Ok(Event(2)));
}

#[test]
fn a_stream_that_cannot_be_registered_awaits_nothing() {
    let mut os = Os::default();
    let mut drawn = 0;
    let made = TcpStream::from_mio(
        (),
        |(), token, _| {
            drawn = token;
            Err::<(), &str>("refused")
        },
        &mut os,
    );
    assert_eq!(made.err(), Some("refused"));
    let event = OsEvent {
        token: drawn,
        readable: true,
        writable: true,
    };
    assert!(os.route(&vec![event]).is_empty());
}

type Step = AcceptAction<u8, char, u16, &'static str>;

#[test]
fn accepting_waits_tries_and_registers() {
    let listener = listener();
    let step = |input| -> Step { listener.accept(input) };
    assert!(matches!(step(AcceptInput::Start), AcceptAction::AwaitEvent));
    assert!(matches!(step(AcceptInput::EventSeen), AcceptAction::TryAccept));
    let blocked = Failure {
        kind: ErrorKind::WouldBlock,
        error: "would block",
    };
    assert!(matches!(
        step(AcceptInput::Accepted(Err(blocked))),
        AcceptAction::AwaitEvent
    ));
    assert!(matches!(
        step(AcceptInput::Accepted(Ok((7, 'a')))),
        AcceptAction::Register(7, 'a')
    ));
    assert!(matches!(
        step(AcceptInput::Registered(Ok(70), 'a')),
        AcceptAction::Return(Ok((70, 'a')))
    ));
}

#[test]
fn accepting_ends_with_an_error() {
    let listener = listener();
    let step = |input| -> Step { listener.accept(input) };
    let failed = Failure {
        kind: ErrorKind::Other,
        error: "failed",
    };
    assert!(matches!(
        step(AcceptInput::Accepted(Err(failed))),
        AcceptAction::Return(Err("failed"))
    ));
    assert!(matches!(
        step(AcceptInput::Registered(Err("refused"), 'a')),
        AcceptAction::Return(Err("refused"))
    ));
}
