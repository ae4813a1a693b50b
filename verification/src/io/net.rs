//! TCP listeners and streams: what to try next, and what to answer, given what
//! the socket and the event channel said.

use crate::io::{sent_to, Event, Interest, Os, Registration};
use crate::Poll;
use futures::channel::mpsc::UnboundedReceiver;
use vstd::prelude::*;

verus! {

/// The kinds of error on which a decision depends.
#[derive(Clone, Copy, Debug, PartialEq, Eq, Structural)]
pub enum ErrorKind {
    /// The operation would block the thread.
    WouldBlock,
    /// Any other kind.
    Other,
}

/// An error of the operating system, with its kind.
pub struct Failure<E> {
    pub kind: ErrorKind,
    pub error: E,
}

/// Why an operation on a stream failed.
pub enum StreamError<E> {
    /// The operating system said so.
    Io(E),
    /// The channel on which the events of the stream come has been closed: a
    /// broken pipe.
    ChannelDisconnected,
}

impl<E> StreamError<E> {
    /// What is said of a channel that has been closed.
    pub fn disconnected_message() -> (message: &'static str)
        ensures
            message@ == "channel disconnected"@,
    {
        "channel disconnected"
    }
}

/// What a poll of the event channel of a stream gave.
pub enum EventPoll {
    /// No event yet.
    Pending,
    /// An event.
    Received(Event),
    /// No event, and none will come.
    Closed,
}

/// What has just happened in an operation on a stream.
pub enum Input<N, E> {
    /// The operation begins.
    Start,
    /// The socket was tried, and said this.
    Tried(Result<N, Failure<E>>),
    /// The event channel was polled, and gave this.
    Polled(EventPoll),
}

/// What an operation on a stream does next.
pub enum Action<N, E> {
    /// Try the socket.
    Try,
    /// Poll the event channel.
    PollEvent,
    /// End the operation with this answer.
    Return(Poll<Result<N, StreamError<E>>>),
}

/// Which directions of a stream are worth trying.
#[verifier::ext_equal]
pub struct Readiness {
    pub readable: bool,
    pub writeable: bool,
}

impl Readiness {
    /// What is known once `event` has come: readiness is only ever added.
    pub open spec fn with(self, event: Event) -> Self {
        Readiness {
            readable: self.readable || event.readable(),
            writeable: self.writeable || event.writable(),
        }
    }

    /// The readiness of one direction.
    pub open spec fn of(self, direction: Direction) -> bool {
        match direction {
            Direction::Read => self.readable,
            Direction::Write => self.writeable,
        }
    }

    /// The same, but for one direction.
    pub open spec fn set(self, direction: Direction, ready: bool) -> Self {
        match direction {
            Direction::Read => Readiness { readable: ready, ..self },
            Direction::Write => Readiness { writeable: ready, ..self },
        }
    }

    /// What an operation that has nothing to wait for does: it tries the socket
    /// where that is worth it, and takes the readiness away until the socket has
    /// answered; else it asks for an event.
    pub open spec fn attempt<N, E>(self, direction: Direction) -> (Self, Action<N, E>) {
        if self.of(direction) {
            (self.set(direction, false), Action::Try)
        } else {
            (self, Action::PollEvent)
        }
    }

    /// One step of an operation in one direction: the readiness after `input`,
    /// and what to do next.
    pub open spec fn step<N, E>(self, direction: Direction, input: Input<N, E>) -> (
        Self,
        Action<N, E>,
    ) {
        match input {
            Input::Start => self.attempt(direction),
            Input::Tried(Ok(n)) => (
                self.set(direction, true),
                Action::Return(Poll::Ready(Ok(n))),
            ),
            Input::Tried(Err(failure)) => (
                self,
                match failure.kind {
                    ErrorKind::WouldBlock => Action::PollEvent,
                    ErrorKind::Other => Action::Return(
                        Poll::Ready(Err(StreamError::Io(failure.error))),
                    ),
                },
            ),
            Input::Polled(EventPoll::Pending) => (self, Action::Return(Poll::Pending)),
            Input::Polled(EventPoll::Closed) => (
                self,
                Action::Return(Poll::Ready(Err(StreamError::ChannelDisconnected))),
            ),
            Input::Polled(EventPoll::Received(event)) => self.with(event).attempt(direction),
        }
    }

    /// Where an operation stands once all of `inputs` have happened.
    pub open spec fn run<N, E>(self, direction: Direction, inputs: Seq<Input<N, E>>) -> (
        Self,
        Action<N, E>,
    )
        recommends
            inputs.len() > 0,
        decreases inputs.len(),
    {
        if inputs.len() <= 1 {
            self.step(direction, inputs[0])
        } else {
            self.run(direction, inputs.drop_last()).0.step(direction, inputs.last())
        }
    }

    /// `inputs` is what can happen in one operation: it begins, and then each
    /// input answers the action before it.
    pub open spec fn is_operation<N, E>(self, direction: Direction, inputs: Seq<Input<N, E>>) -> bool
        decreases inputs.len(),
    {
        if inputs.len() <= 1 {
            inputs.len() == 1 && inputs[0] is Start
        } else {
            &&& self.is_operation(direction, inputs.drop_last())
            &&& match self.run(direction, inputs.drop_last()).1 {
                Action::Try => inputs.last() is Tried,
                Action::PollEvent => inputs.last() is Polled,
                Action::Return(_) => false,
            }
        }
    }
}

/// The two directions of a stream.
pub enum Direction {
    Read,
    Write,
}

impl Direction {
    /// The direction that is not this one.
    pub open spec fn other(self) -> Direction {
        match self {
            Direction::Read => Direction::Write,
            Direction::Write => Direction::Read,
        }
    }
}

/// Handles communication over a TCP connection.
pub struct TcpStream {
    registration: Registration,
    readable: Option<()>,
    writeable: Option<()>,
}

impl View for TcpStream {
    type V = Readiness;

    closed spec fn view(&self) -> Readiness {
        Readiness { readable: self.readable is Some, writeable: self.writeable is Some }
    }
}

impl TcpStream {
    /// The registration of the stream with the operating system.
    pub closed spec fn spec_registration(&self) -> Registration {
        self.registration
    }

    /// The events that a stream is registered for.
    pub fn interests() -> (interests: Interest)
        ensures
            interests == (Interest { readable: true, writable: true }),
    {
        Interest { readable: true, writable: true }
    }

    /// Registers a connected stream with the operating system, for reading and
    /// writing, and has its events sent to the returned receiver. Both directions
    /// are worth trying at first.
    pub fn from_mio<S, E, F: FnOnce(S, usize, Interest) -> Result<S, E>>(
        stream: S,
        register: F,
        os: &mut Os,
    ) -> (outcome: Result<(Self, S, UnboundedReceiver<Event>), E>)
        requires
            forall|token: usize|
                register.requires((stream, token, Interest { readable: true, writable: true })),
        ensures
            exists|token: usize, asked: Result<S, E>| #[trigger]
                register.ensures(
                    (stream, token, Interest { readable: true, writable: true }),
                    asked,
                ) && (match asked {
                    Ok(registered) => outcome matches Ok((made, kept, events)) && {
                        &&& kept == registered
                        &&& made@ == (Readiness { readable: true, writeable: true })
                        &&& made.spec_registration().spec_token() == token
                        &&& sent_to(old(os)@, final(os)@, token, events)
                    },
                    Err(error) => outcome == Err::<(Self, S, UnboundedReceiver<Event>), E>(error)
                        && final(os)@ == old(os)@,
                }),
    {
        match Registration::new(stream, Self::interests(), register) {
            Ok((registration, registered)) => {
                let events = registration.events(os);
                Ok((Self::registered(registration), registered, events))
            },
            Err(error) => Err(error),
        }
    }

    /// A stream under a registration. Both directions are worth trying.
    pub fn registered(registration: Registration) -> (stream: Self)
        ensures
            stream@ == (Readiness { readable: true, writeable: true }),
            stream.spec_registration() == registration,
    {
        TcpStream { registration, readable: Some(()), writeable: Some(()) }
    }

    /// The registration of the stream with the operating system.
    pub fn registration(&self) -> (registration: &Registration)
        ensures
            *registration == self.spec_registration(),
    {
        &self.registration
    }

    /// Takes what the event channel gave into account.
    pub fn poll_event<E>(&mut self, polled: EventPoll) -> (poll: Poll<Result<(), StreamError<E>>>)
        ensures
            final(self).spec_registration() == old(self).spec_registration(),
            final(self)@ == (match polled {
                EventPoll::Received(event) => old(self)@.with(event),
                _ => old(self)@,
            }),
            poll == (match polled {
                EventPoll::Pending => Poll::Pending,
                EventPoll::Received(_) => Poll::Ready(Ok(())),
                EventPoll::Closed => Poll::Ready(Err(StreamError::<E>::ChannelDisconnected)),
            }),
    {
        match polled {
            EventPoll::Pending => Poll::Pending,
            EventPoll::Closed => Poll::Ready(Err(StreamError::ChannelDisconnected)),
            EventPoll::Received(event) => {
                if self.readable.is_none() && event.is_readable() {
                    self.readable = Some(());
                }
                if self.writeable.is_none() && event.is_writable() {
                    self.writeable = Some(());
                }
                Poll::Ready(Ok(()))
            },
        }
    }

    /// One step of reading from the stream.
    pub fn poll_read<N, E>(&mut self, input: Input<N, E>) -> (action: Action<N, E>)
        ensures
            final(self).spec_registration() == old(self).spec_registration(),
            (final(self)@, action) == old(self)@.step(Direction::Read, input),
    {
        match input {
            Input::Start => self.attempt_read(),
            Input::Tried(Ok(n)) => {
                // ensure that we attempt another read next time
                // since no new readable events will come through
                self.readable = Some(());
                Action::Return(Poll::Ready(Ok(n)))
            },
            Input::Tried(Err(failure)) => tried_in_vain(failure),
            Input::Polled(polled) => match self.poll_event::<E>(polled) {
                Poll::Pending => Action::Return(Poll::Pending),
                Poll::Ready(Err(error)) => Action::Return(Poll::Ready(Err(error))),
                Poll::Ready(Ok(())) => self.attempt_read(),
            },
        }
    }

    /// One step of writing to the stream.
    pub fn poll_write<N, E>(&mut self, input: Input<N, E>) -> (action: Action<N, E>)
        ensures
            final(self).spec_registration() == old(self).spec_registration(),
            (final(self)@, action) == old(self)@.step(Direction::Write, input),
    {
        match input {
            Input::Start => self.attempt_write(),
            Input::Tried(Ok(n)) => {
                // ensure that we attempt another write next time
                // since no new writeable events will come through
                self.writeable = Some(());
                Action::Return(Poll::Ready(Ok(n)))
            },
            Input::Tried(Err(failure)) => tried_in_vain(failure),
            Input::Polled(polled) => match self.poll_event::<E>(polled) {
                Poll::Pending => Action::Return(Poll::Pending),
                Poll::Ready(Err(error)) => Action::Return(Poll::Ready(Err(error))),
                Poll::Ready(Ok(())) => self.attempt_write(),
            },
        }
    }

    /// One step of flushing the stream.
    pub fn poll_flush<E>(&mut self, input: Input<(), E>) -> (action: Action<(), E>)
        ensures
            final(self).spec_registration() == old(self).spec_registration(),
            (final(self)@, action) == old(self)@.step(Direction::Write, input),
    {
        self.poll_write(input)
    }

    fn attempt_read<N, E>(&mut self) -> (action: Action<N, E>)
        ensures
            final(self).spec_registration() == old(self).spec_registration(),
            (final(self)@, action) == old(self)@.attempt::<N, E>(Direction::Read),
    {
        match self.readable.take() {
            Some(()) => Action::Try,
            None => Action::PollEvent,
        }
    }

    fn attempt_write<N, E>(&mut self) -> (action: Action<N, E>)
        ensures
            final(self).spec_registration() == old(self).spec_registration(),
            (final(self)@, action) == old(self)@.attempt::<N, E>(Direction::Write),
    {
        match self.writeable.take() {
            Some(()) => Action::Try,
            None => Action::PollEvent,
        }
    }
}

/// What an operation does whose attempt on the socket failed: where it would
/// have blocked, it goes on to ask for an event.
fn tried_in_vain<N, E>(failure: Failure<E>) -> (action: Action<N, E>)
    ensures
        action == (match failure.kind {
            ErrorKind::WouldBlock => Action::<N, E>::PollEvent,
            ErrorKind::Other => Action::Return(Poll::Ready(Err(StreamError::Io(failure.error)))),
        }),
{
    match failure.kind {
        ErrorKind::WouldBlock => Action::PollEvent,
        ErrorKind::Other => Action::Return(Poll::Ready(Err(StreamError::Io(failure.error)))),
    }
}

/// What has just happened while accepting a connection.
pub enum AcceptInput<S, A, T, E> {
    /// Accepting begins.
    Start,
    /// An event of the listener came, or its channel was closed.
    EventSeen,
    /// The socket was asked for a connection, and said this.
    Accepted(Result<(S, A), Failure<E>>),
    /// The connection from this address was registered, or could not be.
    Registered(Result<T, E>, A),
}

/// What to do next to accept a connection.
pub enum AcceptAction<S, A, T, E> {
    /// Ask for the events of the listener anew, and wait for one.
    AwaitEvent,
    /// Ask the socket for a connection.
    TryAccept,
    /// Register this connection, which comes from this address.
    Register(S, A),
    /// Answer this.
    Return(Result<(T, A), E>),
}

/// What to do next to accept a connection, given what has just happened.
pub open spec fn accept_step<S, A, T, E>(input: AcceptInput<S, A, T, E>) -> AcceptAction<
    S,
    A,
    T,
    E,
> {
    match input {
        AcceptInput::Start => AcceptAction::AwaitEvent,
        AcceptInput::EventSeen => AcceptAction::TryAccept,
        AcceptInput::Accepted(Ok((stream, address))) => AcceptAction::Register(stream, address),
        AcceptInput::Accepted(Err(failure)) => match failure.kind {
            ErrorKind::WouldBlock => AcceptAction::AwaitEvent,
            ErrorKind::Other => AcceptAction::Return(Err(failure.error)),
        },
        AcceptInput::Registered(Ok(stream), address) => AcceptAction::Return(
            Ok((stream, address)),
        ),
        AcceptInput::Registered(Err(error), _) => AcceptAction::Return(Err(error)),
    }
}

/// Listener for TCP events.
pub struct TcpListener {
    registration: Registration,
}

impl TcpListener {
    /// The registration of the listener with the operating system.
    pub closed spec fn spec_registration(&self) -> Registration {
        self.registration
    }

    /// The events that a listener is registered for.
    pub fn interests() -> (interests: Interest)
        ensures
            interests == (Interest { readable: true, writable: false }),
    {
        Interest { readable: true, writable: false }
    }

    /// A listener on a socket, given what binding it gave: it is registered with
    /// the operating system, for reading only. A socket that could not be bound
    /// is not registered.
    pub fn bind<S, E, F: FnOnce(S, usize, Interest) -> Result<S, E>>(
        bound: Result<S, E>,
        register: F,
    ) -> (outcome: Result<(Self, S), E>)
        requires
            bound matches Ok(socket) ==> forall|token: usize|
                register.requires((socket, token, Interest { readable: true, writable: false })),
        ensures
            match bound {
                Ok(socket) => exists|token: usize, asked: Result<S, E>| #[trigger]
                    register.ensures(
                        (socket, token, Interest { readable: true, writable: false }),
                        asked,
                    ) && (match asked {
                        Ok(registered) => outcome matches Ok((listener, kept)) && kept
                            == registered && listener.spec_registration().spec_token() == token,
                        Err(error) => outcome == Err::<(Self, S), E>(error),
                    }),
                Err(error) => outcome == Err::<(Self, S), E>(error),
            },
    {
        match bound {
            Ok(socket) => match Registration::new(socket, Self::interests(), register) {
                Ok((registration, registered)) => Ok((TcpListener { registration }, registered)),
                Err(error) => Err(error),
            },
            Err(error) => Err(error),
        }
    }

    /// The registration of the listener with the operating system.
    pub fn registration(&self) -> (registration: &Registration)
        ensures
            *registration == self.spec_registration(),
    {
        &self.registration
    }

    /// One step of accepting a connection.
    pub fn accept<S, A, T, E>(&self, input: AcceptInput<S, A, T, E>) -> (action: AcceptAction<
        S,
        A,
        T,
        E,
    >)
        ensures
            action == accept_step(input),
    {
        match input {
            AcceptInput::Start => AcceptAction::AwaitEvent,
            AcceptInput::EventSeen => AcceptAction::TryAccept,
            AcceptInput::Accepted(Ok((stream, address))) => AcceptAction::Register(
                stream,
                address,
            ),
            AcceptInput::Accepted(Err(failure)) => match failure.kind {
                // if accepting would block the thread, continue to event polling
                ErrorKind::WouldBlock => AcceptAction::AwaitEvent,
                // if there was some other io error, bail
                ErrorKind::Other => AcceptAction::Return(Err(failure.error)),
            },
            AcceptInput::Registered(Ok(stream), address) => AcceptAction::Return(
                Ok((stream, address)),
            ),
            AcceptInput::Registered(Err(error), _) => AcceptAction::Return(Err(error)),
        }
    }
}

/// While an operation runs, and once it has ended, its direction counts as ready
/// only if it ended in success. So an operation is answered with `Pending` only
/// when there is nothing to try, and a success is followed by another attempt.
pub proof fn law_ready_only_after_success<N, E>(
    readiness: Readiness,
    direction: Direction,
    inputs: Seq<Input<N, E>>,
)
    requires
        readiness.is_operation(direction, inputs),
    ensures
        ({
            let (after, action) = readiness.run(direction, inputs);
            after.of(direction) == (action matches Action::Return(Poll::Ready(Ok(_))))
        }),
    decreases inputs.len(),
{
    if inputs.len() > 1 {
        law_ready_only_after_success(readiness, direction, inputs.drop_last());
    }
}

/// An operation that follows a success tries the socket at once, since no new
/// event need come.
pub proof fn law_success_is_followed_by_an_attempt<N, E>(
    readiness: Readiness,
    direction: Direction,
    inputs: Seq<Input<N, E>>,
)
    requires
        readiness.is_operation(direction, inputs),
        readiness.run(direction, inputs).1 matches Action::Return(Poll::Ready(Ok(_))),
    ensures
        readiness.run(direction, inputs).0.step(direction, Input::<N, E>::Start).1 is Try,
{
    law_ready_only_after_success(readiness, direction, inputs);
}

/// An operation in one direction never takes the readiness of the other away.
pub proof fn law_other_direction_keeps_its_readiness<N, E>(
    readiness: Readiness,
    direction: Direction,
    inputs: Seq<Input<N, E>>,
)
    requires
        readiness.is_operation(direction, inputs),
        readiness.of(direction.other()),
    ensures
        readiness.run(direction, inputs).0.of(direction.other()),
    decreases inputs.len(),
{
    if inputs.len() > 1 {
        law_other_direction_keeps_its_readiness(readiness, direction, inputs.drop_last());
    }
}

/// That an attempt would block is never the answer of an operation: only another
/// error of the socket is, or that the channel has been closed.
pub proof fn law_would_block_is_no_answer<N, E>(
    readiness: Readiness,
    direction: Direction,
    error: E,
)
    ensures
        !(readiness.step(
            direction,
            Input::<N, E>::Tried(Err(Failure { kind: ErrorKind::WouldBlock, error })),
        ).1 is Return),
        !(accept_step(
            AcceptInput::<N, N, N, E>::Accepted(
                Err(Failure { kind: ErrorKind::WouldBlock, error }),
            ),
        ) is Return),
{
}

/// What the socket took or gave is the answer of the operation, whatever is known
/// of the other direction: it ends in that success, and its direction stays worth
/// trying.
pub proof fn law_success_of_the_socket_is_the_answer<N, E>(readiness: Readiness, n: N)
    ensures
        ({
            let (after, action) = readiness.step(Direction::Read, Input::<N, E>::Tried(Ok(n)));
            &&& action == Action::<N, E>::Return(Poll::Ready(Ok(n)))
            &&& after.readable
            &&& after.writeable == readiness.writeable
        }),
        ({
            let (after, action) = readiness.step(Direction::Write, Input::<N, E>::Tried(Ok(n)));
            &&& action == Action::<N, E>::Return(Poll::Ready(Ok(n)))
            &&& after.writeable
            &&& after.readable == readiness.readable
        }),
{
}

/// An error of the socket is the answer of the operation, and that very error,
/// unless the attempt would have blocked: then an event is asked for. Neither
/// changes what is known of the stream.
pub proof fn law_error_of_the_socket_is_the_answer<N, E>(
    readiness: Readiness,
    direction: Direction,
    error: E,
)
    ensures
        ({
            let failed = Input::<N, E>::Tried(Err(Failure { kind: ErrorKind::Other, error }));
            let (after, action) = readiness.step(direction, failed);
            &&& action == Action::<N, E>::Return(Poll::Ready(Err(StreamError::Io(error))))
            &&& after.readable == readiness.readable
            &&& after.writeable == readiness.writeable
        }),
        ({
            let blocked = Input::<N, E>::Tried(
                Err(Failure { kind: ErrorKind::WouldBlock, error }),
            );
            let (after, action) = readiness.step(direction, blocked);
            &&& action is PollEvent
            &&& after.readable == readiness.readable
            &&& after.writeable == readiness.writeable
        }),
{
}

/// An operation tries the socket at once exactly where its direction is worth
/// trying, which it then is no longer; else it asks for an event. The other
/// direction does not matter and is not changed.
pub proof fn law_a_ready_direction_is_tried<N, E>(readiness: Readiness)
    ensures
        ({
            let (after, action) = readiness.step(Direction::Read, Input::<N, E>::Start);
            &&& action is Try <==> readiness.readable
            &&& action is PollEvent <==> !readiness.readable
            &&& !after.readable
            &&& after.writeable == readiness.writeable
        }),
        ({
            let (after, action) = readiness.step(Direction::Write, Input::<N, E>::Start);
            &&& action is Try <==> readiness.writeable
            &&& action is PollEvent <==> !readiness.writeable
            &&& !after.writeable
            &&& after.readable == readiness.readable
        }),
{
}

/// An event makes an operation try the socket exactly where it, or an event
/// before it, said that its direction is ready; what it says of the other
/// direction is remembered.
pub proof fn law_an_event_leads_to_an_attempt<N, E>(readiness: Readiness, event: Event)
    ensures
        ({
            let received = Input::<N, E>::Polled(EventPoll::Received(event));
            let (after, action) = readiness.step(Direction::Read, received);
            &&& action is Try <==> readiness.readable || event.0 % 2 == 1
            &&& action is PollEvent <==> !(readiness.readable || event.0 % 2 == 1)
            &&& !after.readable
            &&& after.writeable <==> readiness.writeable || (event.0 / 2) % 2 == 1
        }),
        ({
            let received = Input::<N, E>::Polled(EventPoll::Received(event));
            let (after, action) = readiness.step(Direction::Write, received);
            &&& action is Try <==> readiness.writeable || (event.0 / 2) % 2 == 1
            &&& action is PollEvent <==> !(readiness.writeable || (event.0 / 2) % 2 == 1)
            &&& !after.writeable
            &&& after.readable <==> readiness.readable || event.0 % 2 == 1
        }),
{
}

/// An operation is answered with `Pending` exactly where no event has come, and
/// with a broken pipe exactly where none can come any more.
pub proof fn law_pending_only_without_an_event<N, E>(
    readiness: Readiness,
    direction: Direction,
    input: Input<N, E>,
)
    ensures
        ({
            let (after, action) = readiness.step(direction, input);
            &&& action == Action::<N, E>::Return(Poll::Pending) <==> (input matches Input::Polled(
                EventPoll::Pending,
            ))
            &&& action == Action::<N, E>::Return(
                Poll::Ready(Err(StreamError::ChannelDisconnected)),
            ) <==> (input matches Input::Polled(EventPoll::Closed))
            &&& action is Return && !(input is Tried) ==> after.readable == readiness.readable
                && after.writeable == readiness.writeable
        }),
{
}

/// Reading and writing are mirror images: a step of one is a step of the other on
/// the stream and the event with both directions exchanged.
pub proof fn law_directions_mirror_each_other<N, E>(
    readiness: Readiness,
    input: Input<N, E>,
    mirrored: Input<N, E>,
)
    requires
        match (input, mirrored) {
            (
                Input::Polled(EventPoll::Received(a)),
                Input::Polled(EventPoll::Received(b)),
            ) => a.readable() == b.writable() && a.writable() == b.readable(),
            (a, b) => a == b,
        },
        input matches Input::Polled(EventPoll::Received(_)) ==> mirrored matches Input::Polled(
            EventPoll::Received(_),
        ),
    ensures
        ({
            let exchanged = Readiness {
                readable: readiness.writeable,
                writeable: readiness.readable,
            };
            let (a, read) = readiness.step(Direction::Read, input);
            let (b, written) = exchanged.step(Direction::Write, mirrored);
            &&& read == written
            &&& a.readable == b.writeable
            &&& a.writeable == b.readable
        }),
{
}

/// An operation that succeeds answers with what the socket gave at its last
/// attempt, and one that fails with what the socket or the channel said last.
pub proof fn law_operation_answers_what_happened_last<N, E>(
    readiness: Readiness,
    direction: Direction,
    inputs: Seq<Input<N, E>>,
)
    requires
        readiness.is_operation(direction, inputs),
        readiness.run(direction, inputs).1 is Return,
    ensures
        match inputs.last() {
            Input::Start => false,
            Input::Tried(Ok(n)) => readiness.run(direction, inputs).1 == Action::<N, E>::Return(
                Poll::Ready(Ok(n)),
            ),
            Input::Tried(Err(failure)) => failure.kind == ErrorKind::Other && readiness.run(
                direction,
                inputs,
            ).1 == Action::<N, E>::Return(Poll::Ready(Err(StreamError::Io(failure.error)))),
            Input::Polled(EventPoll::Pending) => readiness.run(direction, inputs).1 == Action::<
                N,
                E,
            >::Return(Poll::Pending),
            Input::Polled(EventPoll::Closed) => readiness.run(direction, inputs).1 == Action::<
                N,
                E,
            >::Return(Poll::Ready(Err(StreamError::ChannelDisconnected))),
            Input::Polled(EventPoll::Received(_)) => false,
        },
{
}

/// Accepting answers with a connection exactly where that very connection was
/// registered, and with its address; and with an error exactly where registering
/// gave that error, or the socket did and would not have blocked.
pub proof fn law_accept_answers_what_was_accepted<S, A, T, E>(input: AcceptInput<S, A, T, E>)
    ensures
        match accept_step(input) {
            AcceptAction::Return(Ok((stream, address))) => input == AcceptInput::<
                S,
                A,
                T,
                E,
            >::Registered(Ok(stream), address),
            AcceptAction::Return(Err(error)) => {
                ||| input matches AcceptInput::Registered(Err(refused), _) && refused == error
                ||| input matches AcceptInput::Accepted(Err(failure)) && failure.kind
                    == ErrorKind::Other && failure.error == error
            },
            AcceptAction::Register(stream, address) => input == AcceptInput::<
                S,
                A,
                T,
                E,
            >::Accepted(Ok((stream, address))),
            AcceptAction::TryAccept => input is EventSeen,
            AcceptAction::AwaitEvent => {
                ||| input is Start
                ||| input matches AcceptInput::Accepted(Err(failure)) && failure.kind
                    == ErrorKind::WouldBlock
            },
        },
{
}

/// Whatever a stream is ready for, what its socket took or gave is what reading,
/// writing and flushing answer.
pub proof fn law_streams_answer_what_the_socket_said<N, E>(n: N)
    ensures
        forall|stream: &mut TcpStream, action: Action<N, E>| #[trigger]
            call_ensures(
                TcpStream::poll_read::<N, E>,
                (stream, Input::Tried(Ok(n))),
                action,
            ) ==> action == Action::<N, E>::Return(Poll::Ready(Ok(n))) && final(stream)@.readable
                && final(stream)@.writeable == stream@.writeable,
        forall|stream: &mut TcpStream, action: Action<N, E>| #[trigger]
            call_ensures(
                TcpStream::poll_write::<N, E>,
                (stream, Input::Tried(Ok(n))),
                action,
            ) ==> action == Action::<N, E>::Return(Poll::Ready(Ok(n))) && final(stream)@.writeable
                && final(stream)@.readable == stream@.readable,
        forall|stream: &mut TcpStream, action: Action<(), E>| #[trigger]
            call_ensures(
                TcpStream::poll_flush::<E>,
                (stream, Input::Tried(Ok(()))),
                action,
            ) ==> action == Action::<(), E>::Return(Poll::Ready(Ok(())))
                && final(stream)@.writeable && final(stream)@.readable == stream@.readable,
{
}

/// A listener answers with the very connection that was registered, from the
/// address from which it was accepted.
pub proof fn law_listeners_answer_what_was_registered<S, A, T, E>(
    listener: TcpListener,
    accepted: S,
    address: A,
    registered: Result<T, E>,
    register: AcceptAction<S, A, T, E>,
    answer: AcceptAction<S, A, T, E>,
)
    requires
        call_ensures(
            TcpListener::accept::<S, A, T, E>,
            (&listener, AcceptInput::Accepted(Ok((accepted, address)))),
            register,
        ),
        call_ensures(
            TcpListener::accept::<S, A, T, E>,
            (&listener, AcceptInput::Registered(registered, address)),
            answer,
        ),
    ensures
        register == AcceptAction::<S, A, T, E>::Register(accepted, address),
        answer matches AcceptAction::Return(result) && match (registered, result) {
            (Ok(stream), Ok((kept, from))) => kept == stream && from == address,
            (Err(error), Err(given)) => given == error,
            _ => false,
        },
{
}

} // verus!
