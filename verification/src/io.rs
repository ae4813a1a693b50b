//! Events of the operating system, and the dispatch of each to the channel on
//! which its source is awaited.

use crate::io::channel::{connected, event_channel, Refused};
use crate::io::sends::Sends;
use futures::channel::mpsc::{UnboundedReceiver, UnboundedSender};
use rand::Rng;
use std::collections::HashMap;
use vstd::prelude::*;

pub mod channel;
pub mod net;
pub mod sends;

verus! {

broadcast use vstd::std_specs::hash::group_hash_axioms;

/// How many events the operating system is asked for at once.
pub const EVENT_CAPACITY: usize = 128;

/// How long the operating system may be waited for when it is asked for events,
/// in milliseconds.
pub const POLL_TIMEOUT_MILLIS: u64 = 10;

/// Which events the operating system is asked to report about a source.
#[derive(Clone, Copy, Debug, PartialEq, Eq, Structural)]
pub struct Interest {
    pub readable: bool,
    pub writable: bool,
}

/// What the operating system reports about one registered source.
#[derive(Clone, Copy, Debug, PartialEq, Eq, Structural)]
pub struct OsEvent {
    /// The token under which the source was registered.
    pub token: usize,
    /// The source can be read from.
    pub readable: bool,
    /// The source can be written to.
    pub writable: bool,
}

/// What a waiting task is told about its source, as a set of bits.
#[derive(Clone, Copy, Debug, PartialEq, Eq, Structural)]
pub struct Event(pub u8);

impl Event {
    /// The lowest bit is set.
    pub open spec fn readable(self) -> bool {
        self.0 % 2 == 1
    }

    /// The second lowest bit is set.
    pub open spec fn writable(self) -> bool {
        (self.0 / 2) % 2 == 1
    }

    /// Whether the event marks its source as readable.
    pub fn is_readable(&self) -> (readable: bool)
        ensures
            readable == self.readable(),
    {
        let bits: u8 = self.0;
        assert((bits & 1 != 0) == (bits % 2 == 1)) by (bit_vector);
        bits & 1 != 0
    }

    /// Whether the event marks its source as writable.
    pub fn is_writable(&self) -> (writable: bool)
        ensures
            writable == self.writable(),
    {
        let bits: u8 = self.0;
        assert((bits & 2 != 0) == ((bits / 2) % 2 == 1)) by (bit_vector);
        bits & 2 != 0
    }
}

/// The bits that stand for an event of the operating system: the second lowest
/// where it is readable, the third lowest where it is writable.
pub open spec fn event_of(event: OsEvent) -> Event {
    match (event.readable, event.writable) {
        (false, false) => Event(0),
        (true, false) => Event(2),
        (false, true) => Event(4),
        (true, true) => Event(6),
    }
}

impl vstd::std_specs::convert::FromSpecImpl<&OsEvent> for Event {
    open spec fn obeys_from_spec() -> bool {
        true
    }

    open spec fn from_spec(event: &OsEvent) -> Event {
        event_of(*event)
    }
}

impl From<&OsEvent> for Event {
    fn from(event: &OsEvent) -> (converted: Event) {
        let readable: u8 = if event.readable {
            1
        } else {
            0
        };
        let writable: u8 = if event.writable {
            1
        } else {
            0
        };
        assert((0u8 | (0u8 << 1)) | (0u8 << 2) == 0) by (bit_vector);
        assert((0u8 | (1u8 << 1)) | (0u8 << 2) == 2) by (bit_vector);
        assert((0u8 | (0u8 << 1)) | (1u8 << 2) == 4) by (bit_vector);
        assert((0u8 | (1u8 << 1)) | (1u8 << 2) == 6) by (bit_vector);
        let mut bits: u8 = 0;
        bits = bits | (readable << 1);
        bits = bits | (writable << 2);
        Event(bits)
    }
}

/// The events of `events` whose token is among `tokens`, in order, each with its
/// token and in the form in which it is sent.
pub open spec fn routed(tokens: Set<usize>, events: Seq<OsEvent>) -> Seq<(usize, Event)> {
    events.filter(|event: OsEvent| tokens.contains(event.token)).map_values(
        |event: OsEvent| (event.token, event_of(event)),
    )
}

/// What `route` sends, on the channels of `tasks`.
pub open spec fn sends_of(
    tasks: Map<usize, UnboundedSender<Event>>,
    route: Seq<(usize, Event)>,
) -> Seq<(UnboundedSender<Event>, Event)> {
    route.map_values(|entry: (usize, Event)| (tasks[entry.0], entry.1))
}

/// An event could not be sent, because nobody is left to receive it.
pub struct Undelivered {
    /// What had been sent before.
    pub sends: Sends,
    /// The token of the event.
    pub token: usize,
    /// The event, and the evidence that it was tried to send it.
    pub refused: Refused,
}

/// `outcome` is that of dispatching `events` on the channels of `tasks`: either
/// every event that somebody awaits was sent, in order, or those before the
/// first that could not be, which was tried.
pub open spec fn dispatched(
    tasks: Map<usize, UnboundedSender<Event>>,
    events: Seq<OsEvent>,
    outcome: Result<Sends, Undelivered>,
) -> bool {
    let route = routed(tasks.dom(), events);
    match outcome {
        Ok(sends) => sends@ == sends_of(tasks, route),
        Err(failure) => {
            let sent = failure.sends@.len() as int;
            &&& sent < route.len()
            &&& failure.sends@ == sends_of(tasks, route.take(sent))
            &&& failure.token == route[sent].0
            &&& failure.refused@ == (tasks[route[sent].0], route[sent].1)
        },
    }
}

/// The channels on which sources are awaited, by token.
pub struct Os {
    tasks: HashMap<usize, UnboundedSender<Event>>,
}

impl View for Os {
    type V = Map<usize, UnboundedSender<Event>>;

    closed spec fn view(&self) -> Map<usize, UnboundedSender<Event>> {
        self.tasks@
    }
}

impl Default for Os {
    fn default() -> (os: Self)
        ensures
            os@ == Map::<usize, UnboundedSender<Event>>::empty(),
    {
        Os { tasks: HashMap::new() }
    }
}

impl Os {
    /// What is to be sent for `events`, and under which tokens: the events of
    /// those sources that somebody awaits.
    pub fn route(&self, events: &Vec<OsEvent>) -> (route: Vec<(usize, Event)>)
        ensures
            route@ == routed(self@.dom(), events@),
    {
        let mut route: Vec<(usize, Event)> = Vec::new();
        let mut i: usize = 0;
        proof {
            lemma_routed_none(self@.dom(), events@);
        }
        while i < events.len()
            invariant
                i <= events@.len(),
                route@ == routed(self@.dom(), events@.take(i as int)),
            decreases events@.len() - i,
        {
            let event = events[i];
            proof {
                lemma_routed_next(self@.dom(), events@, i as int);
            }
            if self.tasks.contains_key(&event.token) {
                route.push((event.token, Event::from(&event)));
            }
            i = i + 1;
        }
        assert(events@.take(i as int) == events@);
        route
    }

    /// Dispatches `events` to any awaiting tasks, and returns what was sent.
    /// Stops at the first event that nobody is left to receive.
    pub fn process(&self, events: &Vec<OsEvent>) -> (outcome: Result<Sends, Undelivered>)
        ensures
            dispatched(self@, events@, outcome),
    {
        let route = self.route(events);
        let mut sends = Sends::none();
        let mut i: usize = 0;
        while i < route.len()
            invariant
                i <= route@.len(),
                route@ == routed(self@.dom(), events@),
                sends@.len() == i,
                sends@ == sends_of(self@, route@.take(i as int)),
            decreases route@.len() - i,
        {
            let (token, event) = route[i];
            assert(self@.dom().contains(token)) by {
                lemma_routed_registered(self@.dom(), events@, i as int);
            }
            if let Some(sender) = self.tasks.get(&token) {
                if let Err(refused) = sends.send(sender, event) {
                    return Err(Undelivered { sends, token, refused });
                }
            }
            assert(sends@ == sends_of(self@, route@.take(i + 1)));
            i = i + 1;
        }
        assert(route@.take(i as int) == route@);
        Ok(sends)
    }
}

/// From `before` to `after` one thing has changed: the events under `token` are
/// sent on a channel of which `receiver` is the other half.
pub open spec fn sent_to(
    before: Map<usize, UnboundedSender<Event>>,
    after: Map<usize, UnboundedSender<Event>>,
    token: usize,
    receiver: UnboundedReceiver<Event>,
) -> bool {
    exists|sender: UnboundedSender<Event>| #[trigger]
        connected(sender, receiver) && after == before.insert(token, sender)
}

/// A source that is registered with the operating system.
pub struct Registration {
    token: usize,
}

impl Registration {
    /// The token under which the source is registered.
    pub closed spec fn spec_token(&self) -> usize {
        self.token
    }

    /// Registers `source` with the operating system for `interests`, under a
    /// token drawn at random. `register` is what asks the operating system: it is
    /// given the source, the token and the interests, and gives the source back.
    /// The registration holds the token that was asked for. Any token can be
    /// drawn.
    pub fn new<S, E, F: FnOnce(S, usize, Interest) -> Result<S, E>>(
        source: S,
        interests: Interest,
        register: F,
    ) -> (outcome: Result<(Self, S), E>)
        requires
            forall|token: usize| register.requires((source, token, interests)),
        ensures
            exists|token: usize, asked: Result<S, E>| #[trigger]
                register.ensures((source, token, interests), asked) && (match asked {
                    Ok(registered) => outcome matches Ok((registration, kept))
                        && registration.spec_token() == token && kept == registered,
                    Err(error) => outcome == Err::<(Self, S), E>(error),
                }),
    {
        let token: usize = random_token();
        match register(source, token, interests) {
            Ok(registered) => Ok((Self::with_token(token), registered)),
            Err(error) => Err(error),
        }
    }

    /// A registration under `token`.
    pub fn with_token(token: usize) -> (registration: Self)
        ensures
            registration.spec_token() == token,
    {
        Registration { token }
    }

    /// The token under which the source is registered.
    pub fn token(&self) -> (token: usize)
        ensures
            token == self.spec_token(),
    {
        self.token
    }

    /// Registers this token on the event dispatcher and returns a receiver to
    /// it. A receiver handed out before is cut off.
    pub fn events(&self, os: &mut Os) -> (receiver: UnboundedReceiver<Event>)
        ensures
            sent_to(old(os)@, final(os)@, self.spec_token(), receiver),
    {
        let (sender, receiver) = event_channel();
        self.attach(os, sender);
        receiver
    }

    /// Registers this token on the event dispatcher, to be sent to on `sender`.
    pub fn attach(&self, os: &mut Os, sender: UnboundedSender<Event>)
        ensures
            final(os)@ == old(os)@.insert(self.spec_token(), sender),
    {
        os.tasks.insert(self.token, sender);
    }

    /// Removes the event dispatcher of this token, once its source is no longer
    /// registered with the operating system.
    pub fn deregister(&self, os: &mut Os)
        ensures
            final(os)@ == old(os)@.remove(self.spec_token()),
    {
        os.tasks.remove(&self.token);
    }
}

/// Calls `rand::thread_rng().gen()`: a value drawn at random, of which nothing
/// is promised.
#[verifier::external_body]
fn random_token() -> (token: usize) {
    rand::thread_rng().gen()
}

/// What a task is told about an event of the operating system: it never reads as
/// readable, and it reads as writable where the source is readable.
pub proof fn law_converted_event(event: OsEvent)
    ensures
        !event_of(event).readable(),
        event_of(event).writable() == event.readable,
{
}

/// Events are dispatched in the order in which they come, however they are split
/// into batches.
pub proof fn law_batches_add_up(tokens: Set<usize>, first: Seq<OsEvent>, second: Seq<OsEvent>)
    ensures
        routed(tokens, first + second) == routed(tokens, first) + routed(tokens, second),
{
    let registered = |event: OsEvent| tokens.contains(event.token);
    Seq::filter_distributes_over_add(first, second, registered);
    assert(routed(tokens, first + second) =~= routed(tokens, first) + routed(tokens, second));
}

/// An event is sent once where its source is awaited, and not at all where it is
/// not.
pub proof fn law_event_is_sent_iff_awaited(tokens: Set<usize>, event: OsEvent)
    ensures
        routed(tokens, seq![event]) == (if tokens.contains(event.token) {
            seq![(event.token, event_of(event))]
        } else {
            Seq::empty()
        }),
{
    let events = seq![event];
    lemma_routed_none(tokens, events);
    lemma_routed_next(tokens, events, 0);
    assert(events.take(1) == events);
}

/// Once a source is deregistered, none of its events is sent.
pub proof fn law_deregistered_source_is_silent(
    tasks: Map<usize, UnboundedSender<Event>>,
    token: usize,
    events: Seq<OsEvent>,
    i: int,
)
    requires
        0 <= i < routed(tasks.remove(token).dom(), events).len(),
    ensures
        routed(tasks.remove(token).dom(), events)[i].0 != token,
{
    lemma_routed_registered(tasks.remove(token).dom(), events, i);
}

/// The events of a source go to the receiver that asked for them last.
pub proof fn law_last_receiver_gets_the_events(
    tasks: Map<usize, UnboundedSender<Event>>,
    token: usize,
    sender: UnboundedSender<Event>,
    event: OsEvent,
)
    requires
        event.token == token,
    ensures
        sends_of(
            tasks.insert(token, sender),
            routed(tasks.insert(token, sender).dom(), seq![event]),
        ) == seq![(sender, event_of(event))],
{
    law_event_is_sent_iff_awaited(tasks.insert(token, sender).dom(), event);
}

/// Once the events of a source have been asked for, they are sent on a channel of
/// which the receiver that was handed out is the other half.
pub proof fn law_events_reach_the_receiver(
    before: Map<usize, UnboundedSender<Event>>,
    after: Map<usize, UnboundedSender<Event>>,
    token: usize,
    receiver: UnboundedReceiver<Event>,
    event: OsEvent,
)
    requires
        sent_to(before, after, token, receiver),
        event.token == token,
    ensures
        exists|sender: UnboundedSender<Event>| #[trigger]
            connected(sender, receiver) && sends_of(after, routed(after.dom(), seq![event]))
                == seq![(sender, event_of(event))],
{
    let sender = choose|sender: UnboundedSender<Event>| #[trigger]
        connected(sender, receiver) && after == before.insert(token, sender);
    law_last_receiver_gets_the_events(before, token, sender, event);
}

/// Deregistering a source undoes its registration.
pub proof fn law_deregister_undoes_events(
    tasks: Map<usize, UnboundedSender<Event>>,
    token: usize,
    sender: UnboundedSender<Event>,
)
    requires
        !tasks.contains_key(token),
    ensures
        tasks.insert(token, sender).remove(token) == tasks,
{
    assert(tasks.insert(token, sender).remove(token) =~= tasks);
}

proof fn lemma_routed_none(tokens: Set<usize>, events: Seq<OsEvent>)
    ensures
        routed(tokens, events.take(0)) == Seq::<(usize, Event)>::empty(),
{
    reveal(Seq::filter);
}

proof fn lemma_routed_next(tokens: Set<usize>, events: Seq<OsEvent>, i: int)
    requires
        0 <= i < events.len(),
    ensures
        routed(tokens, events.take(i + 1)) == (if tokens.contains(events[i].token) {
            routed(tokens, events.take(i)).push((events[i].token, event_of(events[i])))
        } else {
            routed(tokens, events.take(i))
        }),
{
    reveal(Seq::filter);
    assert(events.take(i + 1).drop_last() == events.take(i));
}

proof fn lemma_routed_registered(tokens: Set<usize>, events: Seq<OsEvent>, i: int)
    requires
        0 <= i < routed(tokens, events).len(),
    ensures
        tokens.contains(routed(tokens, events)[i].0),
{
    let kept = events.filter(|event: OsEvent| tokens.contains(event.token));
    assert(kept.len() == routed(tokens, events).len());
    events.lemma_filter_pred(|event: OsEvent| tokens.contains(event.token), i);
}

/// A bit of an event is read as it stands: the lowest says that the source is
/// readable, the one above it that it is writable.
pub proof fn law_bits_are_read(bits: u8)
    ensures
        Event(bits).readable() <==> bits & 1 == 1,
        Event(bits).writable() <==> bits & 2 == 2,
{
    assert((bits & 1 == 1) == (bits % 2 == 1)) by (bit_vector);
    assert((bits & 2 == 2) == ((bits / 2) % 2 == 1)) by (bit_vector);
}

/// An event is converted without loss: from its bits it can be told whether the
/// source was readable and whether it was writable, and they say nothing else.
pub proof fn law_conversion_keeps_both_flags(event: OsEvent)
    ensures
        (event_of(event).0 / 2) % 2 == 1 <==> event.readable,
        (event_of(event).0 / 4) % 2 == 1 <==> event.writable,
        event_of(event).0 % 2 == 0,
        event_of(event).0 < 8,
{
}

/// Every event that somebody awaits is dispatched, and nothing else: where
/// dispatching succeeds, there are as many sends as there are events of
/// registered tokens, and each of those is sent in turn, on the channel of its
/// token.
pub proof fn law_every_awaited_event_is_sent(
    tasks: Map<usize, UnboundedSender<Event>>,
    events: Seq<OsEvent>,
    sends: Sends,
)
    requires
        dispatched(tasks, events, Ok(sends)),
    ensures
        ({
            let awaited = events.filter(|event: OsEvent| tasks.contains_key(event.token));
            &&& sends@.len() == awaited.len()
            &&& forall|i: int|
                0 <= i < awaited.len() ==> #[trigger] sends@[i] == (
                    tasks[awaited[i].token],
                    event_of(awaited[i]),
                )
        }),
        forall|k: int|
            0 <= k < events.len() && tasks.contains_key(#[trigger] events[k].token)
                ==> sends@.contains((tasks[events[k].token], event_of(events[k]))),
{
    let registered = |event: OsEvent| tasks.dom().contains(event.token);
    let keyed = |event: OsEvent| tasks.contains_key(event.token);
    assert(registered =~= keyed);
    let awaited = events.filter(keyed);
    assert forall|k: int|
        0 <= k < events.len() && tasks.contains_key(
            #[trigger] events[k].token,
        ) implies sends@.contains((tasks[events[k].token], event_of(events[k]))) by {
        events.lemma_filter_contains(keyed, k);
        let i = awaited.index_of(events[k]);
        assert(sends@[i] == (tasks[awaited[i].token], event_of(awaited[i])));
    }
}

/// Dispatching two batches sends what dispatching them as one does: the sends of
/// the first, then those of the second.
pub proof fn law_dispatched_batches_add_up(
    tasks: Map<usize, UnboundedSender<Event>>,
    first: Seq<OsEvent>,
    second: Seq<OsEvent>,
    sends_first: Sends,
    sends_second: Sends,
    sends_both: Sends,
)
    requires
        dispatched(tasks, first, Ok(sends_first)),
        dispatched(tasks, second, Ok(sends_second)),
        dispatched(tasks, first + second, Ok(sends_both)),
    ensures
        sends_both@ == sends_first@ + sends_second@,
{
    law_batches_add_up(tasks.dom(), first, second);
    assert(sends_both@ =~= sends_first@ + sends_second@);
}

/// Dispatching stops only at an event that was refused: those before it were all
/// sent, and it is the next one that somebody awaits.
pub proof fn law_dispatch_stops_at_a_refusal(
    tasks: Map<usize, UnboundedSender<Event>>,
    events: Seq<OsEvent>,
    failure: Undelivered,
)
    requires
        dispatched(tasks, events, Err(failure)),
    ensures
        ({
            let awaited = events.filter(|event: OsEvent| tasks.contains_key(event.token));
            let sent = failure.sends@.len() as int;
            &&& sent < awaited.len()
            &&& failure.token == awaited[sent].token
            &&& failure.refused@ == (tasks[awaited[sent].token], event_of(awaited[sent]))
            &&& forall|i: int|
                0 <= i < sent ==> #[trigger] failure.sends@[i] == (
                    tasks[awaited[i].token],
                    event_of(awaited[i]),
                )
        }),
{
    let registered = |event: OsEvent| tasks.dom().contains(event.token);
    let keyed = |event: OsEvent| tasks.contains_key(event.token);
    assert(registered =~= keyed);
}

/// Asking for the events of one source leaves all other sources as they were.
pub proof fn law_other_sources_keep_their_receivers(
    before: Map<usize, UnboundedSender<Event>>,
    after: Map<usize, UnboundedSender<Event>>,
    token: usize,
    receiver: UnboundedReceiver<Event>,
    other: usize,
)
    requires
        sent_to(before, after, token, receiver),
        other != token,
    ensures
        after.contains_key(token),
        connected(after[token], receiver),
        after.contains_key(other) <==> before.contains_key(other),
        before.contains_key(other) ==> after[other] == before[other],
{
}

/// Attaching a channel to a token and deregistering it change that token only,
/// and once it is deregistered nothing is sent for it.
pub proof fn law_registering_changes_one_token(
    registration: Registration,
    sender: UnboundedSender<Event>,
    other: usize,
)
    requires
        other != registration.spec_token(),
    ensures
        forall|os: &mut Os| #[trigger]
            call_ensures(Registration::attach, (&registration, os, sender), ()) ==> {
                &&& final(os)@.contains_key(registration.spec_token())
                &&& final(os)@[registration.spec_token()] == sender
                &&& final(os)@.contains_key(other) == os@.contains_key(other)
                &&& os@.contains_key(other) ==> final(os)@[other] == os@[other]
            },
        forall|os: &mut Os| #[trigger]
            call_ensures(Registration::deregister, (&registration, os), ()) ==> {
                &&& !final(os)@.contains_key(registration.spec_token())
                &&& final(os)@.contains_key(other) == os@.contains_key(other)
                &&& os@.contains_key(other) ==> final(os)@[other] == os@[other]
            },
{
}

/// Where a batch was processed without a failure, each of its events whose source
/// is awaited was sent, in order and as often as it came, on the channel of its
/// token, and nothing else was.
pub proof fn law_processing_sends_every_awaited_event(
    os: Os,
    events: Vec<OsEvent>,
    outcome: Result<Sends, Undelivered>,
)
    requires
        call_ensures(Os::process, (&os, &events), outcome),
    ensures
        ({
            let awaited = events@.filter(|event: OsEvent| os@.contains_key(event.token));
            match outcome {
                Ok(sends) => sends@ == awaited.map_values(
                    |event: OsEvent| (os@[event.token], event_of(event)),
                ),
                Err(failure) => {
                    let sent = failure.sends@.len() as int;
                    &&& sent < awaited.len()
                    &&& failure.refused@ == (os@[awaited[sent].token], event_of(awaited[sent]))
                },
            }
        }),
{
    match outcome {
        Ok(sends) => {
            law_every_awaited_event_is_sent(os@, events@, sends);
            let awaited = events@.filter(|event: OsEvent| os@.contains_key(event.token));
            assert(sends@ =~= awaited.map_values(
                |event: OsEvent| (os@[event.token], event_of(event)),
            ));
        },
        Err(failure) => {
            law_dispatch_stops_at_a_refusal(os@, events@, failure);
        },
    }
}

} // verus!
