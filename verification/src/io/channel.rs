//! The unbounded channels on which events reach the tasks that await them, and
//! the evidence of what was sent on them.

use crate::io::Event;
use futures::channel::mpsc::{unbounded, UnboundedReceiver, UnboundedSender};
use vstd::prelude::*;

verus! {

/// The sending half of an unbounded channel of the futures crate. Nothing is
/// known here of what it holds.
#[verifier::external_type_specification]
#[verifier::external_body]
#[verifier::reject_recursive_types(T)]
pub struct ExUnboundedSender<T>(UnboundedSender<T>);

/// The receiving half of an unbounded channel of the futures crate. Nothing is
/// known here of what it holds.
#[verifier::external_type_specification]
#[verifier::external_body]
#[verifier::reject_recursive_types(T)]
pub struct ExUnboundedReceiver<T>(UnboundedReceiver<T>);

/// The two are the halves of one channel: what is sent on `sender` reaches
/// `receiver`.
pub uninterp spec fn connected(sender: UnboundedSender<Event>, receiver: UnboundedReceiver<Event>) -> bool;

/// An event that was sent.
pub struct Sent {
    sent: Ghost<(UnboundedSender<Event>, Event)>,
}

impl View for Sent {
    type V = (UnboundedSender<Event>, Event);

    closed spec fn view(&self) -> (UnboundedSender<Event>, Event) {
        self.sent@
    }
}

/// An event that could not be sent.
pub struct Refused {
    event: Event,
    sender: Ghost<UnboundedSender<Event>>,
}

impl View for Refused {
    type V = (UnboundedSender<Event>, Event);

    closed spec fn view(&self) -> (UnboundedSender<Event>, Event) {
        (self.sender@, self.event)
    }
}

impl Refused {
    /// The event.
    pub fn event(&self) -> (event: Event)
        ensures
            event == self@.1,
    {
        self.event
    }
}

/// `attempt` is that of sending `event` on `sender`: either it was sent, or it was
/// tried and came back.
pub open spec fn is_attempt(
    sender: UnboundedSender<Event>,
    event: Event,
    attempt: Result<Sent, Refused>,
) -> bool {
    match attempt {
        Ok(sent) => sent@ == (sender, event),
        Err(refused) => refused@ == (sender, event),
    }
}

/// Calls `futures::channel::mpsc::unbounded`: the two halves of a new channel.
#[verifier::external_body]
pub(crate) fn event_channel() -> (halves: (UnboundedSender<Event>, UnboundedReceiver<Event>))
    ensures
        connected(halves.0, halves.1),
{
    unbounded()
}

/// Calls `UnboundedSender::unbounded_send`. Either way there is evidence of the
/// call; where it fails, it gives back the event that it was handed. Whether it
/// fails depends on the receiver, which other threads may drop at any time, and
/// is not stated.
#[verifier::external_body]
pub(crate) fn unbounded_send(sender: &UnboundedSender<Event>, event: Event) -> (attempt: Result<
    Sent,
    Refused,
>)
    ensures
        is_attempt(*sender, event, attempt),
{
    match sender.unbounded_send(event) {
        Ok(()) => Ok(Sent { sent: Ghost(arbitrary()) }),
        Err(failure) => Err(Refused { event: failure.into_inner(), sender: Ghost(arbitrary()) }),
    }
}

} // verus!
