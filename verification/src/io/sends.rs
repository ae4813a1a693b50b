//! The log of the events that were sent.

use crate::io::channel::{unbounded_send, Refused, Sent};
use crate::io::Event;
use futures::channel::mpsc::UnboundedSender;
use vstd::prelude::*;

verus! {

/// The events that were sent, in order.
pub struct Sends {
    sent: Vec<Sent>,
}

impl View for Sends {
    type V = Seq<(UnboundedSender<Event>, Event)>;

    closed spec fn view(&self) -> Seq<(UnboundedSender<Event>, Event)> {
        self.sent@.map_values(|sent: Sent| sent@)
    }
}

impl Sends {
    /// Nothing was sent yet.
    pub fn none() -> (sends: Self)
        ensures
            sends@ == Seq::<(UnboundedSender<Event>, Event)>::empty(),
    {
        let sends = Sends { sent: Vec::new() };
        assert(sends@ =~= Seq::empty());
        sends
    }

    /// How many events were sent.
    pub fn count(&self) -> (count: usize)
        ensures
            count == self@.len(),
    {
        self.sent.len()
    }

    /// Sends `event` on `sender`, or gives it back where nobody is left to
    /// receive it.
    pub fn send(&mut self, sender: &UnboundedSender<Event>, event: Event) -> (outcome: Result<
        (),
        Refused,
    >)
        ensures
            match outcome {
                Ok(()) => final(self)@ == old(self)@.push((*sender, event)),
                Err(refused) => refused@ == (*sender, event) && final(self)@ == old(self)@,
            },
    {
        let attempt = unbounded_send(sender, event);
        self.record(attempt)
    }

    /// Takes the outcome of an attempt to send down: an event that was sent is
    /// logged, and one that was not is handed on.
    pub fn record(&mut self, attempt: Result<Sent, Refused>) -> (outcome: Result<(), Refused>)
        ensures
            match attempt {
                Ok(sent) => outcome is Ok && final(self)@ == old(self)@.push(sent@),
                Err(refused) => outcome == Err::<(), Refused>(refused) && final(self)@
                    == old(self)@,
            },
    {
        match attempt {
            Ok(sent) => {
                self.sent.push(sent);
                assert(self@ =~= old(self)@.push(sent@));
                Ok(())
            },
            Err(refused) => Err(refused),
        }
    }
}

} // verus!
