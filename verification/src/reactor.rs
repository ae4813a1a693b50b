//! What wakes tasks up: elapsed timers and events of the operating system.

use crate::io::sends::Sends;
use crate::io::{
    dispatched, law_every_awaited_event_is_sent, Event, Os, OsEvent, Undelivered,
};
use crate::reactor::timers::{
    due_after, due_by, law_books_wake_exactly_what_is_due, wakers, Instant, PriorityQueueEntry,
    Queue,
};
use crate::reactor::wakes::Wakes;
use futures::channel::mpsc::UnboundedSender;
use std::task::Waker;
use vstd::prelude::*;

pub mod timers;
pub mod wake;
pub mod wakes;

verus! {

/// What has just happened while the books are kept.
pub enum BookKeepingInput {
    /// It begins, at this instant.
    Start(Instant),
    /// These timers were woken, and then the operating system reported these
    /// events.
    Polled(Wakes, Vec<OsEvent>),
}

/// What to do next in order to keep the books.
pub enum BookKeepingAction {
    /// These timers were woken. Ask the operating system for events.
    PollOs(Wakes),
    /// All is done.
    Done(Books),
}

/// What was done in one round of book-keeping.
pub struct Books {
    /// The timers that were woken.
    pub wakes: Wakes,
    /// The events that were sent, or the one that could not be.
    pub sends: Result<Sends, Undelivered>,
}

impl Books {
    /// How many timers and events made a task ready, or the event that could not
    /// be sent.
    pub fn total(self) -> (total: Result<usize, Undelivered>)
        requires
            self.sends matches Ok(sends) ==> self.wakes@.len() + sends@.len() <= usize::MAX,
        ensures
            match self.sends {
                Ok(sends) => total matches Ok(n) && n == self.wakes@.len() + sends@.len(),
                Err(failure) => total == Err::<usize, Undelivered>(failure),
            },
    {
        match self.sends {
            Ok(sends) => Ok(self.wakes.count() + sends.count()),
            Err(failure) => Err(failure),
        }
    }
}

/// Timers and the operating system.
pub struct Reactor {
    /// Where events of the operating system are sent.
    pub os: Os,
    /// The wakers of sleeping tasks.
    pub timers: Queue<Waker>,
}

impl Default for Reactor {
    fn default() -> (reactor: Self)
        ensures
            reactor.wf(),
            reactor.os@.dom() == Set::<usize>::empty(),
            reactor.timers@.len() == 0,
    {
        Reactor { os: Os::default(), timers: Queue::default() }
    }
}

impl Reactor {
    /// The timers are in order.
    pub open spec fn wf(&self) -> bool {
        self.timers.wf()
    }

    /// One step of keeping the books. This is run by any thread that currently
    /// is not busy: it wakes the tasks whose timers have elapsed, asks the
    /// operating system for events, and dispatches them.
    pub fn book_keeping(&mut self, input: BookKeepingInput) -> (action: BookKeepingAction)
        requires
            old(self).wf(),
        ensures
            final(self).wf(),
            final(self).os@ == old(self).os@,
            match input {
                BookKeepingInput::Start(now) => {
                    &&& action matches BookKeepingAction::PollOs(wakes)
                    &&& wakes@ == wakers(due_by(old(self).timers@, now))
                    &&& final(self).timers@ == due_after(old(self).timers@, now)
                },
                BookKeepingInput::Polled(wakes, events) => {
                    &&& action matches BookKeepingAction::Done(books)
                    &&& books.wakes == wakes
                    &&& dispatched(old(self).os@, events@, books.sends)
                    &&& final(self).timers@ == old(self).timers@
                },
            },
    {
        match input {
            BookKeepingInput::Start(now) => BookKeepingAction::PollOs(self.wake_timers(now)),
            BookKeepingInput::Polled(wakes, events) => {
                let sends = self.os.process(&events);
                BookKeepingAction::Done(Books { wakes, sends })
            },
        }
    }

    /// Wakes the tasks whose timers have elapsed at `now`.
    fn wake_timers(&mut self, now: Instant) -> (wakes: Wakes)
        requires
            old(self).wf(),
        ensures
            final(self).wf(),
            final(self).os@ == old(self).os@,
            final(self).timers@ == due_after(old(self).timers@, now),
            wakes@ == wakers(due_by(old(self).timers@, now)),
    {
        let ghost before = self.timers@;
        let mut wakes = Wakes::none();
        loop
            invariant
                self.wf(),
                self.os@ == old(self).os@,
                self.timers@.len() <= before.len(),
                self.timers@ == before.take(self.timers@.len() as int),
                    wakes@ == wakers(before.skip(self.timers@.len() as int)),
                forall|i: int| self.timers@.len() <= i < before.len() ==> before[i].1 <= now,
            ensures
                self.timers@.len() == 0 || self.timers@.last().1 > now,
            decreases self.timers@.len(),
        {
            let ghost left = self.timers@;
            match self.timers.next(now) {
                None => {
                    break;
                },
                Some(task) => {
                    wakes.wake(task);
                    assert(self.timers@ == before.take(left.len() - 1));
                    assert(wakes@ == wakers(before.skip(left.len() - 1)));
                },
            }
        }
        proof {
            assert forall|i: int| 0 <= i < self.timers@.len() implies before[i].1 > now by {
                assert(self.timers@[i].1 >= self.timers@.last().1);
            }
            timers::lemma_split(before, now, self.timers@.len() as int);
        }
        wakes
    }
}

/// The books count every timer that is due and every event that somebody awaits,
/// and nothing else: that many tasks were made ready.
pub proof fn law_books_count_what_was_made_ready(
    timers: Seq<PriorityQueueEntry<Waker>>,
    now: Instant,
    tasks: Map<usize, UnboundedSender<Event>>,
    events: Seq<OsEvent>,
    books: Books,
    total: Result<usize, Undelivered>,
)
    requires
        books.wakes@ == wakers(due_by(timers, now)),
        dispatched(tasks, events, books.sends),
        call_ensures(Books::total, (books,), total),
    ensures
        total is Ok <==> books.sends is Ok,
        total matches Ok(n) ==> n == timers.filter(
            |entry: PriorityQueueEntry<Waker>| entry.1 <= now,
        ).len() + events.filter(|event: OsEvent| tasks.contains_key(event.token)).len(),
{
    law_books_wake_exactly_what_is_due(timers, now);
    if let Ok(sends) = books.sends {
        law_every_awaited_event_is_sent(tasks, events, sends);
    }
}

/// Beginning to keep the books parts the timers in two: as many are woken as
/// leave the queue, all that stay are due later, and to begin again at the same
/// instant wakes nothing.
pub proof fn law_books_part_the_timers(now: Instant)
    ensures
        forall|reactor: &mut Reactor, action: BookKeepingAction| #[trigger]
            call_ensures(
                Reactor::book_keeping,
                (reactor, BookKeepingInput::Start(now)),
                action,
            ) ==> {
                &&& action matches BookKeepingAction::PollOs(wakes)
                &&& wakes@.len() + final(reactor).timers@.len() == reactor.timers@.len()
                &&& forall|i: int|
                    0 <= i < final(reactor).timers@.len() ==> (
                    #[trigger] final(reactor).timers@[i]).1 > now
                &&& wakers(due_by(final(reactor).timers@, now)).len() == 0
            },
{
    assert forall|reactor: &mut Reactor, action: BookKeepingAction| #[trigger]
        call_ensures(
            Reactor::book_keeping,
            (reactor, BookKeepingInput::Start(now)),
            action,
        ) implies {
        &&& action matches BookKeepingAction::PollOs(wakes)
        &&& wakes@.len() + final(reactor).timers@.len() == reactor.timers@.len()
        &&& forall|i: int|
            0 <= i < final(reactor).timers@.len() ==> (#[trigger] final(reactor).timers@[i]).1
                > now
        &&& wakers(due_by(final(reactor).timers@, now)).len() == 0
    } by {
        let before = reactor.timers@;
        let left = final(reactor).timers@;
        law_books_wake_exactly_what_is_due(before, now);
        law_books_wake_exactly_what_is_due(left, now);
        timers::lemma_split(left, now, left.len() as int);
    }
}

} // verus!
