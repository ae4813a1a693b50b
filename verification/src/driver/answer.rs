//! Asking the channel of a driver for a task, and the evidence of it.

use crate::driver::TryRecvError;
use crossbeam_channel::Receiver;
use vstd::prelude::*;

verus! {

/// The receiving half of a channel of the crossbeam crate. Nothing is known here
/// of what it holds.
#[verifier::external_type_specification]
#[verifier::external_body]
#[verifier::reject_recursive_types(T)]
pub struct ExReceiver<T>(Receiver<T>);

/// What a channel gave that was asked for a task.
#[verifier::reject_recursive_types(T)]
pub struct Answer<T> {
    polled: Result<T, TryRecvError>,
    channel: Ghost<Receiver<T>>,
}

impl<T> Answer<T> {
    /// The channel that was asked.
    pub closed spec fn channel(&self) -> Receiver<T> {
        self.channel@
    }

    /// The task, or why there is none.
    pub closed spec fn polled(&self) -> Result<T, TryRecvError> {
        self.polled
    }

    /// The task, or why there is none.
    pub fn into_polled(self) -> (polled: Result<T, TryRecvError>)
        ensures
            polled == self.polled(),
    {
        self.polled
    }
}

/// Calls `crossbeam_channel::Receiver::try_recv`, and gives evidence of the call.
/// What comes back depends on what other threads have sent, and is not stated.
#[verifier::external_body]
pub(crate) fn ask<T>(ready: &Receiver<T>) -> (answer: Answer<T>)
    ensures
        answer.channel() == *ready,
{
    let polled = match ready.try_recv() {
        Ok(task) => Ok(task),
        Err(crossbeam_channel::TryRecvError::Empty) => Err(TryRecvError::Empty),
        Err(crossbeam_channel::TryRecvError::Disconnected) => Err(TryRecvError::Disconnected),
    };
    Answer { polled, channel: Ghost(arbitrary()) }
}

} // verus!
