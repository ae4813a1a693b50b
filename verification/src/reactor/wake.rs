//! Waking tasks, and the evidence of it.

use std::task::Waker;
use vstd::prelude::*;

verus! {

/// The waker of a task. Nothing is known here of what it holds.
#[verifier::external_type_specification]
#[verifier::external_body]
pub struct ExWaker(Waker);

/// A waker that was woken.
pub struct Woken {
    waker: Ghost<Waker>,
}

impl View for Woken {
    type V = Waker;

    closed spec fn view(&self) -> Waker {
        self.waker@
    }
}

/// Calls `Waker::wake`, and gives evidence of the call. What waking does is up to
/// whoever made the waker, and is not stated.
#[verifier::external_body]
pub(crate) fn wake(task: Waker) -> (woken: Woken)
    ensures
        woken@ == task,
{
    task.wake();
    Woken { waker: Ghost(arbitrary()) }
}

} // verus!
