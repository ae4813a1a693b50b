//! The log of the wakers that were woken.

use crate::reactor::wake::{wake, Woken};
use std::task::Waker;
use vstd::prelude::*;

verus! {

/// The wakers that were woken, in order.
pub struct Wakes {
    woken: Vec<Woken>,
}

impl View for Wakes {
    type V = Seq<Waker>;

    closed spec fn view(&self) -> Seq<Waker> {
        self.woken@.map_values(|woken: Woken| woken@)
    }
}

impl Wakes {
    /// Nothing was woken yet.
    pub fn none() -> (wakes: Self)
        ensures
            wakes@ == Seq::<Waker>::empty(),
    {
        let wakes = Wakes { woken: Vec::new() };
        assert(wakes@ =~= Seq::empty());
        wakes
    }

    /// How many wakers were woken.
    pub fn count(&self) -> (count: usize)
        ensures
            count == self@.len(),
    {
        self.woken.len()
    }

    /// Wakes `task`.
    pub fn wake(&mut self, task: Waker)
        ensures
            final(self)@ == old(self)@.push(task),
    {
        let ghost waker = task;
        let woken = wake(task);
        self.woken.push(woken);
        assert(self@ =~= old(self)@.push(waker));
    }
}

} // verus!
