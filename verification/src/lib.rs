//! The decisions of a small async runtime: a ready queue shared by worker
//! threads, a timer queue, the routing of operating system events to the tasks
//! that wait for them, and the read/write state of TCP streams.
//!
//! Everything here works on plain values. Threads, locks, futures and sockets
//! belong to the program around the library: it holds these values behind its
//! locks, performs the actions they ask for, and reports back what happened.

use crate::executor::{are_worker_names, BlockOnAction, BlockOnInput, Executor};
use crate::ready::State;
use vstd::prelude::*;

pub mod driver;
pub mod executor;
pub mod io;
pub mod reactor;
pub mod ready;
pub mod timers;

verus! {

/// Whether a computation has come to its end.
pub enum Poll<T> {
    /// It has, with this value.
    Ready(T),
    /// It has not; whoever waits for it will be woken.
    Pending,
}

/// Starts a new runtime, with as many workers as the machine runs in parallel.
/// Beside the executor stands the first thing to do in order to run a future on
/// it to completion: see [`Executor::block_on`].
pub fn block_on<T, R>(available: Option<usize>) -> (start: (Executor<T>, BlockOnAction<R>))
    ensures
        start.0.wf(),
        start.0@ == State::<T>::initial(
            (match available {
                Some(threads) => threads as nat,
                None => 4,
            }),
        ),
        start.1 matches BlockOnAction::Launch(names) && are_worker_names(
            names@,
            start.0@.max_waiting,
        ),
{
    let executor = Executor::new(available);
    let action = executor.block_on(BlockOnInput::Start);
    (executor, action)
}

/// A new runtime has as many workers as the machine runs in parallel: the thread
/// that starts it, and one more for each name under which one is launched. None of
/// them waits, and nothing is ready yet.
pub proof fn law_all_parallelism_is_used<T, R>(
    available: usize,
    start: (Executor<T>, BlockOnAction<R>),
)
    requires
        call_ensures(block_on::<T, R>, (Some(available),), start),
    ensures
        start.1 matches BlockOnAction::Launch(names) && (available > 0 ==> names@.len() + 1
            == available),
        start.0@.tasks.len() == 0,
        start.0@.waiting == 0,
        start.0@.max_waiting == available,
{
}

} // verus!
