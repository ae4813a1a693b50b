//! A driver whose workers take their tasks from a channel, and are parked by
//! their threads where there are none.

use crate::driver::answer::{ask, Answer};
use crate::executor::Context;
use crossbeam_channel::Receiver;
use std::ops::ControlFlow;
use vstd::prelude::*;

pub mod answer;

verus! {

/// Why a channel gave no task.
#[derive(Clone, Copy, Debug, PartialEq, Eq, Structural)]
pub enum TryRecvError {
    /// It holds none at the moment.
    Empty,
    /// It holds none, and none will come.
    Disconnected,
}

/// Calls `f` on the executor of the thread, which there must be.
pub fn executor_context<E, R, F: FnOnce(&E) -> R>(context: &Context<E>, f: F) -> (result: R)
    requires
        context@ is Some,
        f.requires((&context@->0,)),
    ensures
        f.ensures((&context@->0,), result),
{
    context.context(f)
}

/// What has just happened to a worker.
pub enum DriverInput {
    /// It begins to ask for a task.
    Start,
    /// It kept the books, which made this many tasks ready.
    BookKept(usize),
    /// Its thread was parked, and goes on.
    Unparked,
}

/// What a worker that found no task does next.
#[derive(Clone, Copy, Debug, PartialEq, Eq, Structural)]
pub enum ParkAction {
    /// Keep the books.
    BookKeep,
    /// Park the thread.
    Park,
    /// Go on.
    Return,
}

/// What a worker that asks for a task does next.
pub enum AcquireAction<T> {
    /// Keep the books.
    BookKeep,
    /// Park the thread.
    Park,
    /// Stop asking: go on with a task or with none, or end.
    Done(ControlFlow<(), Option<T>>),
}

/// What a worker does next.
pub enum DriverAction<T> {
    /// Keep the books.
    BookKeep,
    /// Park the thread.
    Park,
    /// Poll the given one once, with a new waker.
    Poll(T),
    /// Begin anew, or end.
    Return(ControlFlow<()>),
}

/// The threads of a driver: who they are, and how many of them are parked.
#[verifier::ext_equal]
pub struct Threads<H> {
    pub handles: Seq<H>,
    pub parked: nat,
}

impl<H> Threads<H> {
    /// A driver without threads.
    pub open spec fn initial() -> Self {
        Threads { handles: Seq::empty(), parked: 0 }
    }

    /// One thread is always left that is not parked.
    pub open spec fn wf(self) -> bool {
        self.parked == 0 || self.parked < self.handles.len()
    }

    /// One more thread may be parked without all of them being so.
    pub open spec fn may_park(self) -> bool {
        self.parked + 1 < self.handles.len()
    }

    /// The threads with one more.
    pub open spec fn registered(self, handle: H) -> Self {
        Threads { handles: self.handles.push(handle), ..self }
    }

    /// One step of parking: the threads after `input`, and what the worker does
    /// next.
    pub open spec fn park_step(self, input: DriverInput) -> (Self, ParkAction) {
        match input {
            DriverInput::Start => (self, ParkAction::BookKeep),
            DriverInput::BookKept(n) => if n == 0 && self.may_park() {
                (Threads { parked: self.parked + 1, ..self }, ParkAction::Park)
            } else {
                (self, ParkAction::Return)
            },
            DriverInput::Unparked => (
                Threads { parked: (self.parked - 1) as nat, ..self },
                ParkAction::Return,
            ),
        }
    }

    /// `input` may happen here: only a parked thread can be unparked.
    pub open spec fn allows(self, input: DriverInput) -> bool {
        input is Unparked ==> self.parked > 0
    }
}

/// What a worker that asks for a task does while it is being parked: once that is
/// over, it goes on without a task.
pub open spec fn parking_action<T>(action: ParkAction) -> AcquireAction<T> {
    match action {
        ParkAction::BookKeep => AcquireAction::BookKeep,
        ParkAction::Park => AcquireAction::Park,
        ParkAction::Return => AcquireAction::Done(ControlFlow::Continue(None)),
    }
}

/// What requesting a task gives a worker that has kept the books, which made `n`
/// tasks ready: the threads after it, and what the worker does next. Where the
/// channel gave `polled`, a task is run, an empty channel leads to parking, and a
/// closed one ends the worker.
pub open spec fn request_step<T, H>(
    threads: Threads<H>,
    n: usize,
    polled: Result<T, TryRecvError>,
) -> (Threads<H>, AcquireAction<T>) {
    match polled {
        Ok(task) => (threads, AcquireAction::Done(ControlFlow::Continue(Some(task)))),
        Err(TryRecvError::Empty) => {
            let (after, action) = threads.park_step(DriverInput::BookKept(n));
            (after, parking_action(action))
        },
        Err(TryRecvError::Disconnected) => (threads, AcquireAction::Done(ControlFlow::Break(()))),
    }
}

/// One step of asking for a task, where `polled` is what the channel gives where
/// it is asked: first the books are kept, then a task is requested.
pub open spec fn acquire_step<T, H>(
    threads: Threads<H>,
    input: DriverInput,
    polled: Result<T, TryRecvError>,
) -> (Threads<H>, AcquireAction<T>) {
    match input {
        DriverInput::Start => (threads, AcquireAction::BookKeep),
        DriverInput::BookKept(n) => request_step(threads, n, polled),
        DriverInput::Unparked => {
            let (after, action) = threads.park_step(input);
            (after, parking_action(action))
        },
    }
}

/// What a worker does that has got as far as `action` in asking for a task.
pub open spec fn driver_action<T>(action: AcquireAction<T>) -> DriverAction<T> {
    match action {
        AcquireAction::BookKeep => DriverAction::BookKeep,
        AcquireAction::Park => DriverAction::Park,
        AcquireAction::Done(ControlFlow::Continue(Some(task))) => DriverAction::Poll(task),
        AcquireAction::Done(ControlFlow::Continue(None)) => DriverAction::Return(
            ControlFlow::Continue(()),
        ),
        AcquireAction::Done(ControlFlow::Break(())) => DriverAction::Return(
            ControlFlow::Break(()),
        ),
    }
}

/// Tasks in a channel, and the threads that run them.
#[verifier::reject_recursive_types(T)]
pub struct Executor<T, H> {
    ready: Receiver<T>,
    threads: Vec<H>,
    parked: usize,
}

impl<T, H> View for Executor<T, H> {
    type V = Threads<H>;

    closed spec fn view(&self) -> Threads<H> {
        Threads { handles: self.threads@, parked: self.parked as nat }
    }
}

impl<T, H> Executor<T, H> {
    /// One thread is always left that is not parked.
    pub open spec fn wf(&self) -> bool {
        self@.wf()
    }

    /// The channel from which the tasks come.
    pub closed spec fn channel(&self) -> Receiver<T> {
        self.ready
    }

    /// An executor without threads, which takes its tasks from `ready`.
    pub fn new(ready: Receiver<T>) -> (executor: Self)
        ensures
            executor.wf(),
            executor@ == Threads::<H>::initial(),
            executor.channel() == ready,
    {
        Executor { ready, threads: Vec::new(), parked: 0 }
    }

    /// The number of threads that are parked.
    pub fn parked(&self) -> (parked: usize)
        ensures
            parked == self@.parked,
    {
        self.parked
    }

    /// The threads, in the order in which they were registered.
    pub fn threads(&self) -> (threads: &Vec<H>)
        ensures
            threads@ == self@.handles,
    {
        &self.threads
    }

    /// Registers a thread as a worker.
    pub fn register(&mut self, thread: H)
        requires
            old(self).wf(),
        ensures
            final(self).wf(),
            final(self)@ == old(self)@.registered(thread),
            final(self).channel() == old(self).channel(),
    {
        self.threads.push(thread);
    }

    /// One step of parking a worker. Before getting parked, the books are kept,
    /// so that any waiting tasks are promoted to ready.
    pub fn park_thread(&mut self, input: DriverInput) -> (action: ParkAction)
        requires
            old(self).wf(),
            old(self)@.allows(input),
        ensures
            final(self).wf(),
            (final(self)@, action) == old(self)@.park_step(input),
            final(self).channel() == old(self).channel(),
    {
        match input {
            DriverInput::Start => ParkAction::BookKeep,
            DriverInput::BookKept(n) => {
                let threads: usize = self.threads.len();
                // Skip if parking would cause all threads to be parked.
                // We need at least 1 thread running the books.
                if n == 0 && self.parked + 1 < threads {
                    self.parked = self.parked + 1;
                    ParkAction::Park
                } else {
                    ParkAction::Return
                }
            },
            DriverInput::Unparked => {
                self.parked = self.parked - 1;
                ParkAction::Return
            },
        }
    }

    /// Get a single task from the channel.
    ///
    /// Parks if there are no tasks available.
    /// Breaks if the channel is closed.
    pub fn acquire_task(&mut self, input: DriverInput) -> (action: AcquireAction<T>)
        requires
            old(self).wf(),
            old(self)@.allows(input),
        ensures
            final(self).wf(),
            final(self).channel() == old(self).channel(),
            input is BookKept ==> exists|answer: Answer<T>| #[trigger]
                answer.channel() == old(self).channel() && (final(self)@, action) == acquire_step(
                    old(self)@,
                    input,
                    answer.polled(),
                ),
            !(input is BookKept) ==> forall|polled: Result<T, TryRecvError>|
                (final(self)@, action) == #[trigger] acquire_step(old(self)@, input, polled),
    {
        match input {
            DriverInput::Start => AcquireAction::BookKeep,
            DriverInput::BookKept(n) => {
                let answer = ask(&self.ready);
                let ghost given = answer;
                let action = self.acquire_polled(n, answer.into_polled());
                assert(given.channel() == old(self).channel());
                action
            },
            DriverInput::Unparked => self.park_and_acquire(input),
        }
    }

    /// What a worker does that has kept the books, which made `n` tasks ready,
    /// and whose channel then gave `polled`.
    pub fn acquire_polled(&mut self, n: usize, polled: Result<T, TryRecvError>) -> (action:
        AcquireAction<T>)
        requires
            old(self).wf(),
        ensures
            final(self).wf(),
            final(self).channel() == old(self).channel(),
            (final(self)@, action) == request_step(old(self)@, n, polled),
    {
        match polled {
            Ok(task) => AcquireAction::Done(ControlFlow::Continue(Some(task))),
            // if no tasks are available, park the thread.
            Err(TryRecvError::Empty) => self.park_and_acquire(DriverInput::BookKept(n)),
            // queue has closed, this means the main thread has exited
            Err(TryRecvError::Disconnected) => AcquireAction::Done(ControlFlow::Break(())),
        }
    }

    fn park_and_acquire(&mut self, input: DriverInput) -> (action: AcquireAction<T>)
        requires
            old(self).wf(),
            old(self)@.allows(input),
        ensures
            final(self).wf(),
            final(self).channel() == old(self).channel(),
            final(self)@ == old(self)@.park_step(input).0,
            action == parking_action::<T>(old(self)@.park_step(input).1),
    {
        match self.park_thread(input) {
            ParkAction::BookKeep => AcquireAction::BookKeep,
            ParkAction::Park => AcquireAction::Park,
            ParkAction::Return => AcquireAction::Done(ControlFlow::Continue(None)),
        }
    }

    /// Try run a single task.
    ///
    /// Parks if there are no tasks available.
    /// Breaks if the channel is closed.
    pub fn run_task(&mut self, input: DriverInput) -> (action: DriverAction<T>)
        requires
            old(self).wf(),
            old(self)@.allows(input),
        ensures
            final(self).wf(),
            final(self).channel() == old(self).channel(),
            input is BookKept ==> exists|answer: Answer<T>| #[trigger]
                answer.channel() == old(self).channel() && ({
                    let step = acquire_step(old(self)@, input, answer.polled());
                    final(self)@ == step.0 && action == driver_action(step.1)
                }),
            !(input is BookKept) ==> forall|polled: Result<T, TryRecvError>|
                {
                    let step = #[trigger] acquire_step(old(self)@, input, polled);
                    final(self)@ == step.0 && action == driver_action(step.1)
                },
    {
        let acquired = self.acquire_task(input);
        run_acquired(acquired)
    }
}

/// What a worker does that has got as far as `acquired` in asking for a task.
pub fn run_acquired<T>(acquired: AcquireAction<T>) -> (action: DriverAction<T>)
    ensures
        action == driver_action(acquired),
{
    match acquired {
        AcquireAction::BookKeep => DriverAction::BookKeep,
        AcquireAction::Park => DriverAction::Park,
        AcquireAction::Done(ControlFlow::Continue(Some(task))) => DriverAction::Poll(task),
        AcquireAction::Done(ControlFlow::Continue(None)) => DriverAction::Return(
            ControlFlow::Continue(()),
        ),
        AcquireAction::Done(ControlFlow::Break(())) => DriverAction::Return(
            ControlFlow::Break(()),
        ),
    }
}

/// Whatever workers do, of the threads of a driver one is not parked: somebody
/// always runs the books.
pub proof fn law_one_thread_stays_unparked<H>(threads: Threads<H>, input: DriverInput, handle: H)
    requires
        threads.wf(),
        threads.allows(input),
    ensures
        threads.park_step(input).0.wf(),
        threads.registered(handle).wf(),
        threads.registered(handle).parked < threads.registered(handle).handles.len(),
        threads.handles.len() > 0 ==> threads.park_step(input).0.parked < threads.handles.len(),
{
}

/// Parking leaves no trace: a thread that was parked and goes on has not changed
/// the count.
pub proof fn law_parking_is_undone<H>(threads: Threads<H>, n: usize)
    requires
        threads.park_step(DriverInput::BookKept(n)).1 is Park,
    ensures
        threads.park_step(DriverInput::BookKept(n)).0.park_step(DriverInput::Unparked).0 == threads,
{
}

/// A worker keeps the books before it requests a task.
pub proof fn law_books_are_kept_first<T, H>(
    threads: Threads<H>,
    input: DriverInput,
    polled: Result<T, TryRecvError>,
)
    ensures
        acquire_step(threads, input, polled).1 is BookKeep <==> input is Start,
{
}

/// A thread is parked only where the channel is empty, the books made nothing
/// ready, and another thread is left that is not parked.
pub proof fn law_thread_is_parked_only_without_tasks<T, H>(
    threads: Threads<H>,
    input: DriverInput,
    polled: Result<T, TryRecvError>,
)
    ensures
        acquire_step(threads, input, polled).1 is Park <==> input == DriverInput::BookKept(0)
            && polled == Err::<T, TryRecvError>(TryRecvError::Empty) && threads.may_park(),
{
}

/// A worker ends if and only if it requests a task and its channel is closed.
pub proof fn law_worker_ends_with_its_channel<T, H>(
    threads: Threads<H>,
    input: DriverInput,
    polled: Result<T, TryRecvError>,
)
    ensures
        driver_action(acquire_step(threads, input, polled).1) == DriverAction::<T>::Return(
            ControlFlow::Break(()),
        ) <==> input is BookKept && polled == Err::<T, TryRecvError>(TryRecvError::Disconnected),
{
}

/// No task that was taken from the channel is lost: whatever the threads are, the
/// worker that got it polls it, and the threads stay as they are.
pub proof fn law_a_task_from_the_channel_is_polled<T, H>(threads: Threads<H>, n: usize, task: T)
    ensures
        ({
            let (after, action) = acquire_step(threads, DriverInput::BookKept(n), Ok(task));
            &&& driver_action(action) == DriverAction::Poll(task)
            &&& after.parked == threads.parked
            &&& after.handles == threads.handles
        }),
{
}

/// A worker polls a task only if its channel gave it that task.
pub proof fn law_only_a_task_from_the_channel_is_polled<T, H>(
    threads: Threads<H>,
    input: DriverInput,
    polled: Result<T, TryRecvError>,
    task: T,
)
    ensures
        driver_action(acquire_step(threads, input, polled).1) == DriverAction::Poll(task) <==> input
            is BookKept && polled == Ok::<T, TryRecvError>(task),
{
}

/// A worker whose channel is open but empty goes on, parked or not: once it has
/// been unparked, or where it is not parked, it begins anew.
pub proof fn law_a_worker_without_a_task_begins_anew<T, H>(threads: Threads<H>, n: usize)
    ensures
        ({
            let empty = Err::<T, TryRecvError>(TryRecvError::Empty);
            let (_, action) = acquire_step(threads, DriverInput::BookKept(n), empty);
            driver_action(action) == (if n == 0 && threads.handles.len() - threads.parked >= 2 {
                DriverAction::<T>::Park
            } else {
                DriverAction::Return(ControlFlow::Continue(()))
            })
        }),
        forall|polled: Result<T, TryRecvError>| #[trigger]
            driver_action(acquire_step(threads, DriverInput::Unparked, polled).1) == DriverAction::<
                T,
            >::Return(ControlFlow::Continue(())),
{
}

/// The count of parked threads goes up exactly where one is parked, and down
/// exactly where one goes on; no step changes which threads there are.
pub proof fn law_parked_threads_are_counted<T, H>(
    threads: Threads<H>,
    input: DriverInput,
    polled: Result<T, TryRecvError>,
)
    requires
        threads.allows(input),
    ensures
        ({
            let (after, action) = acquire_step(threads, input, polled);
            &&& after.handles == threads.handles
            &&& after.parked - threads.parked == (if action is Park {
                1int
            } else if input is Unparked {
                -1
            } else {
                0
            })
        }),
        ({
            let (after, action) = threads.park_step(input);
            &&& after.handles == threads.handles
            &&& after.parked - threads.parked == (if action is Park {
                1int
            } else if input is Unparked {
                -1
            } else {
                0
            })
            &&& action is BookKeep <==> input is Start
            &&& action is Park <==> input == DriverInput::BookKept(0) && threads.handles.len()
                - threads.parked >= 2
        }),
{
}

/// Registering a thread adds it behind all others, and parks none.
pub proof fn law_registering_adds_one_thread<H>(threads: Threads<H>, handle: H)
    ensures
        threads.registered(handle).handles.len() == threads.handles.len() + 1,
        threads.registered(handle).handles.last() == handle,
        threads.registered(handle).handles.drop_last() == threads.handles,
        threads.registered(handle).parked == threads.parked,
{
    assert(threads.registered(handle).handles.drop_last() =~= threads.handles);
}

/// What the channel gave is what the worker goes on with: a task is handed on
/// whatever the threads are, and a closed channel ends the worker.
pub proof fn law_what_the_channel_gave_is_handed_on<T, H>(n: usize, task: T)
    ensures
        forall|executor: &mut Executor<T, H>, action: AcquireAction<T>| #[trigger]
            call_ensures(Executor::<T, H>::acquire_polled, (executor, n, Ok(task)), action) ==> {
                &&& action == AcquireAction::Done(ControlFlow::Continue(Some(task)))
                &&& final(executor)@ == executor@
            },
        forall|executor: &mut Executor<T, H>, action: AcquireAction<T>| #[trigger]
            call_ensures(
                Executor::<T, H>::acquire_polled,
                (executor, n, Err(TryRecvError::Disconnected)),
                action,
            ) ==> {
                &&& action matches AcquireAction::Done(ControlFlow::Break(_))
                &&& final(executor)@ == executor@
            },
{
}

/// A worker that was handed a task polls that task.
pub proof fn law_what_was_acquired_is_polled<T>(
    acquired: AcquireAction<T>,
    action: DriverAction<T>,
    task: T,
)
    requires
        call_ensures(run_acquired::<T>, (acquired,), action),
    ensures
        action == DriverAction::Poll(task) <==> acquired == AcquireAction::Done(
            ControlFlow::Continue(Some(task)),
        ),
        action is BookKeep <==> acquired is BookKeep,
        action is Park <==> acquired is Park,
        (action matches DriverAction::Return(ControlFlow::Break(_))) <==> (
        acquired matches AcquireAction::Done(ControlFlow::Break(_))),
{
}

} // verus!
