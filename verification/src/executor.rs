//! The executor: which task a worker polls next, what becomes of it, and how a
//! runtime starts and ends.

use crate::executor::delivery::{
    is_delivery, is_received, oneshot_channel, oneshot_poll, oneshot_send, Delivered, OutputSender,
    Received, Refused,
};
use crate::ready::{Acquire, Op, Queue, State};
use crate::Poll;
use futures::channel::oneshot;
use std::ops::ControlFlow;
use std::task;
use vstd::multiset::Multiset;
use vstd::prelude::*;
use vstd::string::*;

pub mod delivery;

pub use crate::executor::delivery::JoinHandle;

verus! {

/// The executor that runs on a thread, if any does.
pub struct Context<E> {
    current: Option<E>,
}

impl<E> View for Context<E> {
    type V = Option<E>;

    closed spec fn view(&self) -> Option<E> {
        self.current
    }
}

impl<E> Context<E> {
    /// A thread on which no executor runs.
    pub fn new() -> (context: Self)
        ensures
            context@ is None,
    {
        Context { current: None }
    }

    /// Registers an executor on the thread.
    pub fn register(&mut self, executor: E)
        ensures
            final(self)@ == Some(executor),
    {
        self.current = Some(executor);
    }

    /// Whether an executor runs on the thread.
    pub fn is_registered(&self) -> (registered: bool)
        ensures
            registered == (self@ is Some),
    {
        self.current.is_some()
    }

    /// Calls `f` on the executor of the thread, which there must be.
    pub fn context<R, F: FnOnce(&E) -> R>(&self, f: F) -> (result: R)
        requires
            self@ is Some,
            f.requires((&self@->0,)),
        ensures
            f.ensures((&self@->0,), result),
    {
        f(self.current.as_ref().unwrap())
    }
}

/// What a waker holds: the task, while it is pending, and whether a wake came
/// while the task was being polled.
#[verifier::ext_equal]
pub struct WakerState<T> {
    pub task: Option<T>,
    pub woken: bool,
}

/// What becomes of a task that has been polled.
pub enum Settled<T> {
    /// It is pending, and its waker keeps it.
    Kept,
    /// It is pending, and has been woken already.
    Ready(T),
    /// It is finished.
    Finished(T),
}

impl<T> WakerState<T> {
    /// The waker of a task that is about to be polled.
    pub open spec fn initial() -> Self {
        WakerState { task: None, woken: false }
    }

    /// The waker once it has been woken: the task that was there has left, or the
    /// wake is remembered.
    pub open spec fn roused(self) -> Self {
        WakerState { task: None, woken: self.woken || self.task is None }
    }

    /// The waker once its task has been polled, and what becomes of the task.
    pub open spec fn settled(self, task: T, pending: bool) -> (Self, Settled<T>) {
        if !pending {
            (self, Settled::Finished(task))
        } else if self.woken {
            (WakerState { task: None, woken: false }, Settled::Ready(task))
        } else {
            (WakerState { task: Some(task), woken: false }, Settled::Kept)
        }
    }
}

/// The ready queue once `task`, if there is one, has been signalled.
pub open spec fn with_signalled<T>(ready: State<T>, task: Option<T>) -> State<T> {
    match task {
        Some(task) => ready.after(Op::Signal(task)),
        None => ready,
    }
}

/// A place for a task between two polls. Waking it puts the task back among
/// those that are ready, at once or as soon as it has been polled.
pub struct TaskWaker<T> {
    task: Option<T>,
    woken: bool,
}

impl<T> View for TaskWaker<T> {
    type V = WakerState<T>;

    closed spec fn view(&self) -> WakerState<T> {
        WakerState { task: self.task, woken: self.woken }
    }
}

impl<T> TaskWaker<T> {
    /// The waker of a task that is about to be polled: it is not there yet.
    pub fn new() -> (waker: Self)
        ensures
            waker@ == WakerState::<T>::initial(),
    {
        TaskWaker { task: None, woken: false }
    }

    /// Takes the task, which is once again ready for work. Where it is not there,
    /// because it is being polled, the wake is remembered.
    pub fn rouse(&mut self) -> (task: Option<T>)
        ensures
            task == old(self)@.task,
            final(self)@ == old(self)@.roused(),
    {
        let task = self.task.take();
        if task.is_none() {
            self.woken = true;
        }
        task
    }

    /// What becomes of a task that has been polled with this waker: one that is
    /// pending is kept here until it is woken, unless it has been woken already.
    pub fn settle(&mut self, task: T, pending: bool) -> (settled: Settled<T>)
        ensures
            (final(self)@, settled) == old(self)@.settled(task, pending),
    {
        if !pending {
            Settled::Finished(task)
        } else if self.woken {
            self.task = None;
            self.woken = false;
            Settled::Ready(task)
        } else {
            self.task = Some(task);
            Settled::Kept
        }
    }

    /// Tells the executor that the task is once again ready for work, and
    /// returns whether it is in the queue now. A task that is being polled will be
    /// once that is over.
    pub fn wake(&mut self, ready: &mut Queue<T>) -> (signalled: bool)
        requires
            old(ready).wf(),
        ensures
            final(ready).wf(),
            final(self)@ == old(self)@.roused(),
            final(ready)@ == with_signalled(old(ready)@, old(self)@.task),
            signalled == (old(self)@.task is Some),
    {
        if let Some(task) = self.rouse() {
            ready.signal(task);
            true
        } else {
            false
        }
    }

    /// What becomes of a task that has been polled with this waker: one that is
    /// pending is kept here until it is woken, or is ready again where it was
    /// woken while it was polled; one that is not is given back, to be dropped.
    /// In any case the worker goes on.
    pub fn polled(&mut self, task: T, pending: bool, ready: &mut Queue<T>) -> (after: (
        ControlFlow<()>,
        Option<T>,
    ))
        requires
            old(ready).wf(),
        ensures
            final(ready).wf(),
            final(self)@ == old(self)@.settled(task, pending).0,
            after.0 == ControlFlow::<()>::Continue(()),
            match old(self)@.settled(task, pending).1 {
                Settled::Kept => after.1 is None && final(ready)@ == old(ready)@,
                Settled::Ready(task) => after.1 is None && final(ready)@ == old(ready)@.after(
                    Op::Signal(task),
                ),
                Settled::Finished(task) => after.1 == Some(task) && final(ready)@ == old(ready)@,
            },
    {
        match self.settle(task, pending) {
            Settled::Kept => (ControlFlow::Continue(()), None),
            Settled::Ready(task) => {
                ready.signal(task);
                (ControlFlow::Continue(()), None)
            },
            Settled::Finished(task) => (ControlFlow::Continue(()), Some(task)),
        }
    }
}

/// What has just happened to a worker that asks for a task.
pub enum WorkerInput {
    /// It begins to ask.
    Start,
    /// It kept the books, which made this many tasks ready.
    BookKept(usize),
    /// It waited, and was woken.
    Woken,
}

/// What a worker that asks for a task does next.
pub enum AcquireAction<T> {
    /// Keep the books.
    BookKeep,
    /// Wait for a signal.
    Wait,
    /// Stop asking: go on with a task or with none, or end.
    Done(ControlFlow<(), Option<T>>),
}

/// What a worker does next.
pub enum WorkerAction<T> {
    /// Keep the books.
    BookKeep,
    /// Wait for a signal.
    Wait,
    /// Poll the given one once, with a new [`TaskWaker`].
    Poll(T),
    /// Begin anew, or end.
    Return(ControlFlow<()>),
}

/// One step of asking for a task: the queue after `input`, and what the worker
/// does next. First the books are kept; then a task is requested, and only where
/// there is none and the books made nothing ready does the worker wait.
pub open spec fn acquire_step<T>(ready: State<T>, input: WorkerInput) -> (
    State<T>,
    AcquireAction<T>,
) {
    match input {
        WorkerInput::Start => (ready, AcquireAction::BookKeep),
        WorkerInput::BookKept(n) => if n == 0 && ready.must_wait() {
            (ready.wait_begun(), AcquireAction::Wait)
        } else {
            (ready.popped(), AcquireAction::Done(ControlFlow::Continue(ready.front())))
        },
        WorkerInput::Woken => (
            ready.wait_over().popped(),
            AcquireAction::Done(ControlFlow::Continue(ready.front())),
        ),
    }
}

/// What a worker does that has got as far as `action` in asking for a task.
pub open spec fn worker_action<T>(action: AcquireAction<T>) -> WorkerAction<T> {
    match action {
        AcquireAction::BookKeep => WorkerAction::BookKeep,
        AcquireAction::Wait => WorkerAction::Wait,
        AcquireAction::Done(ControlFlow::Continue(Some(task))) => WorkerAction::Poll(task),
        AcquireAction::Done(ControlFlow::Continue(None)) => WorkerAction::Return(
            ControlFlow::Continue(()),
        ),
        AcquireAction::Done(ControlFlow::Break(())) => WorkerAction::Return(
            ControlFlow::Break(()),
        ),
    }
}

impl<R> JoinHandle<R> {
    /// Polls the channel for the output of the task.
    pub fn poll_channel(&mut self, context: &mut task::Context<'_>) -> (received: Received<R>)
        ensures
            final(self).sender() == old(self).sender(),
            final(self).is_done() == (old(self).is_done() || !(received.polled() is Pending)),
            is_received(*old(self), None, received),
    {
        oneshot_poll(self, None, context)
    }

    /// Polls the channel for the output of the task, by one who knows that it was
    /// delivered.
    pub fn poll_delivered(
        &mut self,
        delivered: &Delivered<R>,
        context: &mut task::Context<'_>,
    ) -> (received: Received<R>)
        requires
            delivered@.0 == old(self).sender(),
        ensures
            final(self).sender() == old(self).sender(),
            final(self).is_done() == (old(self).is_done() || !(received.polled() is Pending)),
            is_received(*old(self), Some(delivered), received),
    {
        oneshot_poll(self, Some(delivered), context)
    }

    /// The output of the task, given what a poll of the channel gave. The task
    /// must not have been dropped without an output.
    pub fn poll(polled: Poll<Result<R, oneshot::Canceled>>) -> (poll: Poll<R>)
        requires
            !(polled matches Poll::Ready(Err(_))),
        ensures
            poll == (match polled {
                Poll::Ready(Ok(output)) => Poll::Ready(output),
                _ => Poll::Pending,
            }),
    {
        match polled {
            Poll::Ready(Ok(output)) => Poll::Ready(output),
            _ => Poll::Pending,
        }
    }
}

/// Sends the output of a spawned task to its handle. An output that nobody waits
/// for comes back.
pub fn complete<R>(sender: OutputSender<R>, output: R) -> (delivery: Result<
    Delivered<R>,
    Refused<R>,
>)
    ensures
        is_delivery(sender, output, delivery),
{
    oneshot_send(sender, output)
}

/// What has just happened to the thread that runs a future to completion.
pub enum BlockOnInput<R> {
    /// It begins.
    Start,
    /// It launched the other workers.
    Launched,
    /// It spawned the future.
    Spawned,
    /// It polled the handle of the future, which gave this.
    Polled(Poll<Result<R, oneshot::Canceled>>),
    /// It ran a task like any other worker.
    RanTask,
}

/// What the thread that runs a future to completion does next.
pub enum BlockOnAction<R> {
    /// Register itself, and launch one more worker under each of these names.
    Launch(Vec<String>),
    /// Spawn the future.
    Spawn,
    /// Poll the handle of the future.
    PollHandle,
    /// Run a task like any other worker.
    RunTask,
    /// Answer this.
    Return(R),
}

/// The decimal digits of a number.
pub open spec fn decimal(n: nat) -> Seq<char>
    decreases n,
{
    if n < 10 {
        seq![('0' as u32 + n) as char]
    } else {
        decimal(n / 10).push(('0' as u32 + n % 10) as char)
    }
}

/// The name of the worker with this number.
pub open spec fn worker_name_of(n: nat) -> Seq<char> {
    "tl-async-runtime-worker-"@ + decimal(n)
}

/// `names` are those of all workers but the first, of which there are
/// `max_waiting` in all.
pub open spec fn are_worker_names(names: Seq<String>, max_waiting: nat) -> bool {
    &&& names.len() == (if max_waiting == 0 {
        0
    } else {
        max_waiting - 1
    })
    &&& forall|i: int| 0 <= i < names.len() ==> (#[trigger] names[i])@ == worker_name_of((i + 1) as nat)
}

/// In running a future to completion with `max_waiting` workers, `action` is what
/// to do next after `input`.
pub open spec fn block_on_step<R>(
    max_waiting: nat,
    input: BlockOnInput<R>,
    action: BlockOnAction<R>,
) -> bool {
    match input {
        BlockOnInput::Start => action matches BlockOnAction::Launch(names) && are_worker_names(
            names@,
            max_waiting,
        ),
        BlockOnInput::Launched => action is Spawn,
        BlockOnInput::Spawned => action is PollHandle,
        BlockOnInput::RanTask => action is PollHandle,
        BlockOnInput::Polled(Poll::Ready(Ok(output))) => action == BlockOnAction::Return(output),
        BlockOnInput::Polled(_) => action is RunTask,
    }
}

/// Spawned tasks and the workers that run them. The reactor stands beside it,
/// behind a lock of its own: what it wakes comes back to the queue here.
pub struct Executor<T> {
    /// The tasks that are ready to be worked on.
    pub ready: Queue<T>,
}

impl<T> View for Executor<T> {
    type V = State<T>;

    open spec fn view(&self) -> State<T> {
        self.ready@
    }
}

impl<T> Executor<T> {
    /// The ready queue is well formed.
    pub open spec fn wf(&self) -> bool {
        self.ready.wf()
    }

    /// An executor without tasks, for as many workers as the machine runs in
    /// parallel.
    pub fn new(available: Option<usize>) -> (executor: Self)
        ensures
            executor.wf(),
            executor@ == State::<T>::initial(
                (match available {
                    Some(threads) => threads as nat,
                    None => 4,
                }),
            ),
    {
        Executor { ready: Queue::new(available) }
    }

    /// Get a single task from the queue.
    ///
    /// Waits if there are no tasks available.
    pub fn acquire_task(&mut self, input: WorkerInput) -> (action: AcquireAction<T>)
        requires
            old(self).wf(),
            input is Woken ==> old(self)@.waiting > 0,
        ensures
            final(self).wf(),
            (final(self)@, action) == acquire_step(old(self)@, input),
    {
        let acquired = match input {
            WorkerInput::Start => {
                return AcquireAction::BookKeep;
            },
            WorkerInput::BookKept(n) => {
                let should_wait = self.ready.should_wait() && n == 0;
                self.ready.acquire_task(should_wait)
            },
            WorkerInput::Woken => Acquire::Task(self.ready.resume()),
        };
        match acquired {
            Acquire::Wait => AcquireAction::Wait,
            Acquire::Task(task) => AcquireAction::Done(ControlFlow::Continue(task)),
        }
    }

    /// Try run a single task.
    ///
    /// Waits if there are no tasks available.
    pub fn run_task(&mut self, input: WorkerInput) -> (action: WorkerAction<T>)
        requires
            old(self).wf(),
            input is Woken ==> old(self)@.waiting > 0,
        ensures
            final(self).wf(),
            final(self)@ == acquire_step(old(self)@, input).0,
            action == worker_action(acquire_step(old(self)@, input).1),
    {
        match self.acquire_task(input) {
            AcquireAction::BookKeep => WorkerAction::BookKeep,
            AcquireAction::Wait => WorkerAction::Wait,
            AcquireAction::Done(ControlFlow::Continue(Some(task))) => WorkerAction::Poll(task),
            AcquireAction::Done(ControlFlow::Continue(None)) => WorkerAction::Return(
                ControlFlow::Continue(()),
            ),
            AcquireAction::Done(ControlFlow::Break(())) => WorkerAction::Return(
                ControlFlow::Break(()),
            ),
        }
    }

    /// Spawns a task in this executor. `make_task` is given where to send the
    /// output of the task (see [`complete`]), and the handle is where that very
    /// output is received.
    pub fn spawn<R, F: FnOnce(OutputSender<R>) -> T>(&mut self, make_task: F) -> (handle:
        JoinHandle<R>)
        requires
            old(self).wf(),
            forall|sender: OutputSender<R>| make_task.requires((sender,)),
        ensures
            final(self).wf(),
            !handle.is_done(),
            exists|task: T| #[trigger]
                make_task.ensures((handle.sender(),), task) && final(self)@ == old(self)@.after(
                    Op::Signal(task),
                ),
    {
        let (sender, handle) = oneshot_channel();
        let task = make_task(sender);
        // insert the task into the runtime and signal that it is ready for processing
        self.ready.signal(task);
        handle
    }

    /// One step of running a future to completion.
    pub fn block_on<R>(&self, input: BlockOnInput<R>) -> (action: BlockOnAction<R>)
        requires
            !(input matches BlockOnInput::Polled(Poll::Ready(Err(_)))),
        ensures
            block_on_step(self@.max_waiting, input, action),
    {
        match input {
            BlockOnInput::Start => BlockOnAction::Launch(self.worker_names()),
            BlockOnInput::Launched => BlockOnAction::Spawn,
            BlockOnInput::Spawned => BlockOnAction::PollHandle,
            BlockOnInput::RanTask => BlockOnAction::PollHandle,
            BlockOnInput::Polled(polled) => match JoinHandle::poll(polled) {
                // if the output value is ready, return
                Poll::Ready(output) => BlockOnAction::Return(output),
                // make the main thread busy and also run some tasks
                Poll::Pending => BlockOnAction::RunTask,
            },
        }
    }

    /// The names of all workers but the first.
    pub fn worker_names(&self) -> (names: Vec<String>)
        ensures
            are_worker_names(names@, self@.max_waiting),
    {
        let workers: usize = self.ready.max_waiting();
        let mut names: Vec<String> = Vec::new();
        let mut i: usize = 1;
        while i < workers
            invariant
                i >= 1,
                workers == 0 ==> i == 1,
                workers > 0 ==> i <= workers,
                names@.len() == i - 1,
                forall|j: int|
                    0 <= j < names@.len() ==> (#[trigger] names@[j])@ == worker_name_of(
                        (j + 1) as nat,
                    ),
            decreases workers - i,
        {
            names.push(worker_name(i));
            i = i + 1;
        }
        names
    }
}

/// The name of the worker with this number.
pub fn worker_name(i: usize) -> (name: String)
    ensures
        name@ == worker_name_of(i as nat),
{
    "tl-async-runtime-worker-".to_owned().concat(decimal_digits(i).as_str())
}

fn decimal_digits(n: usize) -> (digits: String)
    ensures
        digits@ == decimal(n as nat),
    decreases n,
{
    if n < 10 {
        decimal_digit(n).to_owned()
    } else {
        decimal_digits(n / 10).concat(decimal_digit(n % 10))
    }
}

fn decimal_digit(n: usize) -> (digit: &'static str)
    requires
        n < 10,
    ensures
        digit@ == seq![('0' as u32 + n) as char],
{
    proof {
        reveal_strlit("0");
        reveal_strlit("1");
        reveal_strlit("2");
        reveal_strlit("3");
        reveal_strlit("4");
        reveal_strlit("5");
        reveal_strlit("6");
        reveal_strlit("7");
        reveal_strlit("8");
        reveal_strlit("9");
    }
    match n {
        0 => "0",
        1 => "1",
        2 => "2",
        3 => "3",
        4 => "4",
        5 => "5",
        6 => "6",
        7 => "7",
        8 => "8",
        _ => "9",
    }
}

/// A task that has finished makes its handle ready, and the handle gives the
/// output of that very task: what was sent on the sender that the task was made
/// with is the first answer that is received.
pub proof fn law_handle_gives_the_output_of_its_task<R>(
    handle: JoinHandle<R>,
    output: R,
    delivered: Delivered<R>,
    received: Received<R>,
)
    requires
        is_delivery(handle.sender(), output, Ok(delivered)),
        !handle.is_done(),
        is_received(handle, Some(&delivered), received),
    ensures
        received.polled() == Poll::<Result<R, oneshot::Canceled>>::Ready(Ok(output)),
{
}

/// Running a future to completion answers with the output of that future once it
/// has finished.
pub proof fn law_block_on_answers_with_the_output<R>(
    max_waiting: nat,
    handle: JoinHandle<R>,
    output: R,
    delivered: Delivered<R>,
    received: Received<R>,
    action: BlockOnAction<R>,
)
    requires
        is_delivery(handle.sender(), output, Ok(delivered)),
        !handle.is_done(),
        is_received(handle, Some(&delivered), received),
        block_on_step(max_waiting, BlockOnInput::Polled(received.polled()), action),
    ensures
        action == BlockOnAction::Return(output),
{
    law_handle_gives_the_output_of_its_task(handle, output, delivered, received);
}

/// The tasks that a waker and the ready queue hold between them.
pub open spec fn held<T>(waker: WakerState<T>, ready: State<T>) -> Multiset<T> {
    match waker.task {
        Some(task) => ready.tasks.to_multiset().insert(task),
        None => ready.tasks.to_multiset(),
    }
}

/// Waking neither loses a task nor makes a second one of it.
pub proof fn law_wake_keeps_every_task<T>(waker: WakerState<T>, ready: State<T>)
    ensures
        held(waker.roused(), with_signalled(ready, waker.task)) == held(waker, ready),
{
    broadcast use vstd::seq_lib::group_to_multiset_ensures;

}

/// A task that is pending becomes ready once, however often its waker is woken.
pub proof fn law_second_wake_signals_nothing<T>(waker: WakerState<T>, ready: State<T>)
    ensures
        with_signalled(ready, waker.roused().task) == ready,
{
}

/// A wake that comes while the task is being polled is not lost: if the task is
/// pending, it is ready again as soon as it has been polled, and its waker does
/// not keep it.
pub proof fn law_wake_during_poll_makes_ready<T>(task: T)
    ensures
        WakerState::<T>::initial().roused().settled(task, true).1 == Settled::Ready(task),
        WakerState::<T>::initial().roused().settled(task, true).0.task is None,
        WakerState::<T>::initial().roused().roused() == WakerState::<T>::initial().roused(),
{
}

/// A worker polls the task that has been ready for longest; if that is pending
/// and then woken, it is the last in the queue, and the queue holds the same
/// tasks as before.
pub proof fn law_pending_task_goes_to_the_back<T>(ready: State<T>, n: usize)
    requires
        ready.tasks.len() > 0,
    ensures
        ({
            let task = ready.tasks[0];
            let (polling, action) = acquire_step(ready, WorkerInput::BookKept(n));
            let after = with_signalled(polling, Some(task));
            &&& worker_action(action) == WorkerAction::Poll(task)
            &&& after.tasks == ready.tasks.drop_first().push(task)
            &&& after.tasks.to_multiset() == ready.tasks.to_multiset()
        }),
{
    broadcast use vstd::seq_lib::group_to_multiset_ensures;

    let task = ready.tasks[0];
    assert(ready.tasks.drop_first() == ready.tasks.remove(0));
    assert(ready.tasks.to_multiset().contains(task)) by {
        assert(ready.tasks.contains(ready.tasks[0]));
    }
    assert(ready.tasks.to_multiset().remove(task).insert(task) =~= ready.tasks.to_multiset());
}

/// Where the tasks of a runtime are: queued, being polled, kept in their wakers,
/// or finished.
#[verifier::ext_equal]
pub struct Places<T> {
    pub ready: State<T>,
    pub polling: Multiset<T>,
    pub pending: Multiset<T>,
    pub finished: Multiset<T>,
}

/// What can happen to the tasks of a runtime.
pub enum Move<T> {
    /// [`Executor::spawn`] made this one.
    Spawn(T),
    /// [`Executor::run_task`] was called by a worker.
    Worker(WorkerInput),
    /// [`TaskWaker::polled`] was called for this one, on a waker in this state.
    Polled { task: T, pending: bool, waker: WakerState<T> },
    /// [`TaskWaker::wake`] was called on the waker that keeps this one.
    Wake(T),
}

impl<T> Places<T> {
    /// All tasks, wherever they are.
    pub open spec fn all(self) -> Multiset<T> {
        self.ready.tasks.to_multiset().add(self.polling).add(self.pending).add(self.finished)
    }

    /// `m` may happen here: what was polled was being polled, and what a waker
    /// keeps is pending.
    pub open spec fn allows(self, m: Move<T>) -> bool {
        match m {
            Move::Spawn(_) => true,
            Move::Worker(input) => input is Woken ==> self.ready.waiting > 0,
            Move::Polled { task, .. } => self.polling.contains(task),
            Move::Wake(task) => self.pending.contains(task),
        }
    }

    /// Where the tasks are once `m` has happened.
    pub open spec fn after(self, m: Move<T>) -> Self {
        match m {
            Move::Spawn(task) => Places { ready: self.ready.after(Op::Signal(task)), ..self },
            Move::Worker(input) => {
                let (ready, action) = acquire_step(self.ready, input);
                match worker_action(action) {
                    WorkerAction::Poll(task) => Places {
                        ready,
                        polling: self.polling.insert(task),
                        ..self
                    },
                    _ => Places { ready, ..self },
                }
            },
            Move::Polled { task, pending, waker } => {
                let polling = self.polling.remove(task);
                match waker.settled(task, pending).1 {
                    Settled::Kept => Places {
                        polling,
                        pending: self.pending.insert(task),
                        ..self
                    },
                    Settled::Ready(task) => Places {
                        polling,
                        ready: self.ready.after(Op::Signal(task)),
                        ..self
                    },
                    Settled::Finished(task) => Places {
                        polling,
                        finished: self.finished.insert(task),
                        ..self
                    },
                }
            },
            Move::Wake(task) => Places {
                ready: with_signalled(self.ready, Some(task)),
                pending: self.pending.remove(task),
                ..self
            },
        }
    }
}

/// No task is lost and none is doubled: whatever happens, each task that was
/// spawned is in one place.
pub proof fn law_every_task_is_in_one_place<T>(places: Places<T>, m: Move<T>)
    requires
        places.allows(m),
    ensures
        places.after(m).all() == (match m {
            Move::Spawn(task) => places.all().insert(task),
            _ => places.all(),
        }),
{
    broadcast use vstd::seq_lib::group_to_multiset_ensures;

    let tasks = places.ready.tasks;
    if tasks.len() > 0 {
        assert(tasks.drop_first() == tasks.remove(0));
        assert(tasks.contains(tasks[0]));
    }
    let after = places.after(m);
    match m {
        Move::Spawn(task) => {
            assert(after.all() =~= places.all().insert(task));
        },
        _ => {
            assert(after.all() =~= places.all());
        },
    }
}

/// A worker never ends by itself.
pub proof fn law_workers_go_on<T>(ready: State<T>, input: WorkerInput)
    ensures
        worker_action(acquire_step(ready, input).1) != WorkerAction::<T>::Return(
            ControlFlow::Break(()),
        ),
{
}

/// A worker waits only where nothing was ready, the books made nothing ready, and
/// another worker is left that does not wait.
pub proof fn law_worker_waits_only_after_the_books<T>(ready: State<T>, input: WorkerInput)
    ensures
        acquire_step(ready, input).1 is Wait <==> input == WorkerInput::BookKept(0)
            && ready.tasks.len() == 0 && ready.may_wait(),
{
}

/// A worker keeps the books before it requests a task, whether or not one is
/// ready.
pub proof fn law_books_are_kept_first<T>(ready: State<T>, input: WorkerInput)
    ensures
        acquire_step(ready, input).1 is BookKeep <==> input is Start,
        acquire_step(ready, WorkerInput::Start).0 == ready,
{
}

/// A worker that has kept the books gets the task that has been ready for
/// longest, if there is one.
pub proof fn law_ready_task_is_not_waited_for<T>(ready: State<T>, n: usize)
    requires
        ready.tasks.len() > 0,
    ensures
        acquire_step(ready, WorkerInput::BookKept(n)) == (
            ready.popped(),
            AcquireAction::Done(ControlFlow::Continue(Some(ready.tasks[0]))),
        ),
{
}

/// What a worker does to the ready queue is one of the things that the queue
/// allows, so all that holds of the queue holds of it in an executor.
pub proof fn law_worker_steps_are_queue_operations<T>(ready: State<T>, input: WorkerInput)
    ensures
        acquire_step(ready, input).0 == (match input {
            WorkerInput::Start => ready,
            WorkerInput::BookKept(n) => ready.after(Op::Acquire { should_wait: n == 0 }),
            WorkerInput::Woken => ready.after(Op::Resume),
        }),
{
}

/// `input` reports that `action` has been done.
pub open spec fn reports<R>(action: BlockOnAction<R>, input: BlockOnInput<R>) -> bool {
    match action {
        BlockOnAction::Launch(_) => input is Launched,
        BlockOnAction::Spawn => input is Spawned,
        // the task must not have been dropped without an output
        BlockOnAction::PollHandle => input matches BlockOnInput::Polled(polled) && !(polled matches
            Poll::Ready(Err(_))),
        BlockOnAction::RunTask => input is RanTask,
        // nothing happens to a thread that has answered
        BlockOnAction::Return(_) => false,
    }
}

/// `inputs` and `actions` are a run of a thread that runs a future to completion
/// with `max_waiting` workers: it begins, each action is what to do next after the
/// input beside it, and each input reports that the action before it was done.
pub open spec fn is_block_on_run<R>(
    max_waiting: nat,
    inputs: Seq<BlockOnInput<R>>,
    actions: Seq<BlockOnAction<R>>,
) -> bool {
    &&& inputs.len() == actions.len()
    &&& inputs.len() > 0 ==> inputs[0] is Start
    &&& forall|i: int|
        0 <= i < inputs.len() ==> #[trigger] block_on_step(max_waiting, inputs[i], actions[i])
    &&& forall|i: int|
        0 <= i < inputs.len() - 1 ==> reports(#[trigger] actions[i], inputs[i + 1])
}

/// However many workers there are, running a future to completion launches them,
/// then spawns the future, and from then on polls its handle every other time:
/// whenever the thread has run a task, the next thing that it does is to poll the
/// handle.
pub proof fn law_handle_is_polled_after_every_task<R>(
    max_waiting: nat,
    inputs: Seq<BlockOnInput<R>>,
    actions: Seq<BlockOnAction<R>>,
    i: int,
)
    requires
        is_block_on_run(max_waiting, inputs, actions),
        0 <= i < actions.len(),
    ensures
        i == 0 ==> actions[i] is Launch,
        i == 1 ==> actions[i] is Spawn,
        i >= 2 && i % 2 == 0 ==> actions[i] is PollHandle,
        i >= 3 && i % 2 == 1 ==> inputs[i] is Polled && (actions[i] is RunTask || actions[i]
            is Return),
        actions[i] is RunTask && i + 1 < actions.len() ==> actions[i + 1] is PollHandle,
    decreases i,
{
    assert(block_on_step(max_waiting, inputs[i], actions[i]));
    if i > 0 {
        law_handle_is_polled_after_every_task(max_waiting, inputs, actions, i - 1);
    }
    if i + 1 < actions.len() {
        assert(block_on_step(max_waiting, inputs[i + 1], actions[i + 1]));
    }
}

/// Between any two tasks that the thread runs, it polls the handle.
pub proof fn law_handle_is_polled_between_tasks<R>(
    max_waiting: nat,
    inputs: Seq<BlockOnInput<R>>,
    actions: Seq<BlockOnAction<R>>,
    i: int,
    j: int,
)
    requires
        is_block_on_run(max_waiting, inputs, actions),
        0 <= i < j < actions.len(),
        actions[i] is RunTask,
        actions[j] is RunTask,
    ensures
        exists|k: int| i < k < j && #[trigger] actions[k] is PollHandle,
{
    law_handle_is_polled_after_every_task(max_waiting, inputs, actions, i);
    assert(actions[i + 1] is PollHandle);
}

/// The first poll of the handle that can still come at `moment` of a run.
pub open spec fn next_poll(moment: int) -> int {
    if moment <= 3 {
        3
    } else if moment % 2 == 1 {
        moment
    } else {
        moment + 1
    }
}

/// The thread returns as soon as the output is there: once every poll of the
/// handle gives `output`, from some moment of the run on, it runs no other task,
/// and the next poll is followed by that very answer, which ends the run.
pub proof fn law_output_is_returned_at_once<R>(
    max_waiting: nat,
    inputs: Seq<BlockOnInput<R>>,
    actions: Seq<BlockOnAction<R>>,
    moment: int,
    output: R,
)
    requires
        is_block_on_run(max_waiting, inputs, actions),
        0 <= moment < actions.len(),
        forall|i: int|
            moment <= i < inputs.len() && (#[trigger] inputs[i]) is Polled ==> inputs[i]
                == BlockOnInput::Polled(Poll::Ready(Ok(output))),
    ensures
        forall|i: int| moment <= i < actions.len() ==> !((#[trigger] actions[i]) is RunTask),
        actions.len() <= next_poll(moment) + 1,
        actions.len() == next_poll(moment) + 1 ==> actions.last() == BlockOnAction::Return(output),
{
    let end = next_poll(moment);
    if end < actions.len() {
        law_handle_is_polled_after_every_task(max_waiting, inputs, actions, end);
        assert(block_on_step(max_waiting, inputs[end], actions[end]));
        assert(actions[end] == BlockOnAction::Return(output));
    }
    assert forall|i: int| moment <= i < actions.len() implies !((
    #[trigger] actions[i]) is RunTask) by {
        law_handle_is_polled_after_every_task(max_waiting, inputs, actions, i);
    }
}

/// A run in which the output of the future has been delivered ends with that
/// output: the task that delivers it is the last one of the run, and what the next
/// poll of the handle receives is the answer.
pub proof fn law_run_ends_with_the_delivered_output<R>(
    max_waiting: nat,
    inputs: Seq<BlockOnInput<R>>,
    actions: Seq<BlockOnAction<R>>,
    moment: int,
    handle: JoinHandle<R>,
    output: R,
    delivered: Delivered<R>,
    received: Received<R>,
)
    requires
        is_block_on_run(max_waiting, inputs, actions),
        0 <= moment < actions.len(),
        is_delivery(handle.sender(), output, Ok(delivered)),
        !handle.is_done(),
        is_received(handle, Some(&delivered), received),
        next_poll(moment) < inputs.len() ==> inputs[next_poll(moment)] == BlockOnInput::Polled(
            received.polled(),
        ),
    ensures
        forall|i: int| moment <= i < actions.len() ==> !((#[trigger] actions[i]) is RunTask),
        actions.len() <= next_poll(moment) + 1,
        actions.len() == next_poll(moment) + 1 ==> actions.last() == BlockOnAction::Return(output),
{
    let end = next_poll(moment);
    law_handle_gives_the_output_of_its_task(handle, output, delivered, received);
    if end < actions.len() {
        assert(block_on_step(max_waiting, inputs[end], actions[end]));
        assert(actions[end] == BlockOnAction::Return(output));
    }
    assert forall|i: int| moment <= i < actions.len() implies !((
    #[trigger] actions[i]) is RunTask) by {
        law_handle_is_polled_after_every_task(max_waiting, inputs, actions, i);
    }
}

/// The thread answers only with what a poll of the handle has just given.
pub proof fn law_only_the_output_is_returned<R>(
    max_waiting: nat,
    inputs: Seq<BlockOnInput<R>>,
    actions: Seq<BlockOnAction<R>>,
    i: int,
    answer: R,
)
    requires
        is_block_on_run(max_waiting, inputs, actions),
        0 <= i < actions.len(),
        actions[i] == BlockOnAction::Return(answer),
    ensures
        inputs[i] == BlockOnInput::Polled(Poll::Ready(Ok(answer))),
        i == actions.len() - 1,
{
    assert(block_on_step(max_waiting, inputs[i], actions[i]));
}

/// The number that digits stand for.
pub open spec fn number(digits: Seq<char>) -> int
    decreases digits.len(),
{
    if digits.len() == 0 {
        0
    } else {
        number(digits.drop_last()) * 10 + (digits.last() as int - '0' as int)
    }
}

/// Decimal digits read back as the number they were written for: there is at
/// least one, all are digits, and there are no zeros in front.
pub proof fn law_decimal_reads_back(n: nat)
    ensures
        number(decimal(n)) == n,
        decimal(n).len() > 0,
        forall|i: int| 0 <= i < decimal(n).len() ==> '0' <= #[trigger] decimal(n)[i] <= '9',
        n > 0 ==> decimal(n)[0] != '0',
    decreases n,
{
    reveal_with_fuel(number, 2);
    if n >= 10 {
        law_decimal_reads_back(n / 10);
        let digits = decimal(n);
        assert(digits.drop_last() == decimal(n / 10));
    } else {
        assert(decimal(n).drop_last() == Seq::<char>::empty());
    }
}

/// Together with the thread that launches them there are as many workers as there
/// are to be, and each has a name of its own, which ends in its number.
pub proof fn law_every_worker_has_its_own_name<R>(
    max_waiting: nat,
    action: BlockOnAction<R>,
    i: int,
    j: int,
)
    requires
        block_on_step(max_waiting, BlockOnInput::<R>::Start, action),
    ensures
        action matches BlockOnAction::Launch(names) && {
            &&& names@.len() == (if max_waiting > 0 {
                max_waiting - 1
            } else {
                0
            })
            &&& 0 <= i < names@.len() ==> {
                let prefix = "tl-async-runtime-worker-"@;
                &&& names@[i]@.len() > prefix.len()
                &&& names@[i]@.take(prefix.len() as int) == prefix
                &&& number(names@[i]@.skip(prefix.len() as int)) == i + 1
            }
            &&& 0 <= i < j < names@.len() ==> names@[i]@ != names@[j]@
        },
{
    if let BlockOnAction::Launch(names) = action {
        let prefix = "tl-async-runtime-worker-"@;
        assert forall|k: int| 0 <= k < names@.len() implies {
            &&& #[trigger] names@[k]@.len() > prefix.len()
            &&& names@[k]@.take(prefix.len() as int) == prefix
            &&& number(names@[k]@.skip(prefix.len() as int)) == k + 1
        } by {
            let digits = decimal((k + 1) as nat);
            law_decimal_reads_back((k + 1) as nat);
            assert(names@[k]@ == worker_name_of((k + 1) as nat));
            assert((prefix + digits).take(prefix.len() as int) == prefix);
            assert((prefix + digits).skip(prefix.len() as int) == digits);
        }
    }
}

/// A task that has been polled goes where it should: one that is finished comes
/// back, and one that is pending is kept, to be taken by the next wake, or is
/// ready at once if a wake came before.
pub proof fn law_a_polled_task_goes_where_it_should<T>(
    waker: WakerState<T>,
    task: T,
    pending: bool,
)
    ensures
        ({
            let (after, settled) = waker.settled(task, pending);
            &&& !pending ==> settled == Settled::Finished(task) && after == waker
            &&& pending && waker.woken ==> settled == Settled::Ready(task) && after.task is None
                && !after.woken
            &&& pending && !waker.woken ==> settled is Kept && after.task == Some(task)
                && !after.woken && after.roused().task is None && !after.roused().woken
        }),
{
}

/// A wake is never lost: either a task leaves the waker for the ready queue, or
/// the wake is remembered until the task has been polled.
pub proof fn law_a_wake_is_never_lost<T>(waker: WakerState<T>, ready: State<T>)
    ensures
        waker.roused().task is None,
        match waker.task {
            Some(task) => {
                &&& with_signalled(ready, waker.task).tasks.len() == ready.tasks.len() + 1
                &&& with_signalled(ready, waker.task).tasks.last() == task
                &&& waker.roused().woken == waker.woken
            },
            None => {
                &&& with_signalled(ready, waker.task).tasks == ready.tasks
                &&& waker.roused().woken
            },
        },
        with_signalled(ready, waker.task).waiting == ready.waiting,
{
}

/// A worker that requests a task, or that has waited for one, polls the task that
/// has been ready for longest; where there is none it begins anew, or waits where
/// it may.
pub proof fn law_the_oldest_task_is_polled<T>(ready: State<T>, input: WorkerInput)
    requires
        !(input is Start),
        input is Woken ==> ready.waiting > 0,
    ensures
        ({
            let (after, action) = acquire_step(ready, input);
            &&& ready.tasks.len() > 0 ==> {
                &&& worker_action(action) == WorkerAction::Poll(ready.tasks[0])
                &&& after.tasks == ready.tasks.subrange(1, ready.tasks.len() as int)
            }
            &&& ready.tasks.len() == 0 ==> {
                &&& after.tasks.len() == 0
                &&& worker_action(action) == (if input == WorkerInput::BookKept(0)
                    && ready.max_waiting - ready.waiting >= 2 {
                    WorkerAction::<T>::Wait
                } else {
                    WorkerAction::Return(ControlFlow::Continue(()))
                })
            }
            &&& after.max_waiting == ready.max_waiting
            &&& after.waiting - ready.waiting == (if action is Wait {
                1int
            } else if input is Woken {
                -1
            } else {
                0
            })
        }),
{
    assert(ready.tasks.len() > 0 ==> ready.tasks.drop_first() =~= ready.tasks.subrange(
        1,
        ready.tasks.len() as int,
    ));
}

/// A task that nobody woke while it was polled for the first time is not ready:
/// its waker keeps it, and the first wake, and only that, takes it.
pub proof fn law_a_new_waker_keeps_a_pending_task<T>(task: T)
    ensures
        ({
            let (kept, settled) = WakerState::<T>::initial().settled(task, true);
            &&& settled is Kept
            &&& kept.task == Some(task)
            &&& kept.roused().task is None
        }),
{
}

/// A worker ends exactly where the queue is broken.
pub proof fn law_only_a_broken_queue_ends_a_worker<T>(action: AcquireAction<T>)
    ensures
        (worker_action(action) matches WorkerAction::Return(ControlFlow::Break(_))) <==> (
        action matches AcquireAction::Done(ControlFlow::Break(_))),
{
}

/// A task that has been polled and is pending, and whose waker is then woken, is
/// the last in the ready queue, once, whether a wake had come before or not.
pub proof fn law_a_woken_task_is_last_in_the_queue<T>(task: T)
    ensures
        forall|
            waker: &mut TaskWaker<T>,
            ready: &mut Queue<T>,
            after: (ControlFlow<()>, Option<T>),
            later: &mut TaskWaker<T>,
            queue: &mut Queue<T>,
            signalled: bool,
        |
            #![trigger call_ensures(TaskWaker::<T>::polled, (waker, task, true, ready), after), call_ensures(TaskWaker::<T>::wake, (later, queue), signalled)]
            call_ensures(TaskWaker::<T>::polled, (waker, task, true, ready), after) && later@
                == final(waker)@ && queue@ == final(ready)@ && call_ensures(
                TaskWaker::<T>::wake,
                (later, queue),
                signalled,
            ) ==> {
                &&& after.1 is None
                &&& final(queue)@.tasks == ready@.tasks.push(task)
                &&& signalled == !waker@.woken
                &&& final(later)@.task is None
            },
{
}

/// A task that is finished comes back, and neither its waker nor the queue keeps
/// it.
pub proof fn law_a_finished_task_comes_back<T>(task: T)
    ensures
        forall|
            waker: &mut TaskWaker<T>,
            ready: &mut Queue<T>,
            after: (ControlFlow<()>, Option<T>),
        |
            #[trigger] call_ensures(TaskWaker::<T>::polled, (waker, task, false, ready), after)
                ==> {
                &&& after.1 == Some(task)
                &&& final(ready)@ == ready@
                &&& final(waker)@ == waker@
            },
{
}

/// The thread that runs a future to completion polls the handle after every task
/// and answers with the output as soon as it has it, on any executor.
pub proof fn law_block_on_polls_then_answers<T, R>(
    executor: Executor<T>,
    input: BlockOnInput<R>,
    action: BlockOnAction<R>,
)
    requires
        call_ensures(Executor::<T>::block_on::<R>, (&executor, input), action),
    ensures
        input is RanTask || input is Spawned ==> action is PollHandle,
        input matches BlockOnInput::Polled(Poll::Ready(Ok(output))) ==> action
            == BlockOnAction::Return(output),
        input matches BlockOnInput::Polled(Poll::Pending) ==> action is RunTask,
        input is Launched ==> action is Spawn,
        input is Start ==> action is Launch,
{
}

/// A worker of an executor in which a task is ready polls the one that has been
/// ready for longest, as soon as the books are kept or its wait is over, and takes
/// no other out of the queue.
pub proof fn law_workers_poll_the_oldest_task<T>(input: WorkerInput)
    requires
        !(input is Start),
    ensures
        forall|executor: &mut Executor<T>, action: WorkerAction<T>| #[trigger]
            call_ensures(Executor::<T>::run_task, (executor, input), action)
                && executor@.tasks.len() > 0 ==> {
                &&& action == WorkerAction::Poll(executor@.tasks[0])
                &&& final(executor)@.tasks == executor@.tasks.subrange(
                    1,
                    executor@.tasks.len() as int,
                )
            },
{
    assert forall|tasks: Seq<T>| tasks.len() > 0 implies #[trigger] tasks.drop_first()
        == tasks.subrange(1, tasks.len() as int) by {
    }
}

} // verus!
