//! The queue of tasks that are ready to be worked on, and the count of the
//! workers that are waiting for one.

use std::collections::VecDeque;
use vstd::prelude::*;

verus! {

/// How many workers to run where the machine does not say how much it can run
/// in parallel.
pub const FALLBACK_THREAD_COUNT: usize = 4;

/// The number of workers of a runtime, given what the machine reports about its
/// available parallelism.
pub fn get_thread_count(available: Option<usize>) -> (count: usize)
    ensures
        count == (match available {
            Some(threads) => threads,
            None => 4usize,
        }),
{
    match available {
        Some(threads) => threads,
        None => FALLBACK_THREAD_COUNT,
    }
}

/// What a ready queue holds: its tasks, the first to leave first; how many
/// workers wait for one; and the number that must not all wait at once.
#[verifier::ext_equal]
pub struct State<T> {
    pub tasks: Seq<T>,
    pub waiting: nat,
    pub max_waiting: nat,
}

impl<T> State<T> {
    /// A queue of `max_waiting` workers in which nothing has happened yet.
    pub open spec fn initial(max_waiting: nat) -> Self {
        State { tasks: Seq::empty(), waiting: 0, max_waiting }
    }

    /// Of `max_waiting` workers, one is always left that does not wait.
    pub open spec fn wf(self) -> bool {
        self.waiting == 0 || self.waiting < self.max_waiting
    }

    /// One more worker may wait without all of them doing so.
    pub open spec fn may_wait(self) -> bool {
        self.waiting + 1 < self.max_waiting
    }

    /// A worker that should wait does: there is no task for it, and another
    /// worker is left that does not wait.
    pub open spec fn must_wait(self) -> bool {
        self.tasks.len() == 0 && self.may_wait()
    }

    /// The queue once `task` has been signalled.
    pub open spec fn signalled(self, task: T) -> Self {
        State { tasks: self.tasks.push(task), ..self }
    }

    /// The task that leaves next.
    pub open spec fn front(self) -> Option<T> {
        if self.tasks.len() == 0 {
            None
        } else {
            Some(self.tasks[0])
        }
    }

    /// The queue without its front task.
    pub open spec fn popped(self) -> Self {
        if self.tasks.len() == 0 {
            self
        } else {
            State { tasks: self.tasks.drop_first(), ..self }
        }
    }

    /// The queue once one more worker has begun to wait.
    pub open spec fn wait_begun(self) -> Self {
        State { waiting: self.waiting + 1, ..self }
    }

    /// The queue once one worker has stopped waiting.
    pub open spec fn wait_over(self) -> Self {
        State { waiting: (self.waiting - 1) as nat, ..self }
    }

    /// `op` may happen here: only a worker that waits can resume.
    pub open spec fn allows(self, op: Op<T>) -> bool {
        op is Resume ==> self.waiting > 0
    }

    /// The queue once `op` has happened.
    pub open spec fn after(self, op: Op<T>) -> Self {
        match op {
            Op::Signal(task) => self.signalled(task),
            Op::Acquire { should_wait } => if should_wait && self.must_wait() {
                self.wait_begun()
            } else {
                self.popped()
            },
            Op::Resume => self.wait_over().popped(),
        }
    }

    /// The task that `op` hands to a worker, if any.
    pub open spec fn handed_by(self, op: Op<T>) -> Option<T> {
        match op {
            Op::Signal(_) => None,
            Op::Acquire { should_wait } => if should_wait && self.must_wait() {
                None
            } else {
                self.front()
            },
            Op::Resume => self.front(),
        }
    }

    /// Every operation of `ops` may happen when its turn comes.
    pub open spec fn allows_all(self, ops: Seq<Op<T>>) -> bool
        decreases ops.len(),
    {
        ops.len() > 0 ==> {
            &&& self.allows_all(ops.drop_last())
            &&& self.after_all(ops.drop_last()).allows(ops.last())
        }
    }

    /// The queue once all of `ops` have happened, one after the other.
    pub open spec fn after_all(self, ops: Seq<Op<T>>) -> Self
        decreases ops.len(),
    {
        if ops.len() == 0 {
            self
        } else {
            self.after_all(ops.drop_last()).after(ops.last())
        }
    }

    /// The tasks that `ops` hand to workers, in order.
    pub open spec fn handed_by_all(self, ops: Seq<Op<T>>) -> Seq<T>
        decreases ops.len(),
    {
        if ops.len() == 0 {
            Seq::empty()
        } else {
            let before = ops.drop_last();
            match self.after_all(before).handed_by(ops.last()) {
                Some(task) => self.handed_by_all(before).push(task),
                None => self.handed_by_all(before),
            }
        }
    }
}

/// What can happen to a ready queue.
pub enum Op<T> {
    /// [`Queue::signal`]
    Signal(T),
    /// [`Queue::acquire_task`]
    Acquire { should_wait: bool },
    /// [`Queue::resume`]
    Resume,
}

/// The tasks that `ops` signal, in order.
pub open spec fn signalled_by<T>(ops: Seq<Op<T>>) -> Seq<T>
    decreases ops.len(),
{
    if ops.len() == 0 {
        Seq::empty()
    } else {
        match ops.last() {
            Op::Signal(task) => signalled_by(ops.drop_last()).push(task),
            _ => signalled_by(ops.drop_last()),
        }
    }
}

/// What a worker that asked for a task is told.
pub enum Acquire<T> {
    /// Wait for a signal, then call [`Queue::resume`].
    Wait,
    /// The front task, or none where the queue is empty.
    Task(Option<T>),
}

/// Tasks that are ready to be worked on.
pub struct Queue<T> {
    len: usize,
    tasks: VecDeque<T>,
    waiting: usize,
    max_waiting: usize,
}

impl<T> View for Queue<T> {
    type V = State<T>;

    closed spec fn view(&self) -> State<T> {
        State {
            tasks: self.tasks@,
            waiting: self.waiting as nat,
            max_waiting: self.max_waiting as nat,
        }
    }
}

impl<T> Queue<T> {
    /// The counters agree with what the queue holds, and not every worker waits.
    pub closed spec fn wf(&self) -> bool {
        &&& self.len == self.tasks@.len()
        &&& self@.wf()
    }

    /// An empty queue, for as many workers as the machine runs in parallel.
    pub fn new(available: Option<usize>) -> (queue: Self)
        ensures
            queue.wf(),
            queue@ == State::<T>::initial(
                (match available {
                    Some(threads) => threads as nat,
                    None => 4,
                }),
            ),
    {
        Queue {
            len: 0,
            tasks: VecDeque::new(),
            waiting: 0,
            max_waiting: get_thread_count(available),
        }
    }

    /// The number of workers of this runtime.
    pub fn max_waiting(&self) -> (max_waiting: usize)
        ensures
            max_waiting == self@.max_waiting,
    {
        self.max_waiting
    }

    /// The number of workers that wait for a task.
    pub fn waiting(&self) -> (waiting: usize)
        ensures
            waiting == self@.waiting,
    {
        self.waiting
    }

    /// Signals that a task is now ready to be worked on. The caller then wakes
    /// one waiting worker.
    pub fn signal(&mut self, task: T)
        requires
            old(self).wf(),
        ensures
            final(self).wf(),
            final(self)@ == old(self)@.after(Op::Signal(task)),
    {
        self.tasks.push_back(task);
        let stored: usize = self.tasks.len();
        assert(stored == self.len + 1);
        self.len = self.len + 1;
    }

    /// Whether there is nothing to work on.
    pub fn should_wait(&self) -> (wait: bool)
        requires
            self.wf(),
        ensures
            wait == (self@.tasks.len() == 0),
    {
        self.len == 0
    }

    /// Get a single task from the queue.
    ///
    /// A worker that should wait is told to if there are no tasks available,
    /// unless every other worker already waits.
    pub fn acquire_task(&mut self, should_wait: bool) -> (acquired: Acquire<T>)
        requires
            old(self).wf(),
        ensures
            final(self).wf(),
            final(self)@ == old(self)@.after(Op::Acquire { should_wait }),
            acquired == (if should_wait && old(self)@.must_wait() {
                Acquire::Wait
            } else {
                Acquire::Task(old(self)@.front())
            }),
    {
        if should_wait && self.len == 0 {
            let waiting: usize = self.waiting;
            if waiting + 1 < self.max_waiting {
                self.waiting = waiting + 1;
                return Acquire::Wait;
            }
        }
        Acquire::Task(self.pop())
    }

    /// Get a single task from the queue, after having waited.
    pub fn resume(&mut self) -> (task: Option<T>)
        requires
            old(self).wf(),
            old(self)@.waiting > 0,
        ensures
            final(self).wf(),
            task == old(self)@.front(),
            final(self)@ == old(self)@.after(Op::Resume),
    {
        self.waiting = self.waiting - 1;
        self.pop()
    }

    fn pop(&mut self) -> (task: Option<T>)
        requires
            old(self).wf(),
        ensures
            final(self).wf(),
            task == old(self)@.front(),
            final(self)@ == old(self)@.popped(),
    {
        match self.tasks.pop_front() {
            Some(task) => {
                self.len = self.len - 1;
                Some(task)
            },
            None => None,
        }
    }
}

/// Whatever workers do to the queue, tasks leave it in the order in which they
/// were signalled, each of them once: what was handed out, then what is still
/// queued, is what was queued at first, then what was signalled since.
pub proof fn law_first_in_first_out<T>(queue: State<T>, ops: Seq<Op<T>>)
    ensures
        queue.handed_by_all(ops) + queue.after_all(ops).tasks == queue.tasks + signalled_by(ops),
    decreases ops.len(),
{
    if ops.len() > 0 {
        let before = ops.drop_last();
        let now = queue.after_all(before);
        let handed = queue.handed_by_all(before);
        law_first_in_first_out(queue, before);
        match ops.last() {
            Op::Signal(task) => {
                assert(handed + now.tasks.push(task) == (handed + now.tasks).push(task));
                assert(queue.tasks + signalled_by(before).push(task) == (queue.tasks
                    + signalled_by(before)).push(task));
            },
            _ => {
                if now.tasks.len() > 0 {
                    assert(handed.push(now.tasks[0]) + now.tasks.drop_first() == handed
                        + now.tasks);
                }
            },
        }
    }
}

/// Of at least one worker, one never waits, whatever the workers do: somebody
/// always runs the books.
pub proof fn law_one_worker_stays_awake<T>(max_waiting: nat, ops: Seq<Op<T>>)
    requires
        max_waiting > 0,
        State::<T>::initial(max_waiting).allows_all(ops),
    ensures
        State::<T>::initial(max_waiting).after_all(ops).waiting < max_waiting,
        State::<T>::initial(max_waiting).after_all(ops).max_waiting == max_waiting,
    decreases ops.len(),
{
    if ops.len() > 0 {
        law_one_worker_stays_awake::<T>(max_waiting, ops.drop_last());
    }
}

/// Waiting leaves no trace: a worker that began to wait and stopped has changed
/// neither the tasks nor the count.
pub proof fn law_wait_is_undone<T>(queue: State<T>)
    ensures
        queue.wait_begun().wait_over() == queue,
{
}

/// Asking for a task in a queue that is not empty hands out the task that was
/// signalled first, whoever asks and however many workers wait; asking in an empty
/// one hands out nothing.
pub proof fn law_a_queued_task_is_handed_out<T>(queue: State<T>, op: Op<T>)
    requires
        !(op is Signal),
    ensures
        queue.tasks.len() > 0 ==> {
            &&& queue.handed_by(op) == Some(queue.tasks[0])
            &&& queue.after(op).tasks == queue.tasks.subrange(1, queue.tasks.len() as int)
        },
        queue.tasks.len() == 0 ==> {
            &&& queue.handed_by(op) is None
            &&& queue.after(op).tasks.len() == 0
        },
        queue.front() == (if queue.tasks.len() > 0 {
            Some(queue.tasks[0])
        } else {
            None
        }),
{
    assert(queue.tasks.len() > 0 ==> queue.tasks.drop_first() =~= queue.tasks.subrange(
        1,
        queue.tasks.len() as int,
    ));
}

/// A worker begins to wait if and only if it should, nothing is queued, and
/// another worker is left that does not wait; it stops by resuming. Nothing else
/// changes how many workers wait, and nothing changes how many there are.
pub proof fn law_waiting_workers_are_counted<T>(queue: State<T>, op: Op<T>)
    requires
        queue.allows(op),
    ensures
        queue.after(op).max_waiting == queue.max_waiting,
        queue.after(op).waiting - queue.waiting == (match op {
            Op::Signal(_) => 0int,
            Op::Acquire { should_wait } => if should_wait && queue.tasks.len() == 0
                && queue.waiting + 1 < queue.max_waiting {
                1
            } else {
                0
            },
            Op::Resume => -1,
        }),
        queue.must_wait() <==> queue.tasks.len() == 0 && queue.max_waiting - queue.waiting >= 2,
{
}

/// Signals are answered one for one: from a queue in which nothing has happened,
/// as many acquisitions as there were signals hand out exactly what was signalled,
/// in order, and leave the queue empty.
pub proof fn law_signals_are_answered<T>(max_waiting: nat, tasks: Seq<T>)
    ensures
        ({
            let signals = Seq::new(tasks.len(), |i: int| Op::Signal(tasks[i]));
            let takes = Seq::new(tasks.len(), |i: int| Op::<T>::Acquire { should_wait: true });
            let start = State::<T>::initial(max_waiting);
            &&& start.handed_by_all(signals + takes) == tasks
            &&& start.after_all(signals + takes).tasks.len() == 0
            &&& start.after_all(signals + takes).waiting == 0
        }),
{
    let start = State::<T>::initial(max_waiting);
    let signals = Seq::new(tasks.len(), |i: int| Op::Signal(tasks[i]));
    let takes = Seq::new(tasks.len(), |i: int| Op::<T>::Acquire { should_wait: true });
    lemma_signals(start, tasks);
    lemma_takes(start, signals, tasks, tasks.len());
    assert(takes.take(tasks.len() as int) == takes);
}

proof fn lemma_signals<T>(start: State<T>, tasks: Seq<T>)
    requires
        start.tasks.len() == 0,
    ensures
        ({
            let signals = Seq::new(tasks.len(), |i: int| Op::Signal(tasks[i]));
            &&& start.after_all(signals).tasks == tasks
            &&& start.after_all(signals).waiting == start.waiting
            &&& start.handed_by_all(signals) == Seq::<T>::empty()
        }),
    decreases tasks.len(),
{
    let signals = Seq::new(tasks.len(), |i: int| Op::Signal(tasks[i]));
    if tasks.len() > 0 {
        let before = tasks.drop_last();
        lemma_signals(start, before);
        assert(signals.drop_last() == Seq::new(before.len(), |i: int| Op::Signal(before[i])));
        assert(before.push(tasks.last()) == tasks);
    } else {
        assert(start.tasks =~= tasks);
    }
}

proof fn lemma_takes<T>(start: State<T>, signals: Seq<Op<T>>, tasks: Seq<T>, n: nat)
    requires
        n <= tasks.len(),
        start.after_all(signals).tasks == tasks,
        start.after_all(signals).waiting == 0,
        start.handed_by_all(signals) == Seq::<T>::empty(),
    ensures
        ({
            let takes = Seq::new(n, |i: int| Op::<T>::Acquire { should_wait: true });
            &&& start.after_all(signals + takes).tasks == tasks.skip(n as int)
            &&& start.after_all(signals + takes).waiting == 0
            &&& start.handed_by_all(signals + takes) == tasks.take(n as int)
        }),
    decreases n,
{
    let takes = Seq::new(n, |i: int| Op::<T>::Acquire { should_wait: true });
    let ops = signals + takes;
    if n == 0 {
        assert(ops == signals);
        assert(tasks.skip(0) == tasks);
        assert(tasks.take(0) == Seq::<T>::empty());
    } else {
        let fewer = Seq::new((n - 1) as nat, |i: int| Op::<T>::Acquire { should_wait: true });
        lemma_takes(start, signals, tasks, (n - 1) as nat);
        assert(ops.drop_last() == signals + fewer);
        assert(tasks.skip(n - 1).drop_first() == tasks.skip(n as int));
        assert(tasks.take(n - 1).push(tasks[n - 1]) == tasks.take(n as int));
    }
}

/// A worker is told to wait only where the queue is empty: else it is given the
/// task that was signalled first, whether it asks or resumes.
pub proof fn law_a_worker_is_given_the_first_task<T>(should_wait: bool)
    ensures
        forall|queue: &mut Queue<T>, acquired: Acquire<T>| #[trigger]
            call_ensures(Queue::<T>::acquire_task, (queue, should_wait), acquired)
                && queue@.tasks.len() > 0 ==> {
                &&& acquired == Acquire::Task(Some(queue@.tasks[0]))
                &&& final(queue)@.tasks == queue@.tasks.subrange(1, queue@.tasks.len() as int)
                &&& final(queue)@.waiting == queue@.waiting
            },
        forall|queue: &mut Queue<T>, task: Option<T>| #[trigger]
            call_ensures(Queue::<T>::resume, (queue,), task) && queue@.tasks.len() > 0 ==> {
                &&& task == Some(queue@.tasks[0])
                &&& final(queue)@.tasks == queue@.tasks.subrange(1, queue@.tasks.len() as int)
            },
        forall|queue: &mut Queue<T>, acquired: Acquire<T>| #[trigger]
            call_ensures(Queue::<T>::acquire_task, (queue, should_wait), acquired)
                && queue@.tasks.len() == 0 ==> {
                &&& acquired is Wait <==> should_wait && queue@.max_waiting - queue@.waiting >= 2
                &&& acquired is Wait || acquired == Acquire::<T>::Task(None)
                &&& final(queue)@.tasks.len() == 0
            },
{
    assert forall|tasks: Seq<T>| tasks.len() > 0 implies #[trigger] tasks.drop_first()
        == tasks.subrange(1, tasks.len() as int) by {
    }
}

/// A task that is signalled to an empty queue is given to the next worker that
/// asks, whether or not that one would wait.
pub proof fn law_a_signalled_task_is_given_to_a_worker<T>(task: T, should_wait: bool)
    ensures
        forall|queue: &mut Queue<T>, later: &mut Queue<T>, acquired: Acquire<T>|
            #![trigger call_ensures(Queue::<T>::signal, (queue, task), ()), call_ensures(Queue::<T>::acquire_task, (later, should_wait), acquired)]
            call_ensures(Queue::<T>::signal, (queue, task), ()) && later@ == final(queue)@
                && call_ensures(Queue::<T>::acquire_task, (later, should_wait), acquired)
                && queue@.tasks.len() == 0 ==> {
                &&& acquired == Acquire::Task(Some(task))
                &&& final(later)@.tasks.len() == 0
            },
{
}

} // verus!
