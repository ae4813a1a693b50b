//! Timers of tasks that are known by number: a queue of task numbers, each with
//! the instant at which the task is due.

use crate::reactor::timers::{sleep_over, Duration, Instant};
use crate::Poll;
use vstd::multiset::Multiset;
use vstd::prelude::*;

verus! {

/// The number of a task.
pub type TaskId = usize;

/// The entry `a` leaves the queue before `b` does: it is due earlier, or at the
/// same instant and has the greater number.
pub open spec fn leaves_before(a: (Instant, TaskId), b: (Instant, TaskId)) -> bool {
    a.0 < b.0 || (a.0 == b.0 && a.1 > b.1)
}

/// Of `entries`, `first` leaves the queue first.
pub open spec fn is_first(entries: Multiset<(Instant, TaskId)>, first: (Instant, TaskId)) -> bool {
    &&& entries.contains(first)
    &&& forall|entry: (Instant, TaskId)| #[trigger]
        entries.contains(entry) ==> !leaves_before(entry, first)
}

/// Tasks that wait for an instant. The last entry leaves first.
pub struct Queue(Vec<(Instant, TaskId)>);

impl View for Queue {
    type V = Multiset<(Instant, TaskId)>;

    closed spec fn view(&self) -> Multiset<(Instant, TaskId)> {
        self.0@.to_multiset()
    }
}

impl Queue {
    /// No entry leaves before one that stands behind it.
    pub closed spec fn wf(&self) -> bool {
        forall|i: int, j: int|
            0 <= i < j < self.0@.len() ==> !leaves_before(#[trigger] self.0@[i], #[trigger] self.0@[j])
    }

    /// Inserts a task that is due at `instant`.
    pub fn insert(&mut self, instant: Instant, task: TaskId)
        requires
            old(self).wf(),
        ensures
            final(self).wf(),
            final(self)@ == old(self)@.insert((instant, task)),
    {
        broadcast use vstd::seq_lib::group_to_multiset_ensures;

        let mut low: usize = 0;
        let mut high: usize = self.0.len();
        while low < high
            invariant
                low <= high <= self.0@.len(),
                self.wf(),
                forall|i: int| 0 <= i < low ==> leaves_before((instant, task), self.0@[i]),
                forall|i: int|
                    high <= i < self.0@.len() ==> !leaves_before((instant, task), self.0@[i]),
            decreases high - low,
        {
            let middle: usize = low + (high - low) / 2;
            let entry = self.0[middle];
            if instant < entry.0 || (instant == entry.0 && task > entry.1) {
                low = middle + 1;
            } else {
                high = middle;
            }
        }
        self.0.insert(low, (instant, task));
    }

    /// Takes the task that leaves first, if it is due by `now`.
    pub fn next(&mut self, now: Instant) -> (task: Option<TaskId>)
        requires
            old(self).wf(),
        ensures
            final(self).wf(),
            match task {
                Some(task) => exists|first: (Instant, TaskId)|
                    {
                        &&& #[trigger] is_first(old(self)@, first)
                        &&& first.0 <= now
                        &&& first.1 == task
                        &&& final(self)@ == old(self)@.remove(first)
                    },
                None => {
                    &&& final(self)@ == old(self)@
                    &&& forall|entry: (Instant, TaskId)| #[trigger]
                        old(self)@.contains(entry) ==> entry.0 > now
                },
            },
    {
        broadcast use vstd::seq_lib::group_to_multiset_ensures;

        let ghost entries = self.0@;
        match self.0.pop() {
            None => {
                assert forall|entry: (Instant, TaskId)| #[trigger]
                    entries.to_multiset().contains(entry) implies entry.0 > now by {
                    assert(entries.contains(entry));
                }
                None
            },
            Some((time, task)) => {
                assert(entries.drop_last() == entries.remove(entries.len() - 1));
                assert(is_first(entries.to_multiset(), (time, task))) by {
                    assert(entries.contains(entries[entries.len() - 1]));
                    assert forall|entry: (Instant, TaskId)| #[trigger]
                        entries.to_multiset().contains(entry) implies !leaves_before(
                        entry,
                        (time, task),
                    ) by {
                        assert(entries.contains(entry));
                        let i = entries.index_of(entry);
                        assert(!leaves_before(entries[i], entries[entries.len() - 1]) || i
                            == entries.len() - 1);
                    }
                }
                if time > now {
                    self.0.push((time, task));
                    assert(self.0@ == entries);
                    None
                } else {
                    assert(self.0@ == entries.remove(entries.len() - 1));
                    assert(is_first(old(self)@, (time, task)));
                    assert(self@ == old(self)@.remove((time, task)));
                    Some(task)
                }
            },
        }
    }
}

impl Default for Queue {
    fn default() -> (queue: Self)
        ensures
            queue.wf(),
            queue@ == Multiset::<(Instant, TaskId)>::empty(),
    {
        let entries: Vec<(Instant, TaskId)> = Vec::new();
        proof {
            vstd::seq_lib::to_multiset_len(entries@);
            assert(entries@.to_multiset() =~= Multiset::empty());
        }
        Queue(entries)
    }
}

/// A task that sleeps until an instant.
pub struct Sleep {
    instant: Instant,
}

impl View for Sleep {
    type V = Instant;

    closed spec fn view(&self) -> Instant {
        self.instant
    }
}

impl Sleep {
    /// Sleep until a specific point in time.
    pub fn until(instant: Instant) -> (sleep: Sleep)
        ensures
            sleep@ == instant,
    {
        Sleep { instant }
    }

    /// Sleep for a specific duration of time, from `now` on.
    pub fn duration(now: Instant, duration: Duration) -> (sleep: Sleep)
        requires
            now + duration <= u128::MAX,
        ensures
            sleep@ == now + duration,
    {
        Sleep::until(now + duration)
    }

    /// Whether the sleep of the task numbered `id` is over at `now`. If it is
    /// not, the task is put among the timers.
    pub fn poll(&self, now: Instant, timers: &mut Queue, id: TaskId) -> (poll: Poll<()>)
        requires
            old(timers).wf(),
        ensures
            final(timers).wf(),
            sleep_over(self@ as int, now as int) ==> {
                &&& poll == Poll::Ready(())
                &&& final(timers)@ == old(timers)@
            },
            !sleep_over(self@ as int, now as int) ==> {
                &&& poll == Poll::<()>::Pending
                &&& final(timers)@ == old(timers)@.insert((self@, id))
            },
    {
        if self.instant > now {
            timers.insert(self.instant, id);
            Poll::Pending
        } else {
            Poll::Ready(())
        }
    }
}

/// There is no choice in what leaves first.
pub proof fn law_first_is_unique(
    entries: Multiset<(Instant, TaskId)>,
    a: (Instant, TaskId),
    b: (Instant, TaskId),
)
    requires
        is_first(entries, a),
        is_first(entries, b),
    ensures
        a == b,
{
}

/// Where there are entries, one of them leaves first.
pub proof fn law_some_entry_is_first(entries: Multiset<(Instant, TaskId)>) -> (first: (
    Instant,
    TaskId,
))
    requires
        entries.len() > 0,
    ensures
        is_first(entries, first),
    decreases entries.len(),
{
    let some = entries.choose();
    let rest = entries.remove(some);
    assert(entries.contains(some));
    if rest.len() == 0 {
        assert forall|entry: (Instant, TaskId)| #[trigger] entries.contains(entry) implies entry
            == some by {
            if entry != some {
                assert(rest.contains(entry));
            }
        }
        some
    } else {
        let first = law_some_entry_is_first(rest);
        assert(entries.contains(first));
        let chosen = if leaves_before(some, first) {
            some
        } else {
            first
        };
        assert forall|entry: (Instant, TaskId)| #[trigger]
            entries.contains(entry) implies !leaves_before(entry, chosen) by {
            if entry != some {
                assert(rest.contains(entry));
            }
        }
        chosen
    }
}

/// Tasks leave in the order in which they are due.
pub proof fn law_tasks_leave_in_order(
    entries: Multiset<(Instant, TaskId)>,
    first: (Instant, TaskId),
    second: (Instant, TaskId),
)
    requires
        is_first(entries, first),
        is_first(entries.remove(first), second),
    ensures
        first.0 <= second.0,
{
    assert(entries.contains(second));
}

/// While a task that is due is queued, some task leaves: whoever asks is not told
/// that nothing is due.
pub proof fn law_due_task_lets_one_leave(
    entries: Multiset<(Instant, TaskId)>,
    entry: (Instant, TaskId),
    now: Instant,
)
    requires
        entry.0 <= now,
    ensures
        exists|first: (Instant, TaskId)| #[trigger]
            is_first(entries.insert(entry), first) && first.0 <= now,
{
    let first = law_some_entry_is_first(entries.insert(entry));
    assert(entries.insert(entry).contains(entry));
}

/// What leaves first is due no later than anything else, and among what is due at
/// the same instant it has the greatest number.
pub proof fn law_first_is_earliest_then_greatest(
    entries: Multiset<(Instant, TaskId)>,
    first: (Instant, TaskId),
    entry: (Instant, TaskId),
)
    requires
        is_first(entries, first),
        entries.contains(entry),
    ensures
        entries.contains(first),
        first.0 <= entry.0,
        first.0 == entry.0 ==> first.1 >= entry.1,
{
}

/// Being due earliest, with the greatest number, is all it takes to leave first.
pub proof fn law_earliest_then_greatest_is_first(
    entries: Multiset<(Instant, TaskId)>,
    first: (Instant, TaskId),
)
    requires
        entries.contains(first),
        forall|entry: (Instant, TaskId)| #[trigger]
            entries.contains(entry) ==> first.0 < entry.0 || (first.0 == entry.0 && first.1
                >= entry.1),
    ensures
        is_first(entries, first),
{
}

/// Asking for a task takes one entry that is due, and of those one that is due
/// first, or none where nothing is due; all others stay.
pub proof fn law_next_takes_what_is_due_first(now: Instant)
    ensures
        forall|queue: &mut Queue, task: Option<TaskId>| #[trigger]
            call_ensures(Queue::next, (queue, now), task) ==> match task {
                Some(id) => exists|instant: Instant|
                    {
                        &&& instant <= now
                        &&& queue@ == #[trigger] final(queue)@.insert((instant, id))
                        &&& forall|entry: (Instant, TaskId)| #[trigger]
                            queue@.contains(entry) ==> instant <= entry.0
                    },
                None => {
                    &&& final(queue)@ == queue@
                    &&& forall|entry: (Instant, TaskId)| #[trigger]
                        queue@.contains(entry) ==> entry.0 > now
                },
            },
{
    assert forall|queue: &mut Queue, task: Option<TaskId>| #[trigger]
        call_ensures(Queue::next, (queue, now), task) && task is Some implies exists|
        instant: Instant,
    |
        {
            &&& instant <= now
            &&& queue@ == #[trigger] final(queue)@.insert((instant, task->0))
            &&& forall|entry: (Instant, TaskId)| #[trigger]
                queue@.contains(entry) ==> instant <= entry.0
        } by {
        let first = choose|first: (Instant, TaskId)|
            {
                &&& #[trigger] is_first(queue@, first)
                &&& first.0 <= now
                &&& first.1 == task->0
                &&& final(queue)@ == queue@.remove(first)
            };
        assert(queue@ =~= final(queue)@.insert((first.0, task->0)));
    }
}

/// Once a task has been inserted, whoever asks when it is due is given a task, and
/// that very task where the queue held no other.
pub proof fn law_inserted_task_lets_one_leave(instant: Instant, id: TaskId, now: Instant)
    requires
        instant <= now,
    ensures
        forall|queue: &mut Queue, later: &mut Queue, task: Option<TaskId>|
            #![trigger call_ensures(Queue::insert, (queue, instant, id), ()), call_ensures(Queue::next, (later, now), task)]
            call_ensures(Queue::insert, (queue, instant, id), ()) && later@ == final(queue)@
                && call_ensures(Queue::next, (later, now), task) ==> {
                &&& task is Some
                &&& queue@ == Multiset::<(Instant, TaskId)>::empty() ==> task == Some(id)
            },
{
    assert forall|queue: &mut Queue, later: &mut Queue, task: Option<TaskId>|
        #![trigger call_ensures(Queue::insert, (queue, instant, id), ()), call_ensures(Queue::next, (later, now), task)]
        call_ensures(Queue::insert, (queue, instant, id), ()) && later@ == final(queue)@
            && call_ensures(Queue::next, (later, now), task) implies {
        &&& task is Some
        &&& queue@ == Multiset::<(Instant, TaskId)>::empty() ==> task == Some(id)
    } by {
        assert(later@.contains((instant, id)));
    }
}

/// A sleep is pending exactly where its instant has not come, and then, and only
/// then, the task is put among the timers.
pub proof fn law_sleeping_task_is_among_the_timers(sleep: Sleep, now: Instant, id: TaskId)
    ensures
        forall|timers: &mut Queue, poll: Poll<()>| #[trigger]
            call_ensures(Sleep::poll, (&sleep, now, timers, id), poll) ==> {
                &&& poll is Pending <==> now < sleep@
                &&& poll is Pending ==> final(timers)@ == timers@.insert((sleep@, id))
                &&& poll is Ready ==> final(timers)@ == timers@
            },
{
}

} // verus!
