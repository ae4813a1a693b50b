//! Timers: a queue of wakers, each with the instant at which it is due, and the
//! sleeping that puts wakers there.

use crate::Poll;
use std::cmp::Ordering;
use vstd::prelude::*;

verus! {

/// A point in time, in nanoseconds since an origin that the whole program
/// shares.
pub type Instant = u128;

/// A span of time, in nanoseconds.
pub type Duration = u128;

/// An entry of the timer queue: what to wake, and when. Entries are compared by
/// their instants only, and the earlier instant is the greater entry.
pub struct PriorityQueueEntry<I>(pub I, pub Instant);

impl<I> vstd::std_specs::cmp::PartialEqSpecImpl for PriorityQueueEntry<I> {
    open spec fn obeys_eq_spec() -> bool {
        true
    }

    open spec fn eq_spec(&self, other: &Self) -> bool {
        self.1 == other.1
    }
}

impl<I> PartialEq for PriorityQueueEntry<I> {
    fn eq(&self, other: &Self) -> (equal: bool) {
        self.1 == other.1
    }
}

impl<I> Eq for PriorityQueueEntry<I> {

}

impl<I> vstd::std_specs::cmp::PartialOrdSpecImpl for PriorityQueueEntry<I> {
    open spec fn obeys_partial_cmp_spec() -> bool {
        true
    }

    open spec fn partial_cmp_spec(&self, other: &Self) -> Option<Ordering> {
        if other.1 < self.1 {
            Some(Ordering::Less)
        } else if other.1 > self.1 {
            Some(Ordering::Greater)
        } else {
            Some(Ordering::Equal)
        }
    }
}

impl<I> PartialOrd for PriorityQueueEntry<I> {
    fn partial_cmp(&self, other: &Self) -> (ordering: Option<Ordering>) {
        if other.1 < self.1 {
            Some(Ordering::Less)
        } else if other.1 > self.1 {
            Some(Ordering::Greater)
        } else {
            Some(Ordering::Equal)
        }
    }
}

/// No entry is due before one that stands behind it.
pub open spec fn latest_first<W>(entries: Seq<PriorityQueueEntry<W>>) -> bool {
    forall|i: int, j: int| 0 <= i <= j < entries.len() ==> entries[i].1 >= entries[j].1
}

/// The entries that are due after `instant`, in order.
pub open spec fn due_after<W>(
    entries: Seq<PriorityQueueEntry<W>>,
    instant: Instant,
) -> Seq<PriorityQueueEntry<W>> {
    entries.filter(|entry: PriorityQueueEntry<W>| entry.1 > instant)
}

/// The entries that are due at `instant` or before, in order.
pub open spec fn due_by<W>(
    entries: Seq<PriorityQueueEntry<W>>,
    instant: Instant,
) -> Seq<PriorityQueueEntry<W>> {
    entries.filter(|entry: PriorityQueueEntry<W>| entry.1 <= instant)
}

/// The entries with one more, which stands before all that are due when it is.
pub open spec fn inserted<W>(
    entries: Seq<PriorityQueueEntry<W>>,
    entry: PriorityQueueEntry<W>,
) -> Seq<PriorityQueueEntry<W>> {
    due_after(entries, entry.1).push(entry) + due_by(entries, entry.1)
}

/// The wakers of the entries, from the last to the first: the order in which
/// they are woken.
pub open spec fn wakers<W>(entries: Seq<PriorityQueueEntry<W>>) -> Seq<W> {
    entries.reverse().map_values(|entry: PriorityQueueEntry<W>| entry.0)
}

/// Wakers, in the order in which they are due: the last entry is due first.
pub struct Queue<W>(Vec<PriorityQueueEntry<W>>);

impl<W> View for Queue<W> {
    type V = Seq<PriorityQueueEntry<W>>;

    closed spec fn view(&self) -> Seq<PriorityQueueEntry<W>> {
        self.0@
    }
}

impl<W> Queue<W> {
    /// The entries are in order.
    pub open spec fn wf(&self) -> bool {
        latest_first(self@)
    }

    /// Inserts a waker that is due at `instant`. Of wakers that are due at the
    /// same instant, the one inserted first is woken first.
    pub fn insert(&mut self, instant: Instant, task: W)
        requires
            old(self).wf(),
        ensures
            final(self).wf(),
            final(self)@ == inserted(old(self)@, PriorityQueueEntry(task, instant)),
    {
        let entry = PriorityQueueEntry(task, instant);
        let index: usize = self.search(&entry);
        proof {
            lemma_split(self@, instant, index as int);
            assert(self@.insert(index as int, entry) == self@.take(index as int).push(entry)
                + self@.skip(index as int));
        }
        self.0.insert(index, entry);
    }

    /// The first index at which an entry does not compare less than `entry`.
    fn search(&self, entry: &PriorityQueueEntry<W>) -> (index: usize)
        requires
            self.wf(),
        ensures
            index <= self@.len(),
            forall|i: int| 0 <= i < index ==> self@[i].1 > entry.1,
            forall|i: int| index <= i < self@.len() ==> self@[i].1 <= entry.1,
    {
        let mut low: usize = 0;
        let mut high: usize = self.0.len();
        while low < high
            invariant
                low <= high <= self@.len(),
                self.wf(),
                forall|i: int| 0 <= i < low ==> self@[i].1 > entry.1,
                forall|i: int| high <= i < self@.len() ==> self@[i].1 <= entry.1,
            decreases high - low,
        {
            let middle: usize = low + (high - low) / 2;
            if self.0[middle] < *entry {
                low = middle + 1;
            } else {
                high = middle;
            }
        }
        low
    }

    /// Takes the waker that is due first, if it is due by `now`.
    pub fn next(&mut self, now: Instant) -> (task: Option<W>)
        requires
            old(self).wf(),
        ensures
            final(self).wf(),
            old(self)@.len() > 0 && old(self)@.last().1 <= now ==> {
                &&& task == Some(old(self)@.last().0)
                &&& final(self)@ == old(self)@.drop_last()
            },
            !(old(self)@.len() > 0 && old(self)@.last().1 <= now) ==> {
                &&& task is None
                &&& final(self)@ == old(self)@
            },
    {
        match self.0.pop() {
            None => None,
            Some(PriorityQueueEntry(task, time)) => {
                if time > now {
                    self.0.push(PriorityQueueEntry(task, time));
                    assert(self@ == old(self)@);
                    None
                } else {
                    Some(task)
                }
            },
        }
    }
}

impl<W> Default for Queue<W> {
    fn default() -> (queue: Self)
        ensures
            queue.wf(),
            queue@ == Seq::<PriorityQueueEntry<W>>::empty(),
    {
        Queue(Vec::new())
    }
}

/// Future for sleeping fixed amounts of time.
pub struct Sleep {
    instant: Instant,
}

impl View for Sleep {
    type V = Instant;

    closed spec fn view(&self) -> Instant {
        self.instant
    }
}

/// A sleep until `instant` is over at `now`.
pub open spec fn sleep_over(instant: int, now: int) -> bool {
    instant <= now
}

impl Sleep {
    /// Sleep until a specific point in time.
    pub fn until(instant: Instant) -> (sleep: Sleep)
        ensures
            sleep@ == instant,
    {
        Sleep { instant }
    }

    /// Sleep for a specific duration of time, from `now` on.
    pub fn duration(now: Instant, duration: Duration) -> (sleep: Sleep)
        requires
            now + duration <= u128::MAX,
        ensures
            sleep@ == now + duration,
    {
        Sleep::until(now + duration)
    }

    /// Whether the sleep is over at `now`.
    pub fn is_over(&self, now: Instant) -> (over: bool)
        ensures
            over == sleep_over(self@ as int, now as int),
    {
        self.instant <= now
    }

    /// Whether the sleep is over at `now`. If it is not, `waker` is put among
    /// the timers, to be woken when it is.
    pub fn poll<W>(&self, now: Instant, timers: &mut Queue<W>, waker: W) -> (poll: Poll<()>)
        requires
            old(timers).wf(),
        ensures
            final(timers).wf(),
            sleep_over(self@ as int, now as int) ==> {
                &&& poll == Poll::Ready(())
                &&& final(timers)@ == old(timers)@
            },
            !sleep_over(self@ as int, now as int) ==> {
                &&& poll == Poll::<()>::Pending
                &&& final(timers)@ == inserted(old(timers)@, PriorityQueueEntry(waker, self@))
            },
    {
        // if the future is not yet ready
        if self.instant > now {
            timers.insert(self.instant, waker);
            Poll::Pending
        } else {
            Poll::Ready(())
        }
    }
}

/// A sleep of a given duration is over once that much time has passed, and not
/// before.
pub proof fn law_sleep_lasts_its_duration(start: Instant, duration: Duration, now: Instant)
    ensures
        sleep_over(start + duration, now as int) <==> now - start >= duration,
{
}

/// A waker is woken at `now` if and only if it is due: not early, and by the
/// first book-keeping that comes once it is due. Until then it stays queued.
pub proof fn law_waker_is_woken_when_due<W>(
    entries: Seq<PriorityQueueEntry<W>>,
    entry: PriorityQueueEntry<W>,
    now: Instant,
)
    ensures
        entry.1 <= now ==> due_by(inserted(entries, entry), now).contains(entry),
        entry.1 <= now ==> wakers(due_by(inserted(entries, entry), now)).contains(entry.0),
        entry.1 > now ==> !due_by(inserted(entries, entry), now).contains(entry),
        entry.1 > now ==> due_after(inserted(entries, entry), now).contains(entry),
{
    let after = inserted(entries, entry);
    let index = due_after(entries, entry.1).len() as int;
    assert(after[index] == entry);
    broadcast use vstd::seq_lib::group_filter_ensures;

    if entry.1 <= now {
        let due = due_by(after, now);
        assert(due.contains(after[index]));
        let i = due.index_of(entry);
        assert(wakers(due)[due.len() - 1 - i] == entry.0);
    }
}

/// Every entry either is due by `now` or stays queued, and none does both.
pub proof fn law_timers_are_woken_or_kept<W>(entries: Seq<PriorityQueueEntry<W>>, now: Instant)
    requires
        latest_first(entries),
    ensures
        due_after(entries, now) + due_by(entries, now) == entries,
{
    let index = lemma_boundary(entries, now);
    lemma_split(entries, now, index);
}

/// When the books are kept does not matter, only that they are: keeping them at
/// one instant and again at a later one wakes what keeping them at the later one
/// alone would have woken, each waker once and in the same order.
pub proof fn law_book_keeping_can_be_split<W>(
    entries: Seq<PriorityQueueEntry<W>>,
    earlier: Instant,
    later: Instant,
)
    requires
        latest_first(entries),
        earlier <= later,
    ensures
        wakers(due_by(entries, later)) == wakers(due_by(entries, earlier)) + wakers(
            due_by(due_after(entries, earlier), later),
        ),
        due_after(due_after(entries, earlier), later) == due_after(entries, later),
{
    let waiting = lemma_boundary(entries, earlier);
    let index = lemma_boundary(entries, later);
    assert(index <= waiting) by {
        if waiting < index {
            assert(entries[waiting].1 <= earlier);
            assert(entries[waiting].1 > later);
        }
    }
    lemma_split(entries, earlier, waiting);
    lemma_split(entries, later, index);
    let rest = entries.take(waiting);
    lemma_split(rest, later, index);
    assert(rest.take(index) == entries.take(index));
    assert(wakers(entries.skip(index)) =~= wakers(entries.skip(waiting)) + wakers(
        rest.skip(index),
    ));
}

/// Wakers are woken in the order in which they are due.
pub proof fn law_wakers_are_woken_in_order<W>(
    entries: Seq<PriorityQueueEntry<W>>,
    now: Instant,
    i: int,
    j: int,
)
    requires
        latest_first(entries),
        0 <= i <= j < due_by(entries, now).len(),
    ensures
        due_by(entries, now).reverse()[i].1 <= due_by(entries, now).reverse()[j].1,
        wakers(due_by(entries, now))[i] == due_by(entries, now).reverse()[i].0,
{
    let index = lemma_boundary(entries, now);
    lemma_split(entries, now, index);
}

/// A new waker is woken after all that are due when it is or before, and before
/// all that are due later.
pub proof fn law_equal_instants_keep_their_order<W>(
    entries: Seq<PriorityQueueEntry<W>>,
    entry: PriorityQueueEntry<W>,
)
    ensures
        wakers(inserted(entries, entry)) == wakers(due_by(entries, entry.1)).push(entry.0)
            + wakers(due_after(entries, entry.1)),
{
    assert(wakers(inserted(entries, entry)) =~= wakers(due_by(entries, entry.1)).push(entry.0)
        + wakers(due_after(entries, entry.1)));
}

/// Where the entries that are due by `now` begin.
proof fn lemma_boundary<W>(entries: Seq<PriorityQueueEntry<W>>, now: Instant) -> (index: int)
    requires
        latest_first(entries),
    ensures
        0 <= index <= entries.len(),
        forall|i: int| 0 <= i < index ==> entries[i].1 > now,
        forall|i: int| index <= i < entries.len() ==> entries[i].1 <= now,
    decreases entries.len(),
{
    if entries.len() == 0 || entries.last().1 > now {
        assert forall|i: int| 0 <= i < entries.len() implies entries[i].1 > now by {
            assert(entries[i].1 >= entries[entries.len() - 1].1);
        }
        entries.len() as int
    } else {
        let front = entries.drop_last();
        let index = lemma_boundary(front, now);
        assert forall|i: int| index <= i < entries.len() implies entries[i].1 <= now by {
            if i < front.len() {
                assert(front[i].1 <= now);
            }
        }
        assert forall|i: int| 0 <= i < index implies entries[i].1 > now by {
            assert(front[i].1 > now);
        }
        index
    }
}

/// Entries in order that are due after an instant come first, and the others
/// behind them.
pub(crate) proof fn lemma_split<W>(entries: Seq<PriorityQueueEntry<W>>, instant: Instant, index: int)
    requires
        0 <= index <= entries.len(),
        forall|i: int| 0 <= i < index ==> entries[i].1 > instant,
        forall|i: int| index <= i < entries.len() ==> entries[i].1 <= instant,
    ensures
        due_after(entries, instant) == entries.take(index),
        due_by(entries, instant) == entries.skip(index),
    decreases entries.len(),
{
    reveal(Seq::filter);
    if entries.len() > 0 {
        let front = entries.drop_last();
        if index == entries.len() {
            lemma_split(front, instant, index - 1);
            assert(entries.take(index) == front.take(index - 1).push(entries.last()));
            assert(entries.skip(index) == front.skip(index - 1));
        } else {
            lemma_split(front, instant, index);
            assert(entries.take(index) == front.take(index));
            assert(entries.skip(index) == front.skip(index).push(entries.last()));
        }
    } else {
        assert(entries.take(index) == entries);
        assert(entries.skip(index) == entries);
    }
}

/// Inserting a waker adds that one entry and changes no other.
pub proof fn law_insert_adds_one_entry<W>(
    entries: Seq<PriorityQueueEntry<W>>,
    entry: PriorityQueueEntry<W>,
)
    ensures
        inserted(entries, entry).to_multiset() == entries.to_multiset().insert(entry),
        inserted(entries, entry).len() == entries.len() + 1,
{
    broadcast use vstd::seq_lib::group_to_multiset_ensures;

    let later = due_after(entries, entry.1);
    let earlier = due_by(entries, entry.1);
    lemma_parts(entries, entry.1);
    vstd::seq_lib::lemma_multiset_commutative(later.push(entry), earlier);
    vstd::seq_lib::lemma_multiset_commutative(later, earlier);
    assert(inserted(entries, entry).to_multiset() =~= entries.to_multiset().insert(entry));
}

/// What is due after an instant and what is due by it are all entries, each once.
proof fn lemma_parts<W>(entries: Seq<PriorityQueueEntry<W>>, instant: Instant)
    ensures
        due_after(entries, instant).to_multiset().add(due_by(entries, instant).to_multiset())
            == entries.to_multiset(),
        due_after(entries, instant).len() + due_by(entries, instant).len() == entries.len(),
    decreases entries.len(),
{
    broadcast use vstd::seq_lib::group_to_multiset_ensures;

    reveal(Seq::filter);
    if entries.len() > 0 {
        let front = entries.drop_last();
        lemma_parts(front, instant);
        assert(front.push(entries.last()) == entries);
        assert(due_after(entries, instant).to_multiset().add(
            due_by(entries, instant).to_multiset(),
        ) =~= entries.to_multiset());
    } else {
        assert(due_after(entries, instant) == entries);
        assert(due_by(entries, instant) == entries);
        assert(entries.to_multiset().add(entries.to_multiset()) =~= entries.to_multiset());
    }
}

/// A waker that is queued is woken at its own instant whatever is inserted after
/// it, and not before.
pub proof fn law_later_inserts_do_not_disturb<W>(
    entries: Seq<PriorityQueueEntry<W>>,
    queued: PriorityQueueEntry<W>,
    entry: PriorityQueueEntry<W>,
    now: Instant,
)
    requires
        entries.contains(queued),
    ensures
        inserted(entries, entry).contains(queued),
        queued.1 <= now ==> due_by(inserted(entries, entry), now).contains(queued),
        queued.1 > now ==> due_after(inserted(entries, entry), now).contains(queued),
        latest_first(entries) ==> latest_first(inserted(entries, entry)),
{
    broadcast use vstd::seq_lib::group_to_multiset_ensures;

    law_insert_adds_one_entry(entries, entry);
    let after = inserted(entries, entry);
    assert(entries.to_multiset().count(queued) > 0);
    assert(after.to_multiset().count(queued) > 0);
    let i = after.index_of(queued);
    if queued.1 <= now {
        after.lemma_filter_contains(|e: PriorityQueueEntry<W>| e.1 <= now, i);
    } else {
        after.lemma_filter_contains(|e: PriorityQueueEntry<W>| e.1 > now, i);
    }
    if latest_first(entries) {
        let index = lemma_boundary(entries, entry.1);
        lemma_split(entries, entry.1, index);
    }
}

/// Keeping the books at `now` wakes every waker that is due and no other, each as
/// often as it is queued, and keeps all the rest.
pub proof fn law_books_wake_exactly_what_is_due<W>(
    entries: Seq<PriorityQueueEntry<W>>,
    now: Instant,
)
    ensures
        due_by(entries, now).to_multiset().add(due_after(entries, now).to_multiset())
            == entries.to_multiset(),
        due_by(entries, now).len() + due_after(entries, now).len() == entries.len(),
        forall|i: int|
            0 <= i < due_by(entries, now).len() ==> (#[trigger] due_by(entries, now)[i]).1 <= now,
        forall|i: int|
            0 <= i < due_after(entries, now).len() ==> (#[trigger] due_after(entries, now)[i]).1
                > now,
        wakers(due_by(entries, now)).len() == due_by(entries, now).len(),
        forall|i: int|
            0 <= i < due_by(entries, now).len() ==> #[trigger] wakers(due_by(entries, now))[i]
                == due_by(entries, now)[due_by(entries, now).len() - 1 - i].0,
{
    broadcast use vstd::seq_lib::group_filter_ensures;

    lemma_parts(entries, now);
    assert(due_by(entries, now).to_multiset().add(due_after(entries, now).to_multiset())
        =~= entries.to_multiset());
}

/// Inserting moves no entry past another: the new one is put between those that
/// are due after it and those that are due when it is or before.
pub proof fn law_insert_moves_nothing<W>(
    entries: Seq<PriorityQueueEntry<W>>,
    entry: PriorityQueueEntry<W>,
) -> (index: int)
    requires
        latest_first(entries),
    ensures
        0 <= index <= entries.len(),
        forall|i: int| 0 <= i < index ==> entries[i].1 > entry.1,
        forall|i: int| index <= i < entries.len() ==> entries[i].1 <= entry.1,
        inserted(entries, entry) == entries.insert(index, entry),
{
    let index = lemma_boundary(entries, entry.1);
    lemma_split(entries, entry.1, index);
    assert(entries.insert(index, entry) =~= entries.take(index).push(entry) + entries.skip(index));
    index
}

/// Entries are ordered by their instants alone, backwards: the one that is due
/// earlier is the greater, and two are equal where they are due at once.
pub proof fn law_earlier_entries_are_greater<W>(
    a: PriorityQueueEntry<W>,
    b: PriorityQueueEntry<W>,
)
    ensures
        vstd::std_specs::cmp::PartialEqSpec::eq_spec(&a, &b) <==> a.1 == b.1,
        vstd::std_specs::cmp::PartialOrdSpec::partial_cmp_spec(&a, &b) == Some(Ordering::Less)
            <==> a.1 > b.1,
        vstd::std_specs::cmp::PartialOrdSpec::partial_cmp_spec(&a, &b) == Some(Ordering::Equal)
            <==> a.1 == b.1,
        vstd::std_specs::cmp::PartialOrdSpec::partial_cmp_spec(&a, &b) == Some(Ordering::Greater)
            <==> a.1 < b.1,
{
}

/// A sleep is pending exactly where its instant has not come, and then, and only
/// then, one waker is added to the timers, to be woken at that instant.
pub proof fn law_sleeping_waker_is_among_the_timers<W>(sleep: Sleep, now: Instant, waker: W)
    ensures
        forall|timers: &mut Queue<W>, poll: Poll<()>| #[trigger]
            call_ensures(Sleep::poll::<W>, (&sleep, now, timers, waker), poll) ==> {
                &&& poll is Pending <==> now < sleep@
                &&& poll is Pending ==> final(timers)@.to_multiset()
                    == timers@.to_multiset().insert(PriorityQueueEntry(waker, sleep@))
                &&& poll is Ready ==> final(timers)@ == timers@
            },
{
    assert forall|timers: &mut Queue<W>, poll: Poll<()>| #[trigger]
        call_ensures(Sleep::poll::<W>, (&sleep, now, timers, waker), poll)
            && poll is Pending implies final(timers)@.to_multiset()
        == timers@.to_multiset().insert(PriorityQueueEntry(waker, sleep@)) by {
        law_insert_adds_one_entry(timers@, PriorityQueueEntry(waker, sleep@));
    }
}

/// The queue holds what it held before, each waker with its own instant, and the
/// one that was inserted.
pub proof fn law_queue_gains_what_is_inserted<W>(instant: Instant, task: W)
    ensures
        forall|queue: &mut Queue<W>| #[trigger]
            call_ensures(Queue::<W>::insert, (queue, instant, task), ()) ==> {
                &&& final(queue)@.to_multiset() == queue@.to_multiset().insert(
                    PriorityQueueEntry(task, instant),
                )
                &&& final(queue).wf()
            },
{
    assert forall|queue: &mut Queue<W>| #[trigger]
        call_ensures(Queue::<W>::insert, (queue, instant, task), ()) implies final(
        queue)@.to_multiset() == queue@.to_multiset().insert(PriorityQueueEntry(task, instant)) by {
        law_insert_adds_one_entry(queue@, PriorityQueueEntry(task, instant));
    }
}

} // verus!
