//! Blocking primitives as state machines. A task that cannot go on parks a
//! waiter, a flag that is raised once, on a FIFO list; it yields until the
//! flag is up and then tries again.

use std::collections::VecDeque;
use vstd::prelude::*;
use crate::task::laws::{lemma_drop_first_contains, lemma_push_contains};

verus! {

/// A waiter list as mathematics: the flag of every waiter ever parked, by
/// its id, and the ids that still wait, the oldest first.
pub struct WaitListView {
    pub flags: Seq<bool>,
    pub queue: Seq<usize>,
}

impl WaitListView {
    /// No id waits twice, and the flag of every id that waits is down.
    pub open spec fn wf(self) -> bool {
        &&& self.flags.len() <= usize::MAX
        &&& self.queue.no_duplicates()
        &&& forall|i: int|
            0 <= i < self.queue.len() ==> (#[trigger] self.queue[i]) < self.flags.len()
                && !self.flags[self.queue[i] as int]
    }

    /// Whether the flag of waiter `id` is up.
    pub open spec fn woken(self, id: usize) -> bool {
        id < self.flags.len() && self.flags[id as int]
    }

    pub open spec fn empty() -> WaitListView {
        WaitListView { flags: Seq::empty(), queue: Seq::empty() }
    }

    /// A new waiter parked at the back; its id is the number of waiters before it.
    pub open spec fn parked(self) -> WaitListView {
        WaitListView {
            flags: self.flags.push(false),
            queue: self.queue.push(self.flags.len() as usize),
        }
    }

    /// The oldest waiter woken and taken off the list; nothing if none waits.
    pub open spec fn woken_one(self) -> WaitListView {
        if self.queue.len() == 0 {
            self
        } else {
            WaitListView {
                flags: self.flags.update(self.queue[0] as int, true),
                queue: self.queue.drop_first(),
            }
        }
    }

    /// The list after `n` times waking the oldest waiter.
    pub open spec fn woken_n(self, n: nat) -> WaitListView
        decreases n,
    {
        if n == 0 {
            self
        } else {
            self.woken_n((n - 1) as nat).woken_one()
        }
    }

    /// Every waiter woken and taken off the list.
    pub open spec fn woken_all(self) -> WaitListView {
        self.woken_n(self.queue.len())
    }
}

/// A FIFO list of waiters.
pub struct WaitList {
    flags: Vec<bool>,
    queue: VecDeque<usize>,
}

impl View for WaitList {
    type V = WaitListView;

    closed spec fn view(&self) -> WaitListView {
        WaitListView { flags: self.flags@, queue: self.queue@ }
    }
}

impl WaitList {
    pub open spec fn wf(&self) -> bool {
        self@.wf()
    }

    pub fn new() -> (r: Self)
        ensures
            r@ == WaitListView::empty(),
            r.wf(),
    {
        WaitList { flags: Vec::new(), queue: VecDeque::new() }
    }

    /// Parks a new waiter at the back of the list; the answer is its id.
    pub fn park(&mut self) -> (id: usize)
        requires
            old(self).wf(),
        ensures
            final(self).wf(),
            final(self)@ == old(self)@.parked(),
            id == old(self)@.flags.len(),
    {
        let id = self.flags.len();
        self.flags.push(false);
        let pushed = self.flags.len();
        proof {
            assert(old(self)@.flags.len() < usize::MAX);
            lemma_parked_wf(old(self)@);
        }
        self.queue.push_back(id);
        id
    }

    /// Wakes the oldest waiter, if any, and says which it was.
    pub fn wake_one(&mut self) -> (r: Option<usize>)
        requires
            old(self).wf(),
        ensures
            final(self).wf(),
            final(self)@ == old(self)@.woken_one(),
            r == (if old(self)@.queue.len() > 0 {
                Some(old(self)@.queue[0])
            } else {
                None
            }),
    {
        proof {
            lemma_woken_one_wf(self@);
        }
        match self.queue.pop_front() {
            Some(id) => {
                self.flags[id] = true;
                Some(id)
            },
            None => None,
        }
    }

    /// Wakes every waiter; the answer is how many there were.
    pub fn wake_all(&mut self) -> (count: usize)
        requires
            old(self).wf(),
        ensures
            final(self).wf(),
            final(self)@ == old(self)@.woken_all(),
            final(self)@.queue.len() == 0,
            count == old(self)@.queue.len(),
    {
        let total = self.queue.len();
        let mut count: usize = 0;
        while self.queue.len() > 0
            invariant
                self.wf(),
                old(self).wf(),
                total == old(self)@.queue.len(),
                count + self.queue@.len() == total,
                self@ == old(self)@.woken_n(count as nat),
            decreases self.queue@.len(),
        {
            let _ = self.wake_one();
            count = count + 1;
        }
        count
    }

    /// Whether the flag of waiter `id` is up.
    pub fn is_woken(&self, id: usize) -> (r: bool)
        ensures
            r == self@.woken(id),
    {
        id < self.flags.len() && self.flags[id]
    }

    /// The number of waiters on the list.
    pub fn waiting(&self) -> (r: usize)
        ensures
            r == self@.queue.len(),
    {
        self.queue.len()
    }
}

pub proof fn lemma_parked_wf(v: WaitListView)
    requires
        v.wf(),
        v.flags.len() < usize::MAX,
    ensures
        v.parked().wf(),
        !v.parked().woken(v.flags.len() as usize),
        forall|id: usize| id < v.flags.len() ==> v.parked().woken(id) == v.woken(id),
{
    let id = v.flags.len() as usize;
    if v.queue.contains(id) {
        let i = choose|i: int| 0 <= i < v.queue.len() && v.queue[i] == id;
        assert(v.queue[i] < v.flags.len());
    }
    lemma_push_contains(v.queue, id);
}

pub proof fn lemma_woken_one_wf(v: WaitListView)
    requires
        v.wf(),
    ensures
        v.woken_one().wf(),
{
    if v.queue.len() > 0 {
        lemma_drop_first_contains(v.queue);
        let w = v.woken_one();
        assert forall|i: int| 0 <= i < w.queue.len() implies (#[trigger] w.queue[i])
            < w.flags.len() && !w.flags[w.queue[i] as int] by {
            assert(w.queue[i] == v.queue[i + 1]);
            assert(w.queue.contains(w.queue[i]));
        }
    }
}

/// Waking is first in, first out: the waiter at place `k` of the list
/// sleeps through the first `k` wake-ups and is woken by the next one.
/// Each wake-up raises one flag and takes one waiter off the list.
pub proof fn lemma_fifo(v: WaitListView, k: nat)
    requires
        v.wf(),
        k < v.queue.len(),
    ensures
        v.woken_n(k).wf(),
        v.woken_n(k).queue == v.queue.skip(k as int),
        !v.woken_n(k).woken(v.queue[k as int]),
        v.woken_n(k + 1).woken(v.queue[k as int]),
        forall|id: usize|
            #![trigger v.woken_n(k).woken(id)]
            v.woken_n(k).woken(id) <==> (v.woken(id) || exists|i: int|
                0 <= i < k && v.queue[i] == id),
    decreases k,
{
    if k == 0 {
        assert(v.queue.skip(0) =~= v.queue);
    } else {
        lemma_fifo(v, (k - 1) as nat);
        let u = v.woken_n((k - 1) as nat);
        let w = v.woken_n(k);
        lemma_woken_one_wf(u);
        assert(u.queue[0] == v.queue[k - 1]);
        assert(w.queue =~= v.queue.skip(k as int));
        assert forall|id: usize|
            #![trigger w.woken(id)]
            w.woken(id) <==> (v.woken(id) || exists|i: int| 0 <= i < k && v.queue[i] == id) by {
            assert(u.woken(id) <==> (v.woken(id) || exists|i: int|
                0 <= i < k - 1 && v.queue[i] == id));
            if id == v.queue[k - 1] {
                assert(w.woken(id));
            }
        }
        assert(!w.woken(v.queue[k as int])) by {
            if exists|i: int| 0 <= i < k && v.queue[i] == v.queue[k as int] {
                let i = choose|i: int| 0 <= i < k && v.queue[i] == v.queue[k as int];
                assert(v.queue[i] != v.queue[k as int]);
            }
        }
    }
    let w = v.woken_n(k);
    assert(w.queue[0] == v.queue[k as int]);
    assert(v.woken_n(k + 1) == w.woken_one());
}

/// What `acquire` answers.
#[derive(Debug, Clone, Copy, PartialEq, Eq, Structural)]
pub enum Acquire {
    /// The caller holds what it asked for.
    Acquired,
    /// The caller has to wait: it yields until the waiter with this id is
    /// woken, and then asks again.
    Parked(usize),
}

/// A counting semaphore as mathematics.
pub struct SemaphoreView {
    pub count: usize,
    pub waiters: WaitListView,
}

impl SemaphoreView {
    /// The semaphore after `acquire`: a positive count goes down by one;
    /// at zero the caller parks.
    pub open spec fn acquired(self) -> SemaphoreView {
        if self.count > 0 {
            SemaphoreView { count: (self.count - 1) as usize, ..self }
        } else {
            SemaphoreView { waiters: self.waiters.parked(), ..self }
        }
    }

    /// The semaphore after `release`: the count goes up by one and the
    /// oldest waiter is woken.
    pub open spec fn released(self) -> SemaphoreView {
        SemaphoreView { count: (self.count + 1) as usize, waiters: self.waiters.woken_one() }
    }
}

/// A counting semaphore.
pub struct Semaphore {
    count: usize,
    waiters: WaitList,
}

impl View for Semaphore {
    type V = SemaphoreView;

    closed spec fn view(&self) -> SemaphoreView {
        SemaphoreView { count: self.count, waiters: self.waiters@ }
    }
}

impl Semaphore {
    pub open spec fn wf(&self) -> bool {
        self@.waiters.wf()
    }

    pub fn new(initial: usize) -> (r: Self)
        ensures
            r@ == (SemaphoreView { count: initial, waiters: WaitListView::empty() }),
            r.wf(),
    {
        Semaphore { count: initial, waiters: WaitList::new() }
    }

    /// Takes one unit if the count is positive; otherwise parks the caller
    /// at the back of the waiter list. No flag is touched.
    pub fn acquire(&mut self) -> (r: Acquire)
        requires
            old(self).wf(),
        ensures
            final(self).wf(),
            final(self)@ == old(self)@.acquired(),
            r == (if old(self)@.count > 0 {
                Acquire::Acquired
            } else {
                Acquire::Parked(old(self)@.waiters.flags.len() as usize)
            }),
            forall|id: usize|
                id < old(self)@.waiters.flags.len() ==>
                    final(self)@.waiters.woken(id) == old(self)@.waiters.woken(id),
            r matches Acquire::Parked(id) ==> !final(self)@.waiters.woken(id),
    {
        if self.count > 0 {
            self.count = self.count - 1;
            Acquire::Acquired
        } else {
            let id = self.waiters.park();
            proof {
                lemma_parked_wf(old(self)@.waiters);
            }
            Acquire::Parked(id)
        }
    }

    /// Gives one unit back and wakes the oldest waiter, if any. The answer
    /// is the waiter woken.
    pub fn release(&mut self) -> (r: Option<usize>)
        requires
            old(self).wf(),
            old(self)@.count < usize::MAX,
        ensures
            final(self).wf(),
            final(self)@ == old(self)@.released(),
            r == (if old(self)@.waiters.queue.len() > 0 {
                Some(old(self)@.waiters.queue[0])
            } else {
                None
            }),
    {
        self.count = self.count + 1;
        self.waiters.wake_one()
    }

    /// Whether waiter `id` has been woken and may ask again.
    pub fn is_woken(&self, id: usize) -> (r: bool)
        ensures
            r == self@.waiters.woken(id),
    {
        self.waiters.is_woken(id)
    }

    /// The units that can be taken without waiting.
    pub fn available(&self) -> (r: usize)
        ensures
            r == self@.count,
    {
        self.count
    }
}

/// A caller that finds the count at zero is parked with its flag down, and
/// no `acquire` of anybody raises a flag: only `release` does, and it
/// raises exactly the flag of the oldest waiter.
pub proof fn lemma_parked_until_release(v: SemaphoreView)
    requires
        v.waiters.wf(),
        v.waiters.flags.len() < usize::MAX,
    ensures
        v.count == 0 ==> !v.acquired().waiters.woken(v.waiters.flags.len() as usize)
            && v.acquired().waiters.queue.last() == v.waiters.flags.len(),
        forall|id: usize|
            id < v.waiters.flags.len() ==> v.acquired().waiters.woken(id) == v.waiters.woken(id),
        v.waiters.queue.len() > 0 ==> v.released().waiters.woken(v.waiters.queue[0]),
        forall|id: usize|
            #![trigger v.released().waiters.woken(id)]
            v.released().waiters.woken(id) <==> (v.waiters.woken(id) || (v.waiters.queue.len() > 0
                && id == v.waiters.queue[0])),
        v.waiters.queue.len() > 0 ==> v.released().waiters.queue == v.waiters.queue.drop_first(),
{
    lemma_parked_wf(v.waiters);
}

/// A mutex that parks those who find it taken.
pub struct BlockingMutex<T> {
    value: T,
    locked: bool,
    waiters: WaitList,
}

impl<T> BlockingMutex<T> {
    pub closed spec fn locked(&self) -> bool {
        self.locked
    }

    pub closed spec fn value(&self) -> T {
        self.value
    }

    pub closed spec fn waiters(&self) -> WaitListView {
        self.waiters@
    }

    pub open spec fn wf(&self) -> bool {
        self.waiters().wf()
    }

    pub fn new(value: T) -> (r: Self)
        ensures
            r.value() == value,
            !r.locked(),
            r.waiters() == WaitListView::empty(),
            r.wf(),
    {
        BlockingMutex { value, locked: false, waiters: WaitList::new() }
    }

    /// Takes the mutex if it is free, and says whether it did.
    pub fn try_lock(&mut self) -> (r: bool)
        ensures
            r == !old(self).locked(),
            final(self).locked(),
            final(self).value() == old(self).value(),
            final(self).waiters() == old(self).waiters(),
    {
        if self.locked {
            false
        } else {
            self.locked = true;
            true
        }
    }

    /// Takes the mutex if it is free; otherwise parks the caller.
    pub fn lock(&mut self) -> (r: Acquire)
        requires
            old(self).wf(),
        ensures
            final(self).wf(),
            final(self).locked(),
            final(self).value() == old(self).value(),
            !old(self).locked() ==> r == Acquire::Acquired
                && final(self).waiters() == old(self).waiters(),
            old(self).locked() ==> r == Acquire::Parked(old(self).waiters().flags.len() as usize)
                && final(self).waiters() == old(self).waiters().parked(),
    {
        if self.try_lock() {
            Acquire::Acquired
        } else {
            Acquire::Parked(self.waiters.park())
        }
    }

    /// Frees the mutex and wakes the oldest waiter, as the end of a
    /// critical section does. The answer is the waiter woken.
    pub fn unlock(&mut self) -> (r: Option<usize>)
        requires
            old(self).wf(),
        ensures
            final(self).wf(),
            !final(self).locked(),
            final(self).value() == old(self).value(),
            final(self).waiters() == old(self).waiters().woken_one(),
            r == (if old(self).waiters().queue.len() > 0 {
                Some(old(self).waiters().queue[0])
            } else {
                None
            }),
    {
        self.locked = false;
        self.waiters.wake_one()
    }

    /// Frees the mutex without waking anybody, as a condition variable
    /// does for the task that starts to wait.
    pub fn force_unlock(&mut self)
        ensures
            !final(self).locked(),
            final(self).value() == old(self).value(),
            final(self).waiters() == old(self).waiters(),
    {
        self.locked = false;
    }

    /// Wakes the oldest waiter; the mutex itself stays as it is.
    pub fn unlock_next(&mut self) -> (r: Option<usize>)
        requires
            old(self).wf(),
        ensures
            final(self).wf(),
            final(self).locked() == old(self).locked(),
            final(self).value() == old(self).value(),
            final(self).waiters() == old(self).waiters().woken_one(),
            r == (if old(self).waiters().queue.len() > 0 {
                Some(old(self).waiters().queue[0])
            } else {
                None
            }),
    {
        self.waiters.wake_one()
    }

    /// Whether waiter `id` has been woken and may ask again.
    pub fn is_woken(&self, id: usize) -> (r: bool)
        ensures
            r == self.waiters().woken(id),
    {
        self.waiters.is_woken(id)
    }

    /// The value that the mutex guards.
    pub fn get(&self) -> (r: &T)
        ensures
            *r == self.value(),
    {
        &self.value
    }

    /// Replaces the value that the mutex guards; for the holder of the mutex.
    pub fn set(&mut self, value: T)
        requires
            old(self).locked(),
        ensures
            final(self).value() == value,
            final(self).locked(),
            final(self).waiters() == old(self).waiters(),
    {
        self.value = value;
    }
}

/// A condition variable.
pub struct Condvar {
    waiters: WaitList,
}

impl View for Condvar {
    type V = WaitListView;

    closed spec fn view(&self) -> WaitListView {
        self.waiters@
    }
}

impl Condvar {
    pub open spec fn wf(&self) -> bool {
        self@.wf()
    }

    pub fn new() -> (r: Self)
        ensures
            r@ == WaitListView::empty(),
            r.wf(),
    {
        Condvar { waiters: WaitList::new() }
    }

    /// Starts to wait: parks a waiter and frees `mutex` without waking
    /// anybody. The caller yields until the waiter with the id returned is
    /// woken, and then takes the mutex again.
    pub fn wait<T>(&mut self, mutex: &mut BlockingMutex<T>) -> (id: usize)
        requires
            old(self).wf(),
        ensures
            final(self).wf(),
            final(self)@ == old(self)@.parked(),
            id == old(self)@.flags.len(),
            !final(mutex).locked(),
            final(mutex).value() == old(mutex).value(),
            final(mutex).waiters() == old(mutex).waiters(),
    {
        let id = self.waiters.park();
        mutex.force_unlock();
        id
    }

    /// Wakes the oldest waiter, if any.
    pub fn notify_one(&mut self) -> (r: Option<usize>)
        requires
            old(self).wf(),
        ensures
            final(self).wf(),
            final(self)@ == old(self)@.woken_one(),
            r == (if old(self)@.queue.len() > 0 {
                Some(old(self)@.queue[0])
            } else {
                None
            }),
    {
        self.waiters.wake_one()
    }

    /// Wakes every waiter; the answer is how many there were.
    pub fn notify_all(&mut self) -> (count: usize)
        requires
            old(self).wf(),
        ensures
            final(self).wf(),
            final(self)@ == old(self)@.woken_all(),
            final(self)@.queue.len() == 0,
            count == old(self)@.queue.len(),
    {
        self.waiters.wake_all()
    }

    /// Whether waiter `id` has been woken.
    pub fn is_woken(&self, id: usize) -> (r: bool)
        ensures
            r == self@.woken(id),
    {
        self.waiters.is_woken(id)
    }
}

/// Who has been woken when a holder left a read-write lock.
#[derive(Debug, Clone, Copy, PartialEq, Eq, Structural)]
pub struct Woken {
    /// How many waiting readers were woken.
    pub readers: usize,
    /// The waiting writer that was woken.
    pub writer: Option<usize>,
}

/// A read-write lock: many readers or one writer.
pub struct RwLock<T> {
    value: T,
    readers: usize,
    writer: bool,
    read_waiters: WaitList,
    write_waiters: WaitList,
}

impl<T> RwLock<T> {
    pub closed spec fn value(&self) -> T {
        self.value
    }

    /// How many readers hold the lock.
    pub closed spec fn readers(&self) -> usize {
        self.readers
    }

    /// Whether a writer holds the lock.
    pub closed spec fn writer(&self) -> bool {
        self.writer
    }

    pub closed spec fn read_waiters(&self) -> WaitListView {
        self.read_waiters@
    }

    pub closed spec fn write_waiters(&self) -> WaitListView {
        self.write_waiters@
    }

    /// Readers and a writer never hold the lock together.
    pub open spec fn wf(&self) -> bool {
        &&& self.read_waiters().wf()
        &&& self.write_waiters().wf()
        &&& !(self.writer() && self.readers() > 0)
    }

    pub fn new(value: T) -> (r: Self)
        ensures
            r.value() == value,
            r.readers() == 0,
            !r.writer(),
            r.read_waiters() == WaitListView::empty(),
            r.write_waiters() == WaitListView::empty(),
            r.wf(),
    {
        RwLock {
            value,
            readers: 0,
            writer: false,
            read_waiters: WaitList::new(),
            write_waiters: WaitList::new(),
        }
    }

    /// Asks to read: granted unless a writer holds the lock; otherwise the
    /// caller parks among the waiting readers.
    pub fn read(&mut self) -> (r: Acquire)
        requires
            old(self).wf(),
            old(self).readers() < usize::MAX,
        ensures
            final(self).wf(),
            final(self).value() == old(self).value(),
            final(self).writer() == old(self).writer(),
            final(self).write_waiters() == old(self).write_waiters(),
            !old(self).writer() ==> r == Acquire::Acquired
                && final(self).readers() == old(self).readers() + 1
                && final(self).read_waiters() == old(self).read_waiters(),
            old(self).writer() ==> r == Acquire::Parked(
                old(self).read_waiters().flags.len() as usize,
            ) && final(self).readers() == old(self).readers()
                && final(self).read_waiters() == old(self).read_waiters().parked(),
    {
        if !self.writer {
            self.readers = self.readers + 1;
            Acquire::Acquired
        } else {
            Acquire::Parked(self.read_waiters.park())
        }
    }

    /// Asks to write: granted if nobody holds the lock; otherwise the
    /// caller parks among the waiting writers.
    pub fn write(&mut self) -> (r: Acquire)
        requires
            old(self).wf(),
        ensures
            final(self).wf(),
            final(self).value() == old(self).value(),
            final(self).readers() == old(self).readers(),
            final(self).read_waiters() == old(self).read_waiters(),
            !old(self).writer() && old(self).readers() == 0 ==> r == Acquire::Acquired
                && final(self).writer() && final(self).write_waiters() == old(self).write_waiters(),
            old(self).writer() || old(self).readers() > 0 ==> r == Acquire::Parked(
                old(self).write_waiters().flags.len() as usize,
            ) && final(self).writer() == old(self).writer()
                && final(self).write_waiters() == old(self).write_waiters().parked(),
    {
        if !self.writer && self.readers == 0 {
            self.writer = true;
            Acquire::Acquired
        } else {
            Acquire::Parked(self.write_waiters.park())
        }
    }

    /// A reader leaves. When it was the last one, the oldest waiting
    /// writer is woken.
    pub fn release_read(&mut self) -> (r: Option<usize>)
        requires
            old(self).wf(),
            old(self).readers() > 0,
        ensures
            final(self).wf(),
            final(self).value() == old(self).value(),
            final(self).readers() == old(self).readers() - 1,
            !final(self).writer(),
            final(self).read_waiters() == old(self).read_waiters(),
            old(self).readers() > 1 ==> r is None
                && final(self).write_waiters() == old(self).write_waiters(),
            old(self).readers() == 1 ==>
                final(self).write_waiters() == old(self).write_waiters().woken_one()
                && r == (if old(self).write_waiters().queue.len() > 0 {
                Some(old(self).write_waiters().queue[0])
            } else {
                None
            }),
    {
        self.readers = self.readers - 1;
        if self.readers == 0 {
            self.write_waiters.wake_one()
        } else {
            None
        }
    }

    /// The writer leaves. Every waiting reader and the oldest waiting
    /// writer are woken, and each asks again.
    pub fn release_write(&mut self) -> (r: Woken)
        requires
            old(self).wf(),
            old(self).writer(),
        ensures
            final(self).wf(),
            final(self).value() == old(self).value(),
            final(self).readers() == 0,
            !final(self).writer(),
            final(self).read_waiters() == old(self).read_waiters().woken_all(),
            final(self).write_waiters() == old(self).write_waiters().woken_one(),
            r.readers == old(self).read_waiters().queue.len(),
            r.writer == (if old(self).write_waiters().queue.len() > 0 {
                Some(old(self).write_waiters().queue[0])
            } else {
                None
            }),
    {
        self.writer = false;
        let readers = self.read_waiters.wake_all();
        let writer = self.write_waiters.wake_one();
        Woken { readers, writer }
    }

    /// The value that the lock guards.
    pub fn get(&self) -> (r: &T)
        ensures
            *r == self.value(),
    {
        &self.value
    }

    /// Replaces the value that the lock guards; for the writer that holds it.
    pub fn set(&mut self, value: T)
        requires
            old(self).writer(),
        ensures
            final(self).value() == value,
            final(self).writer(),
            final(self).readers() == old(self).readers(),
            final(self).read_waiters() == old(self).read_waiters(),
            final(self).write_waiters() == old(self).write_waiters(),
    {
        self.value = value;
    }
}

} // verus!
