//! The task manager: a first-in first-out queue of ready tasks, a queue of tasks blocked on
//! a futex, and the sleeping tasks, each waking at its time. Tasks are named by their ids.
use vstd::prelude::*;
use core::cmp::Ordering;
use vstd::multiset::Multiset;
use std::collections::VecDeque;

verus! {

/// A sleeping task and the time (in milliseconds) at which it wakes.
#[derive(Copy, Clone, PartialEq, Eq, Debug, Structural)]
pub struct HangingTask {
    pub wake_up_time: u64,
    pub task: u64,
}

impl HangingTask {
    /// Task `task`, put to sleep at `sleep_time` for `duration`.
    pub fn new(sleep_time: u64, duration: u64, task: u64) -> (r: HangingTask)
        requires
            sleep_time + duration <= u64::MAX,
        ensures
            r.wake_up_time == sleep_time + duration,
            r.task == task,
    {
        HangingTask { wake_up_time: sleep_time + duration, task }
    }

    /// The time at which the task wakes.
    pub fn wake_up_time(&self) -> (r: u64)
        ensures
            r == self.wake_up_time,
    {
        self.wake_up_time
    }

    /// The order of the sleeping tasks, in which the task that wakes first is the greatest:
    /// a later wake-up time is less.
    pub fn partial_cmp(&self, other: &HangingTask) -> (r: Option<Ordering>)
        ensures
            r == Some(
                if self.wake_up_time > other.wake_up_time {
                    Ordering::Less
                } else if self.wake_up_time < other.wake_up_time {
                    Ordering::Greater
                } else {
                    Ordering::Equal
                },
            ),
    {
        if self.wake_up_time > other.wake_up_time {
            Some(Ordering::Less)
        } else if self.wake_up_time < other.wake_up_time {
            Some(Ordering::Greater)
        } else {
            Some(Ordering::Equal)
        }
    }
}

/// Whether `h` is a sleeping task of `hq` that wakes no later than any other.
pub open spec fn wakes_first(hq: Seq<HangingTask>, i: int) -> bool {
    0 <= i < hq.len() && forall|j: int| 0 <= j < hq.len() ==> hq[i].wake_up_time <= #[trigger] hq[j].wake_up_time
}

/// The tasks: ready ones in the order they run, blocked ones in the order they blocked,
/// and the sleeping ones.
pub struct TaskManager {
    ready_queue: VecDeque<u64>,
    waiting_queue: VecDeque<u64>,
    hq: Vec<HangingTask>,
}

impl TaskManager {
    /// The ready tasks, first to run first.
    pub closed spec fn ready(&self) -> Seq<u64> {
        self.ready_queue@
    }

    /// The blocked tasks, in the order they blocked.
    pub closed spec fn waiting(&self) -> Seq<u64> {
        self.waiting_queue@
    }

    /// The sleeping tasks (in no particular order).
    pub closed spec fn hanging(&self) -> Multiset<HangingTask> {
        self.hq@.to_multiset()
    }

    /// No task.
    pub fn new() -> (r: TaskManager)
        ensures
            r.ready() == Seq::<u64>::empty(),
            r.waiting() == Seq::<u64>::empty(),
            r.hanging() == Multiset::<HangingTask>::empty(),
    {
        let r = TaskManager { ready_queue: VecDeque::new(), waiting_queue: VecDeque::new(), hq: Vec::new() };
        proof {
            broadcast use vstd::seq_lib::group_to_multiset_ensures;
            assert(r.hq@.to_multiset() =~= Multiset::<HangingTask>::empty());
        }
        r
    }

    /// Puts `task` at the end of the ready queue.
    pub fn add(&mut self, task: u64)
        ensures
            final(self).ready() == old(self).ready().push(task),
            final(self).waiting() == old(self).waiting(),
            final(self).hanging() == old(self).hanging(),
    {
        self.ready_queue.push_back(task);
    }

    /// Takes the task at the head of the ready queue, if any.
    pub fn fetch(&mut self) -> (r: Option<u64>)
        ensures
            old(self).ready().len() == 0 ==> r is None && final(self).ready() == old(self).ready(),
            old(self).ready().len() > 0 ==> r == Some(old(self).ready()[0]) && final(self).ready() == old(self).ready().drop_first(),
            final(self).waiting() == old(self).waiting(),
            final(self).hanging() == old(self).hanging(),
    {
        let t = self.ready_queue.pop_front();
        proof {
            if t is Some {
                assert(self.ready_queue@ =~= old(self).ready_queue@.drop_first());
            }
        }
        t
    }

    /// Puts `task` to sleep at `sleep_time` for `duration`.
    pub fn hang(&mut self, sleep_time: u64, duration: u64, task: u64)
        requires
            sleep_time + duration <= u64::MAX,
        ensures
            final(self).hanging() == old(self).hanging().insert(
                HangingTask { wake_up_time: (sleep_time + duration) as u64, task },
            ),
            final(self).ready() == old(self).ready(),
            final(self).waiting() == old(self).waiting(),
    {
        let h = HangingTask::new(sleep_time, duration, task);
        self.hq.push(h);
        proof {
            broadcast use vstd::seq_lib::group_to_multiset_ensures;
            old(self).hq@.to_multiset_ensures();
        }
    }

    /// Puts `task` at the end of the blocked queue.
    pub fn block(&mut self, task: u64)
        ensures
            final(self).waiting() == old(self).waiting().push(task),
            final(self).ready() == old(self).ready(),
            final(self).hanging() == old(self).hanging(),
    {
        self.waiting_queue.push_back(task);
    }

    /// Whether sleeping task `h` is due at time `now`.
    pub fn check_sleep(&self, hanging_task: &HangingTask, now: u64) -> (r: bool)
        ensures
            r == (now >= hanging_task.wake_up_time),
    {
        now >= hanging_task.wake_up_time()
    }

    /// Wakes a sleeping task that wakes no later than any other when it is due at time
    /// `now`, and returns it; `None`, changing nothing, when no task sleeps or the first to
    /// wake is not due.
    pub fn check_hanging(&mut self, now: u64) -> (r: Option<u64>)
        ensures
            final(self).ready() == old(self).ready(),
            final(self).waiting() == old(self).waiting(),
            r is None ==> final(self).hanging() == old(self).hanging() && forall|h: HangingTask|
                old(self).hanging().contains(h) ==> now < h.wake_up_time,
            r matches Some(t) ==> exists|h: HangingTask|
                #![trigger old(self).hanging().contains(h)]
                old(self).hanging().contains(h) && h.task == t && h.wake_up_time <= now && final(self).hanging()
                    == old(self).hanging().remove(h) && forall|g: HangingTask|
                    old(self).hanging().contains(g) ==> h.wake_up_time <= g.wake_up_time,
    {
        proof {
            broadcast use vstd::seq_lib::group_to_multiset_ensures;
        }
        if self.hq.len() == 0 {
            proof {
                assert forall|h: HangingTask| old(self).hanging().contains(h) implies now < h.wake_up_time by {
                    old(self).hq@.to_multiset_ensures();
                }
            }
            return None;
        }
        let mut best: usize = 0;
        let mut i: usize = 1;
        while i < self.hq.len()
            invariant
                self.hq@ == old(self).hq@,
                self.ready_queue@ == old(self).ready_queue@,
                self.waiting_queue@ == old(self).waiting_queue@,
                1 <= i <= self.hq@.len(),
                best < i,
                forall|j: int| 0 <= j < i ==> self.hq@[best as int].wake_up_time <= #[trigger] self.hq@[j].wake_up_time,
            decreases self.hq@.len() - i,
        {
            if self.hq[i].wake_up_time < self.hq[best].wake_up_time {
                best = i;
            }
            i = i + 1;
        }
        let first = self.hq[best];
        proof {
            assert(wakes_first(self.hq@, best as int));
            old(self).hq@.to_multiset_ensures();
            assert forall|g: HangingTask| old(self).hanging().contains(g) implies first.wake_up_time
                <= g.wake_up_time by {
                assert(old(self).hq@.contains(g));
                let j = choose|j: int| 0 <= j < old(self).hq@.len() && old(self).hq@[j] == g;
                assert(self.hq@[j].wake_up_time >= first.wake_up_time);
            }
        }
        if !self.check_sleep(&first, now) {
            return None;
        }
        let h = self.hq.remove(best);
        proof {
            let s0 = old(self).hq@;
            assert(s0 == s0.subrange(0, best as int) + seq![h] + s0.subrange(best as int + 1, s0.len() as int));
            assert(self.hq@ == s0.subrange(0, best as int) + s0.subrange(best as int + 1, s0.len() as int));
            vstd::seq_lib::lemma_multiset_commutative(s0.subrange(0, best as int) + seq![h], s0.subrange(best as int + 1, s0.len() as int));
            vstd::seq_lib::lemma_multiset_commutative(s0.subrange(0, best as int), seq![h]);
            vstd::seq_lib::lemma_multiset_commutative(s0.subrange(0, best as int), s0.subrange(best as int + 1, s0.len() as int));
            let a = s0.subrange(0, best as int).to_multiset();
            let b = s0.subrange(best as int + 1, s0.len() as int).to_multiset();
            assert(seq![h].to_multiset() =~= Multiset::singleton(h)) by {
                assert(seq![h] == Seq::<HangingTask>::empty().push(h));
                Seq::<HangingTask>::empty().to_multiset_ensures();
            }
            assert(s0.to_multiset() == a.add(Multiset::singleton(h)).add(b));
            assert(self.hq@.to_multiset() == a.add(b));
            assert(a.add(b) =~= a.add(Multiset::singleton(h)).add(b).remove(h));
            assert(h == first);
            assert(s0[best as int] == h);
            assert(s0.contains(h));
            assert(old(self).hanging().contains(h));
        }
        Some(h.task)
    }

    /// Moves the first blocked task equal to `task` to the end of the ready queue; nothing
    /// when `task` is not blocked.
    pub fn unblock_task(&mut self, task: u64)
        ensures
            final(self).hanging() == old(self).hanging(),
            !old(self).waiting().contains(task) ==> final(self).waiting() == old(self).waiting() && final(self).ready() == old(self).ready(),
            old(self).waiting().contains(task) ==> exists|i: int|
                0 <= i < old(self).waiting().len() && old(self).waiting()[i] == task && (forall|j: int|
                    0 <= j < i ==> old(self).waiting()[j] != task) && final(self).waiting() == old(self).waiting().remove(
                    i,
                ) && final(self).ready() == old(self).ready().push(task),
    {
        let mut i: usize = 0;
        while i < self.waiting_queue.len()
            invariant
                self.waiting_queue@ == old(self).waiting_queue@,
                self.ready_queue@ == old(self).ready_queue@,
                self.hq@ == old(self).hq@,
                i <= self.waiting_queue@.len(),
                forall|j: int| 0 <= j < i ==> self.waiting_queue@[j] != task,
            decreases self.waiting_queue@.len() - i,
        {
            if self.waiting_queue[i] == task {
                if let Some(t) = self.waiting_queue.remove(i) {
                    self.add(t);
                }
                return;
            }
            i = i + 1;
        }
    }

    /// Blocks `task` (see `block`).
    pub fn block_task(&mut self, task: u64)
        ensures
            final(self).waiting() == old(self).waiting().push(task),
            final(self).ready() == old(self).ready(),
            final(self).hanging() == old(self).hanging(),
    {
        self.block(task);
    }
}

impl TaskManager {
    /// The task to run next at time `now`: a sleeping task that is due, as
    /// [`TaskManager::check_hanging`] picks it, else the head of the ready queue, if any.
    pub fn next_task(&mut self, now: u64) -> (r: Option<u64>)
        ensures
            final(self).waiting() == old(self).waiting(),
            (exists|h: HangingTask| old(self).hanging().contains(h) && h.wake_up_time <= now) ==> {
                &&& final(self).ready() == old(self).ready()
                &&& exists|h: HangingTask|
                    #![trigger old(self).hanging().contains(h)]
                    old(self).hanging().contains(h) && r == Some(h.task) && h.wake_up_time <= now
                        && final(self).hanging() == old(self).hanging().remove(h) && forall|g: HangingTask|
                        old(self).hanging().contains(g) ==> h.wake_up_time <= g.wake_up_time
            },
            (forall|h: HangingTask| old(self).hanging().contains(h) ==> now < h.wake_up_time) ==> {
                &&& final(self).hanging() == old(self).hanging()
                &&& old(self).ready().len() == 0 ==> r is None && final(self).ready() == old(self).ready()
                &&& old(self).ready().len() > 0 ==> r == Some(old(self).ready()[0]) && final(self).ready()
                    == old(self).ready().drop_first()
            },
    {
        match self.check_hanging(now) {
            Some(t) => Some(t),
            None => self.fetch(),
        }
    }
}

/// The ready queue is first in, first out: after `add(t)`, `fetch` gives the head of the
/// queue before, or `t` when it was empty; nothing else changes.
pub proof fn law_fifo(q: Seq<u64>, t: u64)
    ensures
        q.len() == 0 ==> q.push(t)[0] == t && q.push(t).drop_first() == q,
        q.len() > 0 ==> q.push(t)[0] == q[0] && q.push(t).drop_first() == q.drop_first().push(t),
{
    if q.len() == 0 {
        assert(q.push(t).drop_first() =~= q);
    } else {
        assert(q.push(t).drop_first() =~= q.drop_first().push(t));
    }
}

/// The ready queue after `add` is called with each of `ts` in order on ready queue `q`.
pub open spec fn added(q: Seq<u64>, ts: Seq<u64>) -> Seq<u64>
    decreases ts.len(),
{
    if ts.len() == 0 {
        q
    } else {
        added(q, ts.drop_last()).push(ts.last())
    }
}

/// What `n` calls of `fetch` on ready queue `q` give, in order, and the ready queue after.
pub open spec fn fetched(q: Seq<u64>, n: nat) -> (Seq<Option<u64>>, Seq<u64>)
    decreases n,
{
    if n == 0 {
        (Seq::empty(), q)
    } else {
        let (out, rest) = fetched(q, (n - 1) as nat);
        if rest.len() == 0 {
            (out.push(None), rest)
        } else {
            (out.push(Some(rest[0])), rest.drop_first())
        }
    }
}

/// Adding `ts` to a queue leaves it as the queue followed by `ts`.
proof fn lemma_added(q: Seq<u64>, ts: Seq<u64>)
    ensures
        added(q, ts) == q + ts,
    decreases ts.len(),
{
    if ts.len() > 0 {
        lemma_added(q, ts.drop_last());
        assert(q + ts =~= (q + ts.drop_last()).push(ts.last()));
    }
}

/// The first `n` fetches from `q` give its first `n` tasks and leave the rest.
proof fn lemma_fetched(q: Seq<u64>, n: nat)
    requires
        n <= q.len(),
    ensures
        fetched(q, n).0 == q.take(n as int).map_values(|t: u64| Some(t)),
        fetched(q, n).1 == q.skip(n as int),
    decreases n,
{
    if n > 0 {
        lemma_fetched(q, (n - 1) as nat);
        assert(q.take(n as int).map_values(|t: u64| Some(t)) =~= q.take(n - 1).map_values(|t: u64| Some(t)).push(
            Some(q[n - 1]),
        ));
        assert(q.skip(n as int) =~= q.skip(n - 1).drop_first());
    }
}

/// The ready queue is first in, first out over any number of tasks: when `add` is called
/// with each of `ts` in order on an empty ready queue, the next `ts.len()` calls of `fetch`
/// give `ts` in that order, and the one after gives nothing.
pub proof fn law_fifo_all(ts: Seq<u64>)
    ensures
        fetched(added(Seq::empty(), ts), ts.len() + 1).0 == ts.map_values(|t: u64| Some(t)).push(None),
{
    lemma_added(Seq::empty(), ts);
    assert(Seq::<u64>::empty() + ts =~= ts);
    lemma_fetched(ts, ts.len());
    assert(ts.take(ts.len() as int) =~= ts);
    assert(ts.skip(ts.len() as int) =~= Seq::<u64>::empty());
}

} // verus!
