//! What holds of every state that the scheduler can reach.

use vstd::prelude::*;
use crate::task::{Task, TaskPriority, TaskState};
use crate::task::scheduler::{other_than, SchedulerView};

verus! {

/// What a sequence holds after a push.
pub proof fn lemma_push_contains<A>(s: Seq<A>, x: A)
    ensures
        forall|y: A| #[trigger] s.push(x).contains(y) <==> (s.contains(y) || y == x),
        s.no_duplicates() && !s.contains(x) ==> s.push(x).no_duplicates(),
{
    let t = s.push(x);
    assert forall|y: A| #[trigger] t.contains(y) <==> (s.contains(y) || y == x) by {
        if t.contains(y) {
            let i = choose|i: int| 0 <= i < t.len() && t[i] == y;
            if i < s.len() {
                assert(s[i] == y);
            }
        }
        if s.contains(y) {
            let i = choose|i: int| 0 <= i < s.len() && s[i] == y;
            assert(t[i] == y);
        }
        if y == x {
            assert(t[s.len() as int] == x);
        }
    }
    if s.no_duplicates() && !s.contains(x) {
        assert forall|i: int, j: int| 0 <= i < t.len() && 0 <= j < t.len() && i != j implies t[i]
            != t[j] by {
            if i < s.len() {
                assert(s.contains(s[i]));
            }
            if j < s.len() {
                assert(s.contains(s[j]));
            }
        }
    }
}

/// What a sequence without repetitions holds after its first item left.
pub proof fn lemma_drop_first_contains(s: Seq<usize>)
    requires
        s.len() > 0,
        s.no_duplicates(),
    ensures
        s.drop_first().no_duplicates(),
        forall|y: usize| #[trigger] s.drop_first().contains(y) <==> (s.contains(y) && y != s[0]),
{
    let t = s.drop_first();
    assert forall|y: usize| #[trigger] t.contains(y) <==> (s.contains(y) && y != s[0]) by {
        if t.contains(y) {
            let i = choose|i: int| 0 <= i < t.len() && t[i] == y;
            assert(s[i + 1] == y);
        }
        if s.contains(y) && y != s[0] {
            let i = choose|i: int| 0 <= i < s.len() && s[i] == y;
            assert(t[i - 1] == y);
        }
    }
    assert forall|i: int, j: int| 0 <= i < t.len() && 0 <= j < t.len() && i != j implies t[i]
        != t[j] by {
        assert(t[i] == s[i + 1] && t[j] == s[j + 1]);
    }
}

/// The filter of one more item: the filter so far, and the item if it passes.
pub proof fn lemma_filter_take<A>(s: Seq<A>, pred: spec_fn(A) -> bool, i: int)
    requires
        0 <= i < s.len(),
    ensures
        s.take(i + 1).filter(pred) == (if pred(s[i]) {
            s.take(i).filter(pred).push(s[i])
        } else {
            s.take(i).filter(pred)
        }),
{
    reveal(Seq::filter);
    assert(s.take(i + 1).drop_last() =~= s.take(i));
}

/// What a filtered sequence holds.
pub proof fn lemma_filter_contains<A>(s: Seq<A>, pred: spec_fn(A) -> bool)
    ensures
        forall|y: A| #[trigger] s.filter(pred).contains(y) <==> (s.contains(y) && pred(y)),
        s.no_duplicates() ==> s.filter(pred).no_duplicates(),
    decreases s.len(),
{
    reveal(Seq::filter);
    if s.len() > 0 {
        let d = s.drop_last();
        let x = s.last();
        lemma_filter_contains(d, pred);
        lemma_push_contains(d.filter(pred), x);
        assert(s =~= d.push(x));
        lemma_push_contains(d, x);
        if s.no_duplicates() {
            assert forall|i: int, j: int| 0 <= i < d.len() && 0 <= j < d.len()
                && i != j implies d[i]
                != d[j] by {
                assert(d[i] == s[i] && d[j] == s[j]);
            }
            if d.contains(x) {
                let i = choose|i: int| 0 <= i < d.len() && d[i] == x;
                assert(s[i] == s[s.len() - 1]);
            }
        }
    }
}

/// The scheduler without tasks meets the invariant.
pub proof fn lemma_empty_wf()
    ensures
        SchedulerView::empty().wf(),
{
    let v = SchedulerView::empty();
    assert forall|id: usize| v.queued(id) <==> v.in_state(id, TaskState::Ready) by {}
}

/// The invariant survives a change of the tasks that leaves every id,
/// state and priority alone and every time slice in order.
pub proof fn lemma_same_states(v: SchedulerView, w: SchedulerView)
    requires
        v.wf(),
        w.queues == v.queues,
        w.current == v.current,
        w.tasks.len() == v.tasks.len(),
        forall|j: int|
            0 <= j < v.tasks.len() ==> (#[trigger] w.tasks[j]).state == v.tasks[j].state
                && w.tasks[j].id == v.tasks[j].id && w.tasks[j].priority == v.tasks[j].priority
                && w.tasks[j].wf(),
    ensures
        w.wf(),
{
    assert(w.placed()) by {
        assert(v.placed());
    }
    assert forall|id: usize| w.queued(id) <==> w.in_state(id, TaskState::Ready) by {
        assert(v.queued(id) <==> v.in_state(id, TaskState::Ready));
    }
    assert forall|id: usize| w.current == Some(id) <==> w.in_state(id, TaskState::Running) by {
        assert(v.current == Some(id) <==> v.in_state(id, TaskState::Running));
    }
}

/// The invariant survives when a task that was neither ready nor queued
/// becomes ready and joins the back of a run queue. The task may be new, or
/// it may be the one that held the CPU and gives it up.
pub proof fn lemma_made_ready(v: SchedulerView, w: SchedulerView, id: usize, level: int)
    requires
        v.wf(),
        0 <= level < 3,
        !v.in_state(id, TaskState::Ready),
        w.queues == v.queues.update(level, v.queues[level].push(id)),
        w.tasks.len() == v.tasks.len() || (w.tasks.len() == v.tasks.len() + 1 && id
            == v.tasks.len()),
        id < w.tasks.len(),
        w.tasks[id as int].state == TaskState::Ready,
        w.tasks[id as int].priority.level() == level,
        w.tasks[id as int].id == id,
        w.tasks[id as int].wf(),
        forall|j: int| 0 <= j < v.tasks.len() && j != id ==> w.tasks[j] == v.tasks[j],
        w.current == (if v.current == Some(id) {
            None
        } else {
            v.current
        }),
    ensures
        w.wf(),
{
    assert(!v.queued(id));
    lemma_push_contains(v.queues[level], id);
    assert forall|x: usize| w.queued(x) <==> (v.queued(x) || x == id) by {}
    assert(w.placed()) by {
        assert(v.placed());
        assert forall|l: int, x: usize| 0 <= l < 3 && #[trigger] w.queues[l].contains(
            x,
        ) implies x < w.tasks.len() && w.tasks[x as int].priority.level() == l by {
            if x != id {
                assert(v.queues[l].contains(x));
            }
        }
    }
    assert forall|x: usize| w.queued(x) <==> w.in_state(x, TaskState::Ready) by {
        assert(v.queued(x) <==> v.in_state(x, TaskState::Ready));
    }
    assert forall|x: usize| w.current == Some(x) <==> w.in_state(x, TaskState::Running) by {
        assert(v.current == Some(x) <==> v.in_state(x, TaskState::Running));
    }
}

pub proof fn lemma_spawned_wf(v: SchedulerView, task: Task)
    requires
        v.wf(),
        task.id == v.tasks.len(),
        task.state == TaskState::Ready,
        task.wf(),
    ensures
        v.spawned(task).wf(),
{
    assert(!v.in_state(task.id, TaskState::Running));
    assert(!v.in_state(task.id, TaskState::Ready));
    lemma_made_ready(v, v.spawned(task), task.id, task.priority.level());
}

pub proof fn lemma_accounted_wf(v: SchedulerView, now: u64)
    requires
        v.wf(),
    ensures
        v.accounted(now).wf(),
        v.accounted(now).current == v.current,
{
    if let Some(c) = v.current {
        assert(v.in_state(c, TaskState::Running));
    }
    lemma_same_states(v, v.accounted(now));
}

/// What a change of priority does: the invariant survives, the task has
/// the new priority, and who waits and who runs stays as it is.
pub proof fn lemma_reprioritized_wf(v: SchedulerView, id: usize, priority: TaskPriority)
    requires
        v.wf(),
        id < v.tasks.len(),
    ensures
        v.reprioritized(id, priority).wf(),
        v.reprioritized(id, priority).current == v.current,
        v.reprioritized(id, priority).tasks == v.tasks.update(
            id as int,
            Task { priority, ..v.tasks[id as int] },
        ),
        forall|x: usize|
            #![trigger v.reprioritized(id, priority).queued(x)]
            v.reprioritized(id, priority).queued(x) == v.queued(x),
        v.tasks[id as int].state == TaskState::Ready ==> v.reprioritized(
            id,
            priority,
        ).queues[priority.level()].contains(id),
{
    let w = v.reprioritized(id, priority);
    let t = v.tasks[id as int];
    let from = t.priority.level();
    let to = priority.level();
    assert(v.placed());
    if t.state == TaskState::Ready {
        assert(v.in_state(id, TaskState::Ready));
        assert(v.queued(id));
        assert(v.queues[from].contains(id));
    }
    if t.state == TaskState::Ready && t.priority != priority {
        let keep = other_than(id);
        lemma_filter_contains(v.queues[from], keep);
        lemma_push_contains(v.queues[to], id);
        assert(from != to);
        assert(!v.queues[to].contains(id));
        assert(w.queues[from] == v.queues[from].filter(keep));
        assert(w.queues[to] == v.queues[to].push(id));
        assert forall|l: int| 0 <= l < 3 && l != from && l != to implies #[trigger] w.queues[l]
            == v.queues[l] by {}
        assert forall|l: int, x: usize| 0 <= l < 3 implies (#[trigger] w.queues[l].contains(x) <==> (
        if x == id {
            l == to
        } else {
            v.queues[l].contains(x)
        })) by {
            if l == from {
                assert(keep(x) == (x != id));
            } else if l == to {
            } else {
                assert(w.queues[l] == v.queues[l]);
            }
        }
        assert forall|x: usize| w.queued(x) == v.queued(x) by {
            assert(w.queues[0].contains(x) || true);
            assert(w.queues[1].contains(x) || true);
            assert(w.queues[2].contains(x) || true);
        }
        assert(w.queues[0].no_duplicates() && w.queues[1].no_duplicates()
            && w.queues[2].no_duplicates()) by {
            assert(w.queues[0] == v.queues[0] || 0 == from || 0 == to);
            assert(w.queues[1] == v.queues[1] || 1 == from || 1 == to);
            assert(w.queues[2] == v.queues[2] || 2 == from || 2 == to);
        }
        assert(w.placed()) by {
            assert forall|l: int, x: usize| 0 <= l < 3 && #[trigger] w.queues[l].contains(
                x,
            ) implies x < w.tasks.len() && w.tasks[x as int].priority.level() == l by {
                if x != id {
                    assert(v.queues[l].contains(x));
                }
            }
        }
    } else {
        assert(w.queues == v.queues);
        assert(w.placed()) by {
            assert forall|l: int, x: usize| 0 <= l < 3 && #[trigger] w.queues[l].contains(
                x,
            ) implies x < w.tasks.len() && w.tasks[x as int].priority.level() == l by {
                assert(v.queues[l].contains(x));
                if x == id {
                    assert(v.queued(id));
                    assert(v.in_state(id, TaskState::Ready));
                }
            }
        }
    }
    assert forall|x: usize| w.queued(x) <==> w.in_state(x, TaskState::Ready) by {
        assert(v.queued(x) <==> v.in_state(x, TaskState::Ready));
        assert(w.queued(x) == v.queued(x));
    }
    assert forall|x: usize| w.current == Some(x) <==> w.in_state(x, TaskState::Running) by {
        assert(v.current == Some(x) <==> v.in_state(x, TaskState::Running));
    }
    assert forall|i: int| 0 <= i < w.tasks.len() implies (#[trigger] w.tasks[i]).id == i
        && w.tasks[i].wf() by {
        assert(v.tasks[i].id == i && v.tasks[i].wf());
    }
}

/// What the deadline check of the first `n` tasks does: the invariant
/// survives, each of them that is due has moved up one level, the others
/// are as before, and who waits and who runs stays as it is.
pub proof fn lemma_boosted_upto(v: SchedulerView, now: u64, n: nat)
    requires
        v.wf(),
        n <= v.tasks.len(),
    ensures
        v.boosted_upto(now, n).wf(),
        v.boosted_upto(now, n).current == v.current,
        v.boosted_upto(now, n).tasks.len() == v.tasks.len(),
        forall|j: int|
            0 <= j < v.tasks.len() ==> (#[trigger] v.boosted_upto(now, n).tasks[j]) == (if j < n {
                SchedulerView::boost(v.tasks[j], now)
            } else {
                v.tasks[j]
            }),
        forall|x: usize|
            #![trigger v.boosted_upto(now, n).queued(x)]
            v.boosted_upto(now, n).queued(x) == v.queued(x),
    decreases n,
{
    if n > 0 {
        lemma_boosted_upto(v, now, (n - 1) as nat);
        let s = v.boosted_upto(now, (n - 1) as nat);
        let id = (n - 1) as usize;
        let w = v.boosted_upto(now, n);
        assert(v.tasks[n - 1].id == n - 1);
        assert(s.tasks[id as int] == v.tasks[id as int]);
        if s.tasks[id as int].due(now) {
            lemma_reprioritized_wf(s, id, s.tasks[id as int].priority.raised());
            assert forall|x: usize| w.queued(x) == v.queued(x) by {
                assert(s.queued(x) == v.queued(x));
            }
        }
        assert forall|j: int| 0 <= j < v.tasks.len() implies (#[trigger] w.tasks[j]) == (if j < n {
            SchedulerView::boost(v.tasks[j], now)
        } else {
            v.tasks[j]
        }) by {
            if j != id {
                assert(w.tasks[j] == s.tasks[j]);
            }
        }
    }
}

/// Where no task is due, the deadline check changes nothing.
pub proof fn lemma_boosted_idle(v: SchedulerView, now: u64, n: nat)
    requires
        n <= v.tasks.len(),
        forall|j: int| 0 <= j < v.tasks.len() ==> !(#[trigger] v.tasks[j]).due(now),
    ensures
        v.boosted_upto(now, n) == v,
    decreases n,
{
    if n > 0 {
        lemma_boosted_idle(v, now, (n - 1) as nat);
    }
}

/// The deadline check keeps the invariant: afterwards every task that was
/// due has the next higher priority and waits in the run queue of that
/// priority, and every other task is as before.
pub proof fn lemma_boosted_wf(v: SchedulerView, now: u64)
    requires
        v.wf(),
    ensures
        v.boosted(now).wf(),
        v.boosted(now).current == v.current,
        v.boosted(now).tasks.len() == v.tasks.len(),
        forall|j: int|
            0 <= j < v.tasks.len() ==> (#[trigger] v.boosted(now).tasks[j]) == SchedulerView::boost(
                v.tasks[j],
                now,
            ),
        forall|x: usize|
            #![trigger v.boosted(now).queued(x)]
            v.boosted(now).queued(x) == v.queued(x),
        forall|id: usize|
            id < v.tasks.len() && (#[trigger] v.tasks[id as int]).due(now) ==> v.boosted(
                now,
            ).queues[v.tasks[id as int].priority.raised().level()].contains(id),
{
    lemma_boosted_upto(v, now, v.tasks.len());
    let w = v.boosted(now);
    assert forall|id: usize| id < v.tasks.len() && (#[trigger] v.tasks[id as int]).due(
        now,
    ) implies w.queues[v.tasks[id as int].priority.raised().level()].contains(id) by {
        assert(v.in_state(id, TaskState::Ready));
        assert(v.queued(id));
        assert(w.queued(id));
        assert(w.placed());
        assert(w.tasks[id as int] == SchedulerView::boost(v.tasks[id as int], now));
    }
}

/// Whether task `t` of `v` has risen in `w` as the deadline check at `now`
/// asks: it has the priority that the check gives it and the priority
/// that it was created with, and if it was due, it holds the CPU or waits
/// in the run queue of its new priority.
pub open spec fn risen(v: SchedulerView, w: SchedulerView, now: u64, t: usize) -> bool {
    let before = v.tasks[t as int];
    &&& w.wf()
    &&& w.tasks.len() == v.tasks.len()
    &&& w.tasks[t as int].base_priority == before.base_priority
    &&& w.tasks[t as int].priority == SchedulerView::boost(before, now).priority
    &&& before.due(now) ==> w.tasks[t as int].priority == before.priority.raised() && (w.current
        == Some(t) || w.queues[before.priority.raised().level()].contains(t))
}

/// A deadline is observed at the next step of the scheduler: after a
/// scheduling tick or a yield at `now`, a task that waited with its
/// deadline passed has the next higher priority, keeps the priority that
/// it was created with, and either holds the CPU or waits in the run queue
/// of its new priority. A task that was not due has the priority that it had.
pub proof fn lemma_due_task_rises(v: SchedulerView, now: u64, t: usize)
    requires
        v.wf(),
        t < v.tasks.len(),
    ensures
        risen(v, v.after_schedule(now), now, t),
        risen(v, v.after_yield(now), now, t),
{
    let a = v.accounted(now);
    lemma_schedule_wf(v, now);
    lemma_yield_wf(v, now);
    lemma_accounted_wf(v, now);
    lemma_parts_keep_priorities(v, now, t as int);
    lemma_boosted_wf(a, now);
    let s = a.boosted(now);
    lemma_parts_keep_priorities(a, now, t as int);
    lemma_parts_keep_priorities(s, now, t as int);
    let before = v.tasks[t as int];
    if let Some(c) = v.current {
        assert(v.in_state(c, TaskState::Running));
    }
    lemma_requeued_wf(s);
    let r = s.requeued();
    lemma_parts_keep_priorities(r, now, t as int);
    lemma_picked_wf(r, now);
    if before.due(now) {
        let level = before.priority.raised().level();
        assert(a.tasks[t as int].due(now));
        assert(a.tasks[t as int].priority == before.priority);
        assert(s.queues[level].contains(t));
        assert(r.queues[level].contains(t)) by {
            if let Some(c) = s.current {
                assert(s.in_state(c, TaskState::Running));
                lemma_push_contains(s.queues[s.tasks[c as int].priority.level()], c);
            }
        }
        let top = r.top_level();
        assert(top >= 0);
        if top == level {
            lemma_drop_first_contains(r.queues[top]);
        }
    }
}

/// A reset of the priority keeps the invariant.
pub proof fn lemma_priority_reset_wf(v: SchedulerView, id: usize)
    requires
        v.wf(),
    ensures
        v.priority_reset(id).wf(),
{
    if id < v.tasks.len() {
        lemma_reprioritized_wf(v, id, v.tasks[id as int].base_priority);
    }
}

pub proof fn lemma_requeued_wf(v: SchedulerView)
    requires
        v.wf(),
    ensures
        v.requeued().wf(),
        v.requeued().current is None,
{
    if let Some(c) = v.current {
        assert(v.in_state(c, TaskState::Running));
        lemma_made_ready(v, v.requeued(), c, v.tasks[c as int].priority.level());
    }
}

pub proof fn lemma_blocked_wf(v: SchedulerView)
    requires
        v.wf(),
    ensures
        v.blocked().wf(),
        v.blocked().current is None,
{
    let w = v.blocked();
    if let Some(c) = v.current {
        assert(v.in_state(c, TaskState::Running));
        assert forall|x: usize| w.queued(x) <==> w.in_state(x, TaskState::Ready) by {
            assert(v.queued(x) <==> v.in_state(x, TaskState::Ready));
        }
        assert forall|x: usize| w.current == Some(x) <==> w.in_state(x, TaskState::Running) by {
            assert(v.current == Some(x) <==> v.in_state(x, TaskState::Running));
        }
    }
}

pub proof fn lemma_picked_wf(v: SchedulerView, now: u64)
    requires
        v.wf(),
        v.current is None,
    ensures
        v.picked(now).wf(),
{
    let w = v.picked(now);
    let level = v.top_level();
    if level >= 0 {
        let q = v.queues[level];
        let id = q[0];
        assert(q.contains(id));
        assert(v.queued(id));
        assert(v.in_state(id, TaskState::Ready));
        lemma_drop_first_contains(q);
        assert forall|x: usize| w.queued(x) <==> (v.queued(x) && x != id) by {}
        assert forall|x: usize| w.queued(x) <==> w.in_state(x, TaskState::Ready) by {
            assert(v.queued(x) <==> v.in_state(x, TaskState::Ready));
        }
        assert forall|x: usize| w.current == Some(x) <==> w.in_state(x, TaskState::Running) by {
            assert(v.current == Some(x) <==> v.in_state(x, TaskState::Running));
        }
    }
}

pub proof fn lemma_schedule_wf(v: SchedulerView, now: u64)
    requires
        v.wf(),
    ensures
        v.after_schedule(now).wf(),
{
    lemma_accounted_wf(v, now);
    lemma_boosted_wf(v.accounted(now), now);
    let s = v.accounted(now).boosted(now);
    if s.keeps_cpu() {
        assert(s.in_state(s.current->0, TaskState::Running));
        lemma_same_states(s, s.ticked());
    } else {
        lemma_requeued_wf(s);
        lemma_picked_wf(s.requeued(), now);
    }
}

pub proof fn lemma_yield_wf(v: SchedulerView, now: u64)
    requires
        v.wf(),
    ensures
        v.after_yield(now).wf(),
{
    lemma_accounted_wf(v, now);
    lemma_boosted_wf(v.accounted(now), now);
    let s = v.accounted(now).boosted(now);
    lemma_requeued_wf(s);
    lemma_picked_wf(s.requeued(), now);
}

pub proof fn lemma_block_wf(v: SchedulerView, now: u64)
    requires
        v.wf(),
    ensures
        v.after_block(now).wf(),
{
    lemma_accounted_wf(v, now);
    lemma_boosted_wf(v.accounted(now), now);
    let s = v.accounted(now).boosted(now);
    lemma_blocked_wf(s);
    lemma_picked_wf(s.blocked(), now);
}

pub proof fn lemma_unblocked_wf(v: SchedulerView, id: usize)
    requires
        v.wf(),
    ensures
        v.unblocked(id).wf(),
{
    if v.in_state(id, TaskState::Blocked) {
        assert(!v.in_state(id, TaskState::Running));
        lemma_made_ready(v, v.unblocked(id), id, v.tasks[id as int].priority.level());
    }
}

pub proof fn lemma_group_suspended_wf(v: SchedulerView, group: usize)
    requires
        v.wf(),
    ensures
        v.group_suspended(group).wf(),
{
    let w = v.group_suspended(group);
    let keep = |id: usize| !v.in_group(id, group);
    lemma_filter_contains(v.queues[0], keep);
    lemma_filter_contains(v.queues[1], keep);
    lemma_filter_contains(v.queues[2], keep);
    assert forall|x: usize| w.queued(x) <==> (v.queued(x) && !v.in_group(x, group)) by {}
    assert forall|x: usize| w.queued(x) <==> w.in_state(x, TaskState::Ready) by {
        assert(v.queued(x) <==> v.in_state(x, TaskState::Ready));
    }
    assert forall|x: usize| w.current == Some(x) <==> w.in_state(x, TaskState::Running) by {
        assert(v.current == Some(x) <==> v.in_state(x, TaskState::Running));
    }
}

pub proof fn lemma_resumed_upto_wf(v: SchedulerView, group: usize, n: nat)
    requires
        v.wf(),
        n <= v.tasks.len(),
    ensures
        v.resumed_upto(group, n).wf(),
        v.resumed_upto(group, n).tasks.len() == v.tasks.len(),
        v.resumed_upto(group, n).current == v.current,
        forall|j: int|
            n <= j < v.tasks.len() ==> (#[trigger] v.resumed_upto(group, n).tasks[j]) == v.tasks[j],
    decreases n,
{
    if n > 0 {
        lemma_resumed_upto_wf(v, group, (n - 1) as nat);
        let s = v.resumed_upto(group, (n - 1) as nat);
        let id = (n - 1) as usize;
        if s.in_group(id, group) && s.in_state(id, TaskState::Suspended) {
            assert(!s.in_state(id, TaskState::Running));
            lemma_made_ready(
                s,
                v.resumed_upto(group, n),
                id,
                s.tasks[id as int].priority.level(),
            );
        }
    }
}

/// The task that holds the CPU is running and waits in no run queue.
pub proof fn lemma_current_not_queued(v: SchedulerView)
    requires
        v.wf(),
    ensures
        v.current matches Some(c) ==> v.in_state(c, TaskState::Running) && !v.queued(c),
{
    if let Some(c) = v.current {
        assert(v.in_state(c, TaskState::Running));
        assert(v.queued(c) <==> v.in_state(c, TaskState::Ready));
    }
}

/// The current task and the run queues together hold exactly the tasks
/// that are neither terminated nor blocked nor suspended.
pub proof fn lemma_scheduled_are_runnable(v: SchedulerView)
    requires
        v.wf(),
    ensures
        v.scheduled() == v.runnable(),
{
    assert forall|id: usize| v.scheduled().contains(id) <==> v.runnable().contains(id) by {
        assert(v.queued(id) <==> v.in_state(id, TaskState::Ready));
        assert(v.current == Some(id) <==> v.in_state(id, TaskState::Running));
    }
    assert(v.scheduled() =~= v.runnable());
}

/// No id waits in two places: an id in the run queue of one level is in
/// that of no other, and holds one place there.
pub proof fn lemma_queued_once(v: SchedulerView, id: usize, l1: int, l2: int)
    requires
        v.wf(),
        0 <= l1 < 3,
        0 <= l2 < 3,
        v.queues[l1].contains(id),
        v.queues[l2].contains(id),
    ensures
        l1 == l2,
        forall|i: int, j: int|
            0 <= i < v.queues[l1].len() && 0 <= j < v.queues[l1].len() && v.queues[l1][i] == id
                && v.queues[l1][j] == id ==> i == j,
{
}

/// Priority is strict: when the CPU passes on, it goes to the first task of
/// the highest level at which a task waits, so no task of a lower level
/// runs while one of a higher level is ready and waiting.
pub proof fn lemma_strict_priority(v: SchedulerView, now: u64)
    requires
        v.wf(),
        v.current is None,
    ensures
        v.top_level() >= 0 ==> v.picked(now).current == Some(v.queues[v.top_level()][0]),
        v.top_level() < 0 ==> v.picked(now).current is None,
        forall|l: int| v.top_level() < l < 3 ==> (#[trigger] v.queues[l]).len() == 0,
        forall|l: int|
            0 <= l < 3 && l != v.top_level() ==>
                (#[trigger] v.picked(now).queues[l]) == v.queues[l],
{
}

/// A yield always passes the CPU on: the task that yields goes to the back
/// of its level with a full quantum, and the first task of the highest
/// non-empty level, which may be the same task, runs next.
pub proof fn lemma_yield_passes_on(v: SchedulerView, now: u64)
    requires
        v.wf(),
        v.current is Some,
    ensures
        ({
            let c = v.current->0;
            let r = v.accounted(now).boosted(now).requeued();
            let level = r.tasks[c as int].priority.level();
            &&& r.current is None
            &&& r.queues[level].last() == c
            &&& r.tasks[c as int].state == TaskState::Ready
            &&& r.tasks[c as int].time_slice == r.tasks[c as int].quantum
            &&& r.top_level() >= level
            &&& v.after_yield(now).current == Some(r.queues[r.top_level()][0])
        }),
{
    let c = v.current->0;
    assert(v.in_state(c, TaskState::Running));
    lemma_accounted_wf(v, now);
    lemma_boosted_wf(v.accounted(now), now);
    let s = v.accounted(now).boosted(now);
    assert(s.in_state(c, TaskState::Running));
}

/// The state after the current task has yielded at each of the ticks
/// `times`, one after the other: whoever holds the CPU then yields next.
pub open spec fn yielded(v: SchedulerView, times: Seq<u64>) -> SchedulerView
    decreases times.len(),
{
    if times.len() == 0 {
        v
    } else {
        yielded(v, times.drop_last()).after_yield(times.last())
    }
}

/// A task of the highest priority that is alone at its level keeps the
/// CPU however often it yields, as long as no deadline raises another
/// task to its level: each time it goes to the back of its level and is
/// picked again at once, and the tasks that wait at the lower levels stay
/// where they are.
pub proof fn lemma_highest_keeps_cpu(v: SchedulerView, times: Seq<u64>, a: usize)
    requires
        v.wf(),
        v.current == Some(a),
        v.tasks[a as int].priority == TaskPriority::High,
        v.queues[2].len() == 0,
        forall|j: int| 0 <= j < v.tasks.len() ==> (#[trigger] v.tasks[j]).deadline is None,
    ensures
        yielded(v, times).wf(),
        forall|j: int|
            0 <= j < v.tasks.len() ==> (#[trigger] yielded(v, times).tasks[j]).deadline is None,
        yielded(v, times).current == Some(a),
        yielded(v, times).tasks.len() == v.tasks.len(),
        yielded(v, times).tasks[a as int].priority == TaskPriority::High,
        yielded(v, times).queues[2].len() == 0,
        yielded(v, times).queues[1] == v.queues[1],
        yielded(v, times).queues[0] == v.queues[0],
    decreases times.len(),
{
    if times.len() > 0 {
        let u = yielded(v, times.drop_last());
        let now = times.last();
        lemma_highest_keeps_cpu(v, times.drop_last(), a);
        assert(u.in_state(a, TaskState::Running));
        lemma_accounted_wf(u, now);
        lemma_boosted_wf(u.accounted(now), now);
        assert forall|j: int| 0 <= j < u.tasks.len() implies !(#[trigger] u.accounted(
            now,
        ).tasks[j]).due(now) by {
            assert(u.tasks[j].deadline is None);
        }
        lemma_boosted_idle(u.accounted(now), now, u.tasks.len());
        let s = u.accounted(now).boosted(now);
        assert(s == u.accounted(now));
        assert(s.in_state(a, TaskState::Running));
        assert(s.tasks[a as int].priority == TaskPriority::High);
        lemma_requeued_wf(s);
        let r = s.requeued();
        assert(r.queues[2] =~= seq![a]);
        assert(r.top_level() == 2);
        lemma_picked_wf(r, now);
        let w = r.picked(now);
        assert(w.queues[2] =~= Seq::<usize>::empty());
        assert(w.queues[1] == u.queues[1]);
        assert(w.queues[0] == u.queues[0]);
    }
}

/// After a group was suspended and resumed, every member that has not
/// terminated is ready, and the tasks outside the group are as before.
pub proof fn lemma_suspend_resume_group(v: SchedulerView, group: usize)
    requires
        v.wf(),
    ensures
        ({
            let w = v.group_suspended(group).group_resumed(group);
            &&& w.wf()
            &&& w.tasks.len() == v.tasks.len()
            &&& forall|id: usize|
                #![trigger w.tasks[id as int]]
                v.in_group(id, group) && !v.in_state(id, TaskState::Terminated) ==> w.in_state(
                    id,
                    TaskState::Ready,
                )
            &&& forall|id: usize|
                #![trigger w.tasks[id as int]]
                id < v.tasks.len() && !v.in_group(id, group) ==> w.tasks[id as int]
                    == v.tasks[id as int]
        }),
{
    let s = v.group_suspended(group);
    lemma_group_suspended_wf(v, group);
    lemma_resumed_members(s, group, s.tasks.len());
    lemma_resumed_upto_wf(s, group, s.tasks.len());
}

/// Whether task `i` has in `w` the priority and the base priority that
/// it has in `v`.
pub open spec fn same_priorities(v: SchedulerView, w: SchedulerView, i: int) -> bool {
    &&& w.tasks.len() == v.tasks.len()
    &&& w.tasks[i].priority == v.tasks[i].priority
    &&& w.tasks[i].base_priority == v.tasks[i].base_priority
}

/// The parts of which the steps of the scheduler are made change no
/// priority, but for the deadline check.
pub proof fn lemma_parts_keep_priorities(v: SchedulerView, now: u64, i: int)
    requires
        v.wf(),
        0 <= i < v.tasks.len(),
    ensures
        same_priorities(v, v.accounted(now), i),
        v.accounted(now).tasks[i].due(now) == v.tasks[i].due(now),
        same_priorities(v, v.ticked(), i),
        same_priorities(v, v.requeued(), i),
        same_priorities(v, v.blocked(), i),
        v.current is None ==> same_priorities(v, v.picked(now), i),
        v.boosted(now).tasks.len() == v.tasks.len(),
        v.boosted(now).tasks[i] == SchedulerView::boost(v.tasks[i], now),
{
    lemma_boosted_wf(v, now);
    if let Some(c) = v.current {
        assert(v.in_state(c, TaskState::Running));
    }
    let level = v.top_level();
    if level >= 0 {
        let id = v.queues[level][0];
        assert(v.queues[level].contains(id));
        assert(v.queued(id));
        assert(v.in_state(id, TaskState::Ready));
    }
}

/// The priority that a task was created with never changes: no step of
/// the scheduler touches it. And the priority of a task only rises: a
/// scheduling tick, a yield and a block raise the priority of the tasks
/// that are due and leave the others alone; waking, suspending and
/// resuming change no priority; and only a reset takes a task back, to the
/// priority that it was created with.
pub proof fn lemma_priorities(v: SchedulerView, now: u64, id: usize, group: usize, i: int)
    requires
        v.wf(),
        0 <= i < v.tasks.len(),
    ensures
        ({
            let risen = SchedulerView::boost(v.tasks[i], now);
            &&& risen.base_priority == v.tasks[i].base_priority
            &&& risen.priority.level() >= v.tasks[i].priority.level()
            &&& v.after_schedule(now).tasks.len() == v.tasks.len()
            &&& v.after_schedule(now).tasks[i].priority == risen.priority
            &&& v.after_schedule(now).tasks[i].base_priority == risen.base_priority
            &&& v.after_yield(now).tasks.len() == v.tasks.len()
            &&& v.after_yield(now).tasks[i].priority == risen.priority
            &&& v.after_yield(now).tasks[i].base_priority == risen.base_priority
            &&& v.after_block(now).tasks.len() == v.tasks.len()
            &&& v.after_block(now).tasks[i].priority == risen.priority
            &&& v.after_block(now).tasks[i].base_priority == risen.base_priority
        }),
        same_priorities(v, v.unblocked(id), i),
        same_priorities(v, v.group_suspended(group), i),
        same_priorities(v, v.group_resumed(group), i),
        v.priority_reset(id).tasks.len() == v.tasks.len(),
        v.priority_reset(id).tasks[i].base_priority == v.tasks[i].base_priority,
        v.priority_reset(id).tasks[i].priority == (if i == id {
            v.tasks[i].base_priority
        } else {
            v.tasks[i].priority
        }),
{
    lemma_resumed_members(v, group, v.tasks.len());
    let a = v.accounted(now);
    lemma_accounted_wf(v, now);
    lemma_parts_keep_priorities(v, now, i);
    let s = a.boosted(now);
    lemma_boosted_wf(a, now);
    lemma_parts_keep_priorities(a, now, i);
    lemma_parts_keep_priorities(s, now, i);
    lemma_requeued_wf(s);
    lemma_parts_keep_priorities(s.requeued(), now, i);
    lemma_blocked_wf(s);
    lemma_parts_keep_priorities(s.blocked(), now, i);
}

/// What resuming the members among the first `n` tasks does to each task.
pub proof fn lemma_resumed_members(v: SchedulerView, group: usize, n: nat)
    requires
        v.wf(),
        n <= v.tasks.len(),
    ensures
        v.resumed_upto(group, n).tasks.len() == v.tasks.len(),
        forall|j: int|
            0 <= j < v.tasks.len() ==> (#[trigger] v.resumed_upto(group, n).tasks[j]) == (if j < n
                && v.tasks[j].group_id == Some(group) {
                Task { state: v.tasks[j].resumed_state(), ..v.tasks[j] }
            } else {
                v.tasks[j]
            }),
    decreases n,
{
    if n > 0 {
        lemma_resumed_members(v, group, (n - 1) as nat);
    }
}

} // verus!
