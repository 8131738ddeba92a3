//! The scheduler: three FIFO run queues by priority, the task that holds the
//! CPU, and the rules by which the CPU passes on.

use std::collections::VecDeque;
use vstd::prelude::*;
use crate::task::{Task, TaskPriority, TaskState, TaskStatistics};
use crate::task::laws::{
    lemma_accounted_wf, lemma_block_wf, lemma_blocked_wf, lemma_boosted_wf, lemma_empty_wf,
    lemma_filter_take, lemma_group_suspended_wf, lemma_priority_reset_wf, lemma_requeued_wf,
    lemma_resumed_upto_wf, lemma_same_states, lemma_schedule_wf, lemma_spawned_wf,
    lemma_unblocked_wf, lemma_yield_wf,
};

verus! {

/// The number of priority levels, and of run queues.
pub const LEVELS: usize = 3;

/// Whether an id is another one than `id`.
pub open spec fn other_than(id: usize) -> spec_fn(usize) -> bool {
    |x: usize| x != id
}

/// The state of the scheduler as mathematics: the registry of all tasks,
/// where a task's id is its index; for each priority level the queue of ids
/// that wait for the CPU, the next one first; and the id of the task that
/// holds the CPU.
pub struct SchedulerView {
    pub tasks: Seq<Task>,
    pub queues: Seq<Seq<usize>>,
    pub current: Option<usize>,
}

impl SchedulerView {
    /// Whether `id` waits in some run queue.
    pub open spec fn queued(self, id: usize) -> bool {
        self.queues[0].contains(id) || self.queues[1].contains(id) || self.queues[2].contains(id)
    }

    /// Whether `id` is a task in state `state`.
    pub open spec fn in_state(self, id: usize, state: TaskState) -> bool {
        id < self.tasks.len() && self.tasks[id as int].state == state
    }

    /// Whether `id` is a task of group `group`.
    pub open spec fn in_group(self, id: usize, group: usize) -> bool {
        id < self.tasks.len() && self.tasks[id as int].group_id == Some(group)
    }

    /// The invariant of the scheduler:
    /// - a task's id is its index in the registry, and each task has a
    ///   positive time slice within its quantum;
    /// - no id occurs twice in the run queues, neither within one queue nor
    ///   in two;
    /// - a task that waits, waits in the run queue of its priority;
    /// - the run queues hold exactly the ready tasks;
    /// - the task that holds the CPU is the one running task.
    pub open spec fn wf(self) -> bool {
        &&& self.queues.len() == LEVELS
        &&& forall|i: int|
            0 <= i < self.tasks.len() ==> (#[trigger] self.tasks[i]).id == i && self.tasks[i].wf()
        &&& self.queues[0].no_duplicates()
        &&& self.queues[1].no_duplicates()
        &&& self.queues[2].no_duplicates()
        &&& forall|id: usize|
            !(#[trigger] self.queues[0].contains(id) && #[trigger] self.queues[1].contains(id))
        &&& forall|id: usize|
            !(#[trigger] self.queues[0].contains(id) && #[trigger] self.queues[2].contains(id))
        &&& forall|id: usize|
            !(#[trigger] self.queues[1].contains(id) && #[trigger] self.queues[2].contains(id))
        &&& self.placed()
        &&& forall|id: usize|
            #![trigger self.queued(id)]
            #![trigger self.in_state(id, TaskState::Ready)]
            self.queued(id) <==> self.in_state(id, TaskState::Ready)
        &&& forall|id: usize|
            #![trigger self.in_state(id, TaskState::Running)]
            self.current == Some(id) <==> self.in_state(id, TaskState::Running)
    }

    /// Whether every id in a run queue is a task of the priority of that queue.
    pub open spec fn placed(self) -> bool {
        forall|l: int, id: usize|
            0 <= l < 3 && #[trigger] self.queues[l].contains(id) ==> id < self.tasks.len()
                && self.tasks[id as int].priority.level() == l
    }

    /// The ids that the scheduler holds for the CPU: the current task and
    /// the members of the run queues.
    pub open spec fn scheduled(self) -> Set<usize> {
        Set::new(|id: usize| self.current == Some(id) || self.queued(id))
    }

    /// The ids of the tasks that are ready or running: all tasks but the
    /// terminated, the blocked and the suspended.
    pub open spec fn runnable(self) -> Set<usize> {
        Set::new(|id: usize| id < self.tasks.len() && self.tasks[id as int].runnable())
    }

    /// The scheduler without tasks.
    pub open spec fn empty() -> SchedulerView {
        SchedulerView {
            tasks: Seq::empty(),
            queues: seq![Seq::empty(), Seq::empty(), Seq::empty()],
            current: None,
        }
    }

    /// `id` appended to the run queue of `level`.
    pub open spec fn enqueued(self, level: int, id: usize) -> SchedulerView {
        SchedulerView { queues: self.queues.update(level, self.queues[level].push(id)), ..self }
    }

    /// The new task `task` registered and appended to the run queue of its priority.
    pub open spec fn spawned(self, task: Task) -> SchedulerView {
        SchedulerView { tasks: self.tasks.push(task), ..self }.enqueued(
            task.priority.level(),
            task.id,
        )
    }

    /// The statistics of the current task brought up to the tick `now`.
    pub open spec fn accounted(self, now: u64) -> SchedulerView {
        match self.current {
            Some(c) => SchedulerView {
                tasks: self.tasks.update(
                    c as int,
                    Task { stats: self.tasks[c as int].stats.accounted(now), ..self.tasks[c as int] },
                ),
                ..self
            },
            None => self,
        }
    }

    /// Task `t` after the deadline check at `now`: a ready task whose
    /// deadline has passed moves up one priority level.
    pub open spec fn boost(t: Task, now: u64) -> Task {
        if t.due(now) {
            Task { priority: t.priority.raised(), ..t }
        } else {
            t
        }
    }

    /// Task `id` given the priority `priority`. A task that waits leaves
    /// the run queue of its old priority and joins the back of the run
    /// queue of the new one; with the priority that it has, it stays where
    /// it is.
    pub open spec fn reprioritized(self, id: usize, priority: TaskPriority) -> SchedulerView {
        let t = self.tasks[id as int];
        let tasks = self.tasks.update(id as int, Task { priority, ..t });
        if t.state == TaskState::Ready && t.priority != priority {
            let from = t.priority.level();
            let to = priority.level();
            SchedulerView {
                tasks,
                queues: self.queues.update(from, self.queues[from].filter(other_than(id))).update(
                    to,
                    self.queues[to].push(id),
                ),
                ..self
            }
        } else {
            SchedulerView { tasks, ..self }
        }
    }

    /// The state after the deadline check at `now` of the first `n` tasks,
    /// in the order of their ids: each task that is due moves up one
    /// priority level, and to the back of the run queue of that level.
    pub open spec fn boosted_upto(self, now: u64, n: nat) -> SchedulerView
        decreases n,
    {
        if n == 0 {
            self
        } else {
            let s = self.boosted_upto(now, (n - 1) as nat);
            let id = (n - 1) as usize;
            if s.tasks[id as int].due(now) {
                s.reprioritized(id, s.tasks[id as int].priority.raised())
            } else {
                s
            }
        }
    }

    /// The state after the deadline check at `now` of every task.
    pub open spec fn boosted(self, now: u64) -> SchedulerView {
        self.boosted_upto(now, self.tasks.len())
    }

    /// The current task with one tick less in its time slice.
    pub open spec fn ticked(self) -> SchedulerView {
        match self.current {
            Some(c) => SchedulerView {
                tasks: self.tasks.update(
                    c as int,
                    Task { time_slice: self.tasks[c as int].ticked(), ..self.tasks[c as int] },
                ),
                ..self
            },
            None => self,
        }
    }

    /// The current task made ready, given a full quantum and appended to the
    /// run queue of its priority; nobody holds the CPU.
    pub open spec fn requeued(self) -> SchedulerView {
        match self.current {
            Some(c) => SchedulerView {
                tasks: self.tasks.update(
                    c as int,
                    Task {
                        state: TaskState::Ready,
                        time_slice: self.tasks[c as int].quantum,
                        ..self.tasks[c as int]
                    },
                ),
                current: None,
                ..self
            }.enqueued(self.tasks[c as int].priority.level(), c),
            None => self,
        }
    }

    /// The highest level whose run queue is not empty; -1 if all are empty.
    pub open spec fn top_level(self) -> int {
        if self.queues[2].len() > 0 {
            2
        } else if self.queues[1].len() > 0 {
            1
        } else if self.queues[0].len() > 0 {
            0
        } else {
            -1
        }
    }

    /// The first task of the highest non-empty run queue taken out, marked
    /// running as of tick `now` and given the CPU. With all queues empty
    /// nothing changes.
    pub open spec fn picked(self, now: u64) -> SchedulerView {
        let level = self.top_level();
        if level < 0 {
            self
        } else {
            let id = self.queues[level][0];
            SchedulerView {
                tasks: self.tasks.update(
                    id as int,
                    Task {
                        state: TaskState::Running,
                        stats: TaskStatistics {
                            last_scheduled: Some(now),
                            ..self.tasks[id as int].stats
                        },
                        ..self.tasks[id as int]
                    },
                ),
                queues: self.queues.update(level, self.queues[level].drop_first()),
                current: Some(id),
            }
        }
    }

    /// Whether the current task keeps the CPU at the next tick: its time
    /// slice is not used up by it.
    pub open spec fn keeps_cpu(self) -> bool {
        self.current matches Some(c) && self.tasks[c as int].time_slice > 1
    }

    /// The state after a scheduling tick at `now`. The current task is
    /// accounted for, each waiting task whose deadline has passed moves up
    /// one priority level and to the back of the run queue of that level,
    /// and the tick is taken from the time slice of the current task. If
    /// something of the slice is left,
    /// the task keeps the CPU. Otherwise it goes to the back of the queue
    /// of its priority with a full quantum, and the first task of the
    /// highest non-empty queue gets the CPU.
    pub open spec fn after_schedule(self, now: u64) -> SchedulerView {
        let s = self.accounted(now).boosted(now);
        if s.keeps_cpu() {
            s.ticked()
        } else {
            s.requeued().picked(now)
        }
    }

    /// The state after the current task yields at `now`: as a scheduling
    /// tick, but the task gives up what is left of its time slice.
    pub open spec fn after_yield(self, now: u64) -> SchedulerView {
        self.accounted(now).boosted(now).requeued().picked(now)
    }

    /// The current task marked blocked and taken off the CPU.
    pub open spec fn blocked(self) -> SchedulerView {
        match self.current {
            Some(c) => SchedulerView {
                tasks: self.tasks.update(
                    c as int,
                    Task { state: TaskState::Blocked, ..self.tasks[c as int] },
                ),
                current: None,
                ..self
            },
            None => self,
        }
    }

    /// The state after the current task blocks at `now`: it is accounted
    /// for and marked blocked, due tasks move up as at a scheduling tick,
    /// and the first task of the highest non-empty queue gets the CPU.
    pub open spec fn after_block(self, now: u64) -> SchedulerView {
        self.accounted(now).boosted(now).blocked().picked(now)
    }

    /// Task `id` back at the priority that it was created with. If it
    /// waits at another level, it moves to the back of the run queue of
    /// that priority.
    pub open spec fn priority_reset(self, id: usize) -> SchedulerView {
        if id < self.tasks.len() {
            self.reprioritized(id, self.tasks[id as int].base_priority)
        } else {
            self
        }
    }

    /// Task `id`, if it is blocked, made ready and appended to the run queue
    /// of its priority; otherwise nothing changes.
    pub open spec fn unblocked(self, id: usize) -> SchedulerView {
        if self.in_state(id, TaskState::Blocked) {
            SchedulerView {
                tasks: self.tasks.update(
                    id as int,
                    Task { state: TaskState::Ready, ..self.tasks[id as int] },
                ),
                ..self
            }.enqueued(self.tasks[id as int].priority.level(), id)
        } else {
            self
        }
    }

    /// Task `t` after its group `group` was suspended.
    pub open spec fn suspend(t: Task, group: usize) -> Task {
        if t.group_id == Some(group) {
            Task { state: t.suspended_state(), ..t }
        } else {
            t
        }
    }

    /// The state after group `group` was suspended: every member that has
    /// not terminated is suspended, the members leave the run queues, and a
    /// member that held the CPU gives it up.
    pub open spec fn group_suspended(self, group: usize) -> SchedulerView {
        SchedulerView {
            tasks: Seq::new(self.tasks.len(), |i: int| Self::suspend(self.tasks[i], group)),
            queues: Seq::new(
                LEVELS as nat,
                |l: int| self.queues[l].filter(|id: usize| !self.in_group(id, group)),
            ),
            current: match self.current {
                Some(c) => if self.in_group(c, group) {
                    None
                } else {
                    Some(c)
                },
                None => None,
            },
        }
    }

    /// The state after the members of `group` among the first `n` tasks
    /// were resumed, in the order of their ids: each suspended member is
    /// made ready and appended to the run queue of its priority.
    pub open spec fn resumed_upto(self, group: usize, n: nat) -> SchedulerView
        decreases n,
    {
        if n == 0 {
            self
        } else {
            let s = self.resumed_upto(group, (n - 1) as nat);
            let id = (n - 1) as usize;
            if s.in_group(id, group) && s.in_state(id, TaskState::Suspended) {
                SchedulerView {
                    tasks: s.tasks.update(
                        id as int,
                        Task { state: TaskState::Ready, ..s.tasks[id as int] },
                    ),
                    ..s
                }.enqueued(s.tasks[id as int].priority.level(), id)
            } else {
                s
            }
        }
    }

    /// The state after group `group` was resumed.
    pub open spec fn group_resumed(self, group: usize) -> SchedulerView {
        self.resumed_upto(group, self.tasks.len())
    }
}

/// The scheduler.
pub struct Scheduler {
    tasks: Vec<Task>,
    low: VecDeque<usize>,
    normal: VecDeque<usize>,
    high: VecDeque<usize>,
    current: Option<usize>,
}

impl View for Scheduler {
    type V = SchedulerView;

    closed spec fn view(&self) -> SchedulerView {
        SchedulerView {
            tasks: self.tasks@,
            queues: seq![self.low@, self.normal@, self.high@],
            current: self.current,
        }
    }
}

impl Scheduler {
    /// The invariant: see `SchedulerView::wf`.
    pub open spec fn wf(&self) -> bool {
        self@.wf()
    }

    pub fn new() -> (r: Self)
        ensures
            r@ == SchedulerView::empty(),
            r.wf(),
    {
        let r = Scheduler {
            tasks: Vec::new(),
            low: VecDeque::new(),
            normal: VecDeque::new(),
            high: VecDeque::new(),
            current: None,
        };
        assert(r@.queues =~= SchedulerView::empty().queues);
        proof {
            lemma_empty_wf();
        }
        r
    }

    /// The id of the task that holds the CPU.
    pub fn current(&self) -> (r: Option<usize>)
        ensures
            r == self@.current,
    {
        self.current
    }

    /// The number of tasks ever spawned; the next task gets this id.
    pub fn task_count(&self) -> (r: usize)
        ensures
            r == self@.tasks.len(),
    {
        self.tasks.len()
    }

    /// Task `id`, if there is one.
    pub fn task(&self, id: usize) -> (r: Option<&Task>)
        ensures
            r is Some <==> id < self@.tasks.len(),
            r matches Some(t) ==> *t == self@.tasks[id as int],
    {
        if id < self.tasks.len() {
            Some(&self.tasks[id])
        } else {
            None
        }
    }

    /// The number of tasks that wait at `priority`.
    pub fn queue_len(&self, priority: TaskPriority) -> (r: usize)
        ensures
            r == self@.queues[priority.level()].len(),
    {
        match priority {
            TaskPriority::Low => self.low.len(),
            TaskPriority::Normal => self.normal.len(),
            TaskPriority::High => self.high.len(),
        }
    }

    /// The ids that wait at `priority`, the next one first.
    pub fn queued(&self, priority: TaskPriority) -> (r: Vec<usize>)
        ensures
            r@ == self@.queues[priority.level()],
    {
        let queue = match priority {
            TaskPriority::Low => &self.low,
            TaskPriority::Normal => &self.normal,
            TaskPriority::High => &self.high,
        };
        let mut out: Vec<usize> = Vec::new();
        let mut i: usize = 0;
        while i < queue.len()
            invariant
                i <= queue@.len(),
                out@ == queue@.take(i as int),
            decreases queue@.len() - i,
        {
            out.push(queue[i]);
            assert(queue@.take(i + 1) =~= queue@.take(i as int).push(queue@[i as int]));
            i = i + 1;
        }
        assert(queue@.take(queue@.len() as int) =~= queue@);
        out
    }

    fn enqueue(&mut self, priority: TaskPriority, id: usize)
        ensures
            final(self)@ == old(self)@.enqueued(priority.level(), id),
    {
        match priority {
            TaskPriority::Low => self.low.push_back(id),
            TaskPriority::Normal => self.normal.push_back(id),
            TaskPriority::High => self.high.push_back(id),
        }
        assert(self@.queues =~= old(self)@.enqueued(priority.level(), id).queues);
    }

    fn register(&mut self, task: Task)
        requires
            old(self).wf(),
            task.id == old(self)@.tasks.len(),
            task.state == TaskState::Ready,
            task.wf(),
        ensures
            final(self)@ == old(self)@.spawned(task),
            final(self).wf(),
    {
        let id = task.id;
        let priority = task.priority;
        proof {
            lemma_spawned_wf(self@, task);
        }
        self.tasks.push(task);
        self.enqueue(priority, id);
    }

    /// Creates a task of normal priority and appends it to the normal run
    /// queue. The answer is its id.
    pub fn spawn(&mut self, entry_point: usize, stack_top: usize, now: u64) -> (id: usize)
        requires
            old(self).wf(),
        ensures
            final(self).wf(),
            id == old(self)@.tasks.len(),
            final(self)@ == old(self)@.spawned(final(self)@.tasks[id as int]),
            final(self)@.tasks[id as int].fresh(
                id,
                entry_point,
                stack_top,
                TaskPriority::Normal,
                now,
            ),
    {
        self.spawn_with_priority(entry_point, stack_top, TaskPriority::Normal, now)
    }

    /// Creates a task of the given priority and appends it to the run queue
    /// of that priority. The answer is its id.
    pub fn spawn_with_priority(
        &mut self,
        entry_point: usize,
        stack_top: usize,
        priority: TaskPriority,
        now: u64,
    ) -> (id: usize)
        requires
            old(self).wf(),
        ensures
            final(self).wf(),
            id == old(self)@.tasks.len(),
            final(self)@ == old(self)@.spawned(final(self)@.tasks[id as int]),
            final(self)@.tasks[id as int].fresh(id, entry_point, stack_top, priority, now),
    {
        let id = self.tasks.len();
        let task = Task::with_priority(id, entry_point, stack_top, priority, now);
        self.register(task);
        id
    }

    /// Creates a task of normal priority that is due after tick `deadline`.
    pub fn spawn_with_deadline(
        &mut self,
        entry_point: usize,
        stack_top: usize,
        deadline: u64,
        now: u64,
    ) -> (id: usize)
        requires
            old(self).wf(),
        ensures
            final(self).wf(),
            id == old(self)@.tasks.len(),
            final(self)@ == old(self)@.spawned(final(self)@.tasks[id as int]),
            final(self)@.tasks[id as int].deadline == Some(deadline),
            (Task { deadline: None, ..final(self)@.tasks[id as int] }).fresh(
                id,
                entry_point,
                stack_top,
                TaskPriority::Normal,
                now,
            ),
    {
        let id = self.tasks.len();
        let mut task = Task::new(id, entry_point, stack_top, now);
        task.set_deadline(deadline);
        self.register(task);
        id
    }

    /// Creates a task of normal priority as a member of group `group_id`.
    pub fn spawn_in_group(
        &mut self,
        entry_point: usize,
        stack_top: usize,
        group_id: usize,
        now: u64,
    ) -> (id: usize)
        requires
            old(self).wf(),
        ensures
            final(self).wf(),
            id == old(self)@.tasks.len(),
            final(self)@ == old(self)@.spawned(final(self)@.tasks[id as int]),
            final(self)@.tasks[id as int].group_id == Some(group_id),
            (Task { group_id: None, ..final(self)@.tasks[id as int] }).fresh(
                id,
                entry_point,
                stack_top,
                TaskPriority::Normal,
                now,
            ),
    {
        let id = self.tasks.len();
        let mut task = Task::new(id, entry_point, stack_top, now);
        task.set_group(group_id);
        self.register(task);
        id
    }

    fn account(&mut self, now: u64)
        requires
            old(self).wf(),
        ensures
            final(self)@ == old(self)@.accounted(now),
    {
        match self.current {
            Some(c) => {
                assert(self@.in_state(c, TaskState::Running));
                self.tasks[c].stats.account(now);
                assert(self@.tasks =~= old(self)@.accounted(now).tasks);
            },
            None => {},
        }
    }

    fn without_id(queue: &VecDeque<usize>, id: usize) -> (r: VecDeque<usize>)
        ensures
            r@ == queue@.filter(other_than(id)),
    {
        let ghost keep = other_than(id);
        let mut out: VecDeque<usize> = VecDeque::new();
        let n = queue.len();
        let mut i: usize = 0;
        assert(queue@.take(0).filter(keep) =~= Seq::<usize>::empty()) by {
            reveal(Seq::filter);
        }
        while i < n
            invariant
                i <= n,
                n == queue@.len(),
                keep == other_than(id),
                out@ == queue@.take(i as int).filter(keep),
            decreases n - i,
        {
            let x = queue[i];
            proof {
                lemma_filter_take(queue@, keep, i as int);
            }
            if x != id {
                out.push_back(x);
            }
            i = i + 1;
        }
        assert(queue@.take(n as int) == queue@);
        out
    }

    fn reprioritize(&mut self, id: usize, priority: TaskPriority)
        requires
            id < old(self).tasks@.len(),
        ensures
            final(self)@ == old(self)@.reprioritized(id, priority),
    {
        let before = self.tasks[id].priority;
        let waits = self.tasks[id].state == TaskState::Ready;
        self.tasks[id].priority = priority;
        if waits && before.index() != priority.index() {
            match before {
                TaskPriority::Low => {
                    let rest = Self::without_id(&self.low, id);
                    self.low = rest;
                },
                TaskPriority::Normal => {
                    let rest = Self::without_id(&self.normal, id);
                    self.normal = rest;
                },
                TaskPriority::High => {
                    let rest = Self::without_id(&self.high, id);
                    self.high = rest;
                },
            }
            match priority {
                TaskPriority::Low => self.low.push_back(id),
                TaskPriority::Normal => self.normal.push_back(id),
                TaskPriority::High => self.high.push_back(id),
            }
        }
        assert(self@.tasks =~= old(self)@.reprioritized(id, priority).tasks);
        assert(self@.queues =~= old(self)@.reprioritized(id, priority).queues);
    }

    fn boost_due(&mut self, now: u64)
        ensures
            final(self)@ == old(self)@.boosted(now),
    {
        let n = self.tasks.len();
        let mut i: usize = 0;
        while i < n
            invariant
                i <= n,
                n == self.tasks@.len(),
                n == old(self).tasks@.len(),
                self@ == old(self)@.boosted_upto(now, i as nat),
            decreases n - i,
        {
            let due = match self.tasks[i].deadline {
                Some(d) => self.tasks[i].state == TaskState::Ready && now > d,
                None => false,
            };
            if due {
                let raised = match self.tasks[i].priority {
                    TaskPriority::Low => TaskPriority::Normal,
                    TaskPriority::Normal => TaskPriority::High,
                    TaskPriority::High => TaskPriority::High,
                };
                self.reprioritize(i, raised);
            }
            i = i + 1;
        }
    }

    fn requeue_current(&mut self)
        requires
            old(self).wf(),
        ensures
            final(self)@ == old(self)@.requeued(),
    {
        match self.current {
            Some(c) => {
                assert(self@.in_state(c, TaskState::Running));
                self.tasks[c].state = TaskState::Ready;
                self.tasks[c].reset_time_slice();
                let priority = self.tasks[c].priority;
                self.current = None;
                self.enqueue(priority, c);
                assert(self@.tasks =~= old(self)@.requeued().tasks);
            },
            None => {},
        }
    }

    fn pick_next(&mut self, now: u64)
        requires
            old(self).wf(),
            old(self)@.current is None,
        ensures
            final(self)@ == old(self)@.picked(now),
    {
        let next = if self.high.len() > 0 {
            self.high.pop_front()
        } else if self.normal.len() > 0 {
            self.normal.pop_front()
        } else {
            self.low.pop_front()
        };
        match next {
            Some(id) => {
                let ghost level = old(self)@.top_level();
                assert(old(self)@.queues[level].contains(id));
                assert(old(self)@.queued(id));
                assert(old(self)@.in_state(id, TaskState::Ready));
                self.tasks[id].state = TaskState::Running;
                self.tasks[id].stats.last_scheduled = Some(now);
                self.current = Some(id);
                assert(self@.queues =~= old(self)@.picked(now).queues);
                assert(self@.tasks =~= old(self)@.picked(now).tasks);
            },
            None => {},
        }
    }

    /// A scheduling tick at `now`: see `SchedulerView::after_schedule`. The
    /// answer is the task that holds the CPU afterwards.
    pub fn schedule(&mut self, now: u64) -> (r: Option<usize>)
        requires
            old(self).wf(),
        ensures
            final(self).wf(),
            final(self)@ == old(self)@.after_schedule(now),
            r == final(self)@.current,
    {
        proof {
            lemma_schedule_wf(self@, now);
            lemma_accounted_wf(self@, now);
            lemma_boosted_wf(self@.accounted(now), now);
        }
        self.account(now);
        self.boost_due(now);
        let keeps = match self.current {
            Some(c) => {
                assert(self@.in_state(c, TaskState::Running));
                self.tasks[c].time_slice > 1
            },
            None => false,
        };
        if keeps {
            let c = self.current.unwrap();
            let _ = self.tasks[c].decrement_time_slice();
            assert(self@.tasks =~= old(self)@.after_schedule(now).tasks);
        } else {
            proof {
                lemma_requeued_wf(self@);
            }
            self.requeue_current();
            self.pick_next(now);
        }
        self.current
    }

    /// The current task yields at `now`: see `SchedulerView::after_yield`.
    /// The answer is the task that holds the CPU afterwards.
    pub fn yield_now(&mut self, now: u64) -> (r: Option<usize>)
        requires
            old(self).wf(),
        ensures
            final(self).wf(),
            final(self)@ == old(self)@.after_yield(now),
            r == final(self)@.current,
    {
        proof {
            lemma_yield_wf(self@, now);
            lemma_accounted_wf(self@, now);
            lemma_boosted_wf(self@.accounted(now), now);
            lemma_requeued_wf(self@.accounted(now).boosted(now));
        }
        self.account(now);
        self.boost_due(now);
        self.requeue_current();
        self.pick_next(now);
        self.current
    }

    /// The current task blocks at `now`: see `SchedulerView::after_block`.
    /// The answer is the task that holds the CPU afterwards.
    pub fn block_current(&mut self, now: u64) -> (r: Option<usize>)
        requires
            old(self).wf(),
        ensures
            final(self).wf(),
            final(self)@ == old(self)@.after_block(now),
            r == final(self)@.current,
    {
        proof {
            lemma_block_wf(self@, now);
            lemma_accounted_wf(self@, now);
            lemma_boosted_wf(self@.accounted(now), now);
            lemma_blocked_wf(self@.accounted(now).boosted(now));
        }
        self.account(now);
        self.boost_due(now);
        match self.current {
            Some(c) => {
                assert(self@.in_state(c, TaskState::Running));
                self.tasks[c].state = TaskState::Blocked;
                self.current = None;
                assert(self@.tasks =~= old(self)@.accounted(now).boosted(now).blocked().tasks);
            },
            None => {},
        }
        self.pick_next(now);
        self.current
    }

    /// Makes the blocked task `id` ready and appends it to the run queue of
    /// its priority. A task that is not blocked, or an id that names no
    /// task, changes nothing.
    pub fn unblock_task(&mut self, id: usize)
        requires
            old(self).wf(),
        ensures
            final(self).wf(),
            final(self)@ == old(self)@.unblocked(id),
    {
        proof {
            lemma_unblocked_wf(self@, id);
        }
        if id < self.tasks.len() && self.tasks[id].state == TaskState::Blocked {
            self.tasks[id].state = TaskState::Ready;
            let priority = self.tasks[id].priority;
            self.enqueue(priority, id);
            assert(self@.tasks =~= old(self)@.unblocked(id).tasks);
        }
    }

    /// Ends a deadline boost: task `id` returns to the priority that it
    /// was created with, and if it waits, to the back of the run queue of
    /// that priority. An id that names no task changes nothing.
    pub fn reset_priority(&mut self, id: usize)
        requires
            old(self).wf(),
        ensures
            final(self).wf(),
            final(self)@ == old(self)@.priority_reset(id),
    {
        proof {
            lemma_priority_reset_wf(self@, id);
        }
        if id < self.tasks.len() {
            let base = self.tasks[id].base_priority;
            self.reprioritize(id, base);
        }
    }

    fn without_group(&self, queue: &VecDeque<usize>, group: usize) -> (r: VecDeque<usize>)
        requires
            forall|i: int| 0 <= i < queue@.len() ==> queue@[i] < self.tasks@.len(),
        ensures
            r@ == queue@.filter(|id: usize| !self@.in_group(id, group)),
    {
        let ghost keep = |id: usize| !self@.in_group(id, group);
        let mut out: VecDeque<usize> = VecDeque::new();
        let n = queue.len();
        let mut i: usize = 0;
        assert(queue@.take(0).filter(keep) =~= Seq::<usize>::empty()) by {
            reveal(Seq::filter);
        }
        while i < n
            invariant
                i <= n,
                n == queue@.len(),
                keep == (|id: usize| !self@.in_group(id, group)),
                forall|j: int| 0 <= j < queue@.len() ==> queue@[j] < self.tasks@.len(),
                out@ == queue@.take(i as int).filter(keep),
            decreases n - i,
        {
            let id = queue[i];
            let member = match self.tasks[id].group_id {
                Some(g) => g == group,
                None => false,
            };
            proof {
                lemma_filter_take(queue@, keep, i as int);
            }
            if !member {
                out.push_back(id);
            }
            i = i + 1;
        }
        assert(queue@.take(n as int) == queue@);
        out
    }

    /// Suspends group `group_id`: see `SchedulerView::group_suspended`.
    pub fn suspend_group(&mut self, group_id: usize)
        requires
            old(self).wf(),
        ensures
            final(self).wf(),
            final(self)@ == old(self)@.group_suspended(group_id),
    {
        proof {
            lemma_group_suspended_wf(self@, group_id);
            assert forall|i: int| 0 <= i < self.low@.len() implies self.low@[i]
                < self.tasks@.len() by {
                assert(self@.queues[0].contains(self.low@[i]));
                assert(self@.queued(self.low@[i]));
                assert(self@.in_state(self.low@[i], TaskState::Ready));
            }
            assert forall|i: int| 0 <= i < self.normal@.len() implies self.normal@[i]
                < self.tasks@.len() by {
                assert(self@.queues[1].contains(self.normal@[i]));
                assert(self@.queued(self.normal@[i]));
                assert(self@.in_state(self.normal@[i], TaskState::Ready));
            }
            assert forall|i: int| 0 <= i < self.high@.len() implies self.high@[i]
                < self.tasks@.len() by {
                assert(self@.queues[2].contains(self.high@[i]));
                assert(self@.queued(self.high@[i]));
                assert(self@.in_state(self.high@[i], TaskState::Ready));
            }
        }
        let low = self.without_group(&self.low, group_id);
        let normal = self.without_group(&self.normal, group_id);
        let high = self.without_group(&self.high, group_id);
        let current = match self.current {
            Some(c) => {
                assert(self@.in_state(c, TaskState::Running));
                match self.tasks[c].group_id {
                    Some(g) => if g == group_id {
                        None
                    } else {
                        Some(c)
                    },
                    None => Some(c),
                }
            },
            None => None,
        };
        self.low = low;
        self.normal = normal;
        self.high = high;
        self.current = current;
        let n = self.tasks.len();
        let mut i: usize = 0;
        while i < n
            invariant
                i <= n,
                n == self.tasks@.len(),
                n == old(self).tasks@.len(),
                self.low == low,
                self.normal == normal,
                self.high == high,
                self.current == current,
                forall|j: int|
                    0 <= j < i ==> self.tasks@[j] == SchedulerView::suspend(
                        old(self).tasks@[j],
                        group_id,
                    ),
                forall|j: int| i <= j < n ==> self.tasks@[j] == old(self).tasks@[j],
            decreases n - i,
        {
            let member = match self.tasks[i].group_id {
                Some(g) => g == group_id,
                None => false,
            };
            if member {
                self.tasks[i].suspend();
            }
            i = i + 1;
        }
        assert(self@.tasks =~= old(self)@.group_suspended(group_id).tasks);
        assert(self@.queues =~= old(self)@.group_suspended(group_id).queues);
    }

    /// Resumes group `group_id`: see `SchedulerView::group_resumed`.
    pub fn resume_group(&mut self, group_id: usize)
        requires
            old(self).wf(),
        ensures
            final(self).wf(),
            final(self)@ == old(self)@.group_resumed(group_id),
    {
        let n = self.tasks.len();
        let mut i: usize = 0;
        while i < n
            invariant
                i <= n,
                n == self.tasks@.len(),
                n == old(self)@.tasks.len(),
                self@ == old(self)@.resumed_upto(group_id, i as nat),
                old(self)@.wf(),
            decreases n - i,
        {
            proof {
                lemma_resumed_upto_wf(old(self)@, group_id, i as nat);
                lemma_resumed_upto_wf(old(self)@, group_id, (i + 1) as nat);
            }
            let member = match self.tasks[i].group_id {
                Some(g) => g == group_id,
                None => false,
            };
            if member && self.tasks[i].state == TaskState::Suspended {
                let ghost before = self@;
                self.tasks[i].state = TaskState::Ready;
                let priority = self.tasks[i].priority;
                self.enqueue(priority, i);
                assert(self@.tasks =~= old(self)@.resumed_upto(group_id, (i + 1) as nat).tasks);
            }
            i = i + 1;
        }
        proof {
            lemma_resumed_upto_wf(old(self)@, group_id, n as nat);
        }
    }
}

} // verus!
