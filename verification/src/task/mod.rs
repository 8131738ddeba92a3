//! Tasks and the cooperative priority scheduler.

use vstd::prelude::*;

pub mod context;
pub mod laws;
pub mod scheduler;
pub mod sync;

use crate::task::context::TaskContext;

verus! {

#[derive(Debug, Clone, Copy, PartialEq, Eq, Structural)]
pub enum TaskState {
    Ready,
    Running,
    Blocked,
    Terminated,
    Suspended,
}

#[derive(Debug, Clone, Copy, PartialEq, Eq, Structural)]
pub enum TaskPriority {
    Low,
    Normal,
    High,
}

impl TaskPriority {
    /// The level of the priority: 0 for `Low`, 1 for `Normal`, 2 for `High`.
    pub open spec fn level(self) -> int {
        match self {
            TaskPriority::Low => 0,
            TaskPriority::Normal => 1,
            TaskPriority::High => 2,
        }
    }

    /// The next higher priority; `High` stays.
    pub open spec fn raised(self) -> TaskPriority {
        match self {
            TaskPriority::Low => TaskPriority::Normal,
            TaskPriority::Normal => TaskPriority::High,
            TaskPriority::High => TaskPriority::High,
        }
    }

    /// The index of the run queue of this priority.
    pub fn index(self) -> (r: usize)
        ensures
            r == self.level(),
    {
        match self {
            TaskPriority::Low => 0,
            TaskPriority::Normal => 1,
            TaskPriority::High => 2,
        }
    }
}

/// What the scheduler has counted for a task.
#[derive(Debug, Clone, Copy, PartialEq, Eq, Structural)]
pub struct TaskStatistics {
    /// The tick at which the task was created.
    pub created_at: u64,
    /// The ticks for which the task has held the CPU.
    pub total_runtime: u64,
    /// How often the scheduler has looked at the task while it ran.
    pub context_switches: usize,
    /// The tick at which the task last got the CPU.
    pub last_scheduled: Option<u64>,
}

impl TaskStatistics {
    pub fn new(now: u64) -> (r: Self)
        ensures
            r == (TaskStatistics {
                created_at: now,
                total_runtime: 0,
                context_switches: 0,
                last_scheduled: None,
            }),
    {
        TaskStatistics { created_at: now, total_runtime: 0, context_switches: 0, last_scheduled: None }
    }

    /// The statistics after one more look of the scheduler at tick `now`:
    /// the time since the task got the CPU is added to its runtime, and the
    /// count of looks grows by one. Both stop at the largest number.
    pub open spec fn accounted(self, now: u64) -> TaskStatistics {
        TaskStatistics {
            total_runtime: match self.last_scheduled {
                Some(last) => sat_add(self.total_runtime, sat_sub(now, last)),
                None => self.total_runtime,
            },
            context_switches: if self.context_switches < usize::MAX {
                (self.context_switches + 1) as usize
            } else {
                self.context_switches
            },
            ..self
        }
    }

    pub fn account(&mut self, now: u64)
        ensures
            *final(self) == old(self).accounted(now),
    {
        match self.last_scheduled {
            Some(last) => {
                let elapsed: u64 = if now >= last {
                    now - last
                } else {
                    0
                };
                self.total_runtime = if self.total_runtime <= u64::MAX - elapsed {
                    self.total_runtime + elapsed
                } else {
                    u64::MAX
                };
            },
            None => {},
        }
        if self.context_switches < usize::MAX {
            self.context_switches = self.context_switches + 1;
        }
    }
}

/// `a - b`, or zero where `b` is the larger.
pub open spec fn sat_sub(a: u64, b: u64) -> u64 {
    if a >= b {
        (a - b) as u64
    } else {
        0
    }
}

/// `a + b`, or the largest number where the sum does not fit.
pub open spec fn sat_add(a: u64, b: u64) -> u64 {
    if a + b <= u64::MAX {
        (a + b) as u64
    } else {
        u64::MAX
    }
}

/// Size of the thread-local storage block of a task.
pub const TLS_SIZE: usize = 4096;

/// Size of the kernel stack of a task.
pub const STACK_SIZE: usize = 4096 * 5;

/// The ticks that a task may hold the CPU before the scheduler picks again.
pub const DEFAULT_QUANTUM: usize = 100;

/// The schedulable unit.
#[derive(Debug)]
pub struct Task {
    pub id: usize,
    pub state: TaskState,
    pub priority: TaskPriority,
    pub context: TaskContext,
    pub tls: Option<Vec<u8>>,
    pub quantum: usize,
    /// What is left of the quantum.
    pub time_slice: usize,
    /// The tick after which the task is due and its priority is raised.
    pub deadline: Option<u64>,
    pub group_id: Option<usize>,
    pub stats: TaskStatistics,
    /// The priority that the task was created with, to which `reset_priority` returns.
    pub base_priority: TaskPriority,
}

impl Task {
    /// The quantum is positive and the time slice is a part of it that is not used up.
    pub open spec fn wf(&self) -> bool {
        0 < self.time_slice <= self.quantum
    }

    /// Whether the task wants the CPU or has it.
    pub open spec fn runnable(&self) -> bool {
        self.state == TaskState::Ready || self.state == TaskState::Running
    }

    /// Whether the task is due at `now`: it is ready and its deadline has passed.
    pub open spec fn due(&self, now: u64) -> bool {
        self.state == TaskState::Ready && (self.deadline matches Some(d) && now > d)
    }

    /// Whether `self` is the task that `new` makes from these values.
    pub open spec fn fresh(
        &self,
        id: usize,
        entry_point: usize,
        stack_top: usize,
        priority: TaskPriority,
        now: u64,
    ) -> bool {
        &&& self.id == id
        &&& self.state == TaskState::Ready
        &&& self.priority == priority
        &&& self.base_priority == priority
        &&& self.context == (TaskContext {
            rsp: stack_top,
            r15: 0,
            r14: 0,
            r13: 0,
            r12: 0,
            rbx: 0,
            rbp: 0,
            rip: entry_point,
        })
        &&& self.tls matches Some(block) && block@ == Seq::new(TLS_SIZE as nat, |i: int| 0u8)
        &&& self.quantum == DEFAULT_QUANTUM
        &&& self.time_slice == DEFAULT_QUANTUM
        &&& self.deadline is None
        &&& self.group_id is None
        &&& self.stats == (TaskStatistics {
            created_at: now,
            total_runtime: 0,
            context_switches: 0,
            last_scheduled: None,
        })
    }

    /// A ready task of normal priority with a full quantum and a zeroed
    /// thread-local storage block, created at tick `now`. It will start at
    /// `entry_point` on the stack that ends at `stack_top`.
    pub fn new(id: usize, entry_point: usize, stack_top: usize, now: u64) -> (r: Self)
        ensures
            r.fresh(id, entry_point, stack_top, TaskPriority::Normal, now),
            r.wf(),
    {
        Self::with_priority(id, entry_point, stack_top, TaskPriority::Normal, now)
    }

    /// As `new`, with the given priority, which is also the base priority.
    pub fn with_priority(
        id: usize,
        entry_point: usize,
        stack_top: usize,
        priority: TaskPriority,
        now: u64,
    ) -> (r: Self)
        ensures
            r.fresh(id, entry_point, stack_top, priority, now),
            r.wf(),
    {
        let mut block: Vec<u8> = Vec::new();
        while block.len() < TLS_SIZE
            invariant
                block@.len() <= TLS_SIZE,
                block@ == Seq::new(block@.len(), |i: int| 0u8),
            decreases TLS_SIZE - block@.len(),
        {
            block.push(0);
        }
        Task {
            id,
            state: TaskState::Ready,
            priority,
            context: TaskContext::new(entry_point, stack_top),
            tls: Some(block),
            quantum: DEFAULT_QUANTUM,
            time_slice: DEFAULT_QUANTUM,
            deadline: None,
            group_id: None,
            stats: TaskStatistics::new(now),
            base_priority: priority,
        }
    }

    /// The thread-local storage block, if the task has one.
    pub fn get_tls(&self) -> (r: Option<&[u8]>)
        ensures
            r is Some <==> self.tls is Some,
            r matches Some(s) ==> s@ == self.tls->0@,
    {
        match &self.tls {
            Some(block) => Some(block.as_slice()),
            None => None,
        }
    }

    /// The thread-local storage block for writing, if the task has one.
    pub fn get_tls_mut(&mut self) -> (r: Option<&mut [u8]>)
        ensures
            r is Some <==> old(self).tls is Some,
            r matches Some(s) ==> s@ == old(self).tls->0@ && final(self).tls is Some
                && final(self).tls->0@ == final(s)@,
            r is None ==> *final(self) == *old(self),
            final(self).id == old(self).id,
            final(self).state == old(self).state,
            final(self).priority == old(self).priority,
            final(self).base_priority == old(self).base_priority,
            final(self).context == old(self).context,
            final(self).quantum == old(self).quantum,
            final(self).time_slice == old(self).time_slice,
            final(self).deadline == old(self).deadline,
            final(self).group_id == old(self).group_id,
            final(self).stats == old(self).stats,
    {
        match &mut self.tls {
            Some(block) => Some(block.as_mut_slice()),
            None => None,
        }
    }

    /// Gives the task a full quantum again.
    pub fn reset_time_slice(&mut self)
        ensures
            *final(self) == (Task { time_slice: old(self).quantum, ..*old(self) }),
    {
        self.time_slice = self.quantum;
    }

    /// Uses up one tick of the time slice. The answer is whether the slice
    /// is used up now.
    pub fn decrement_time_slice(&mut self) -> (expired: bool)
        ensures
            *final(self) == (Task { time_slice: old(self).ticked(), ..*old(self) }),
            expired == (old(self).time_slice <= 1),
            expired == (final(self).time_slice == 0),
    {
        if self.time_slice > 0 {
            self.time_slice = self.time_slice - 1;
        }
        self.time_slice == 0
    }

    /// The time slice after one more tick.
    pub open spec fn ticked(&self) -> usize {
        if self.time_slice > 0 {
            (self.time_slice - 1) as usize
        } else {
            0
        }
    }

    pub fn set_deadline(&mut self, deadline: u64)
        ensures
            *final(self) == (Task { deadline: Some(deadline), ..*old(self) }),
    {
        self.deadline = Some(deadline);
    }

    pub fn set_group(&mut self, group_id: usize)
        ensures
            *final(self) == (Task { group_id: Some(group_id), ..*old(self) }),
    {
        self.group_id = Some(group_id);
    }

    /// Raises the priority by one level; `High` stays. The base priority is untouched.
    pub fn boost_priority(&mut self)
        ensures
            *final(self) == (Task { priority: old(self).priority.raised(), ..*old(self) }),
    {
        self.priority = match self.priority {
            TaskPriority::Low => TaskPriority::Normal,
            TaskPriority::Normal => TaskPriority::High,
            TaskPriority::High => TaskPriority::High,
        };
    }

    /// Returns to the priority that the task was created with.
    pub fn reset_priority(&mut self)
        ensures
            *final(self) == (Task { priority: old(self).base_priority, ..*old(self) }),
    {
        self.priority = self.base_priority;
    }

    /// Suspends the task, unless it has terminated.
    pub fn suspend(&mut self)
        ensures
            *final(self) == (Task { state: old(self).suspended_state(), ..*old(self) }),
    {
        if self.state != TaskState::Terminated {
            self.state = TaskState::Suspended;
        }
    }

    /// The state after `suspend`.
    pub open spec fn suspended_state(&self) -> TaskState {
        if self.state == TaskState::Terminated {
            TaskState::Terminated
        } else {
            TaskState::Suspended
        }
    }

    /// Makes a suspended task ready; any other task stays as it is.
    pub fn resume(&mut self)
        ensures
            *final(self) == (Task { state: old(self).resumed_state(), ..*old(self) }),
    {
        if self.state == TaskState::Suspended {
            self.state = TaskState::Ready;
        }
    }

    /// The state after `resume`.
    pub open spec fn resumed_state(&self) -> TaskState {
        if self.state == TaskState::Suspended {
            TaskState::Ready
        } else {
            self.state
        }
    }

    pub fn get_stats(&self) -> (r: &TaskStatistics)
        ensures
            *r == self.stats,
    {
        &self.stats
    }
}

/// A task suspended and then resumed is ready, unless it had terminated.
pub proof fn lemma_suspend_resume(t: Task)
    ensures
        ({
            let s = Task { state: t.suspended_state(), ..t };
            let r = Task { state: s.resumed_state(), ..s };
            r.state == (if t.state == TaskState::Terminated {
                TaskState::Terminated
            } else {
                TaskState::Ready
            })
        }),
{
}

} // verus!
