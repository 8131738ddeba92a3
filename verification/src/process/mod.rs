//! User processes: a name, an address space with the program loaded, and
//! the task that runs it.

use vstd::prelude::*;

pub mod syscall;

use crate::memory::{
    chunk_at, mapped_before_failure, mapped_run, pages_for, upcoming, BootInfoFrameAllocator,
    LoadedChunk, MapError, MemoryRegion, MemorySpace, PageEntry, CODE_START, USER_FLAGS,
};
use crate::task::scheduler::Scheduler;
use crate::task::TaskPriority;

verus! {

#[derive(Debug, Clone, Copy, PartialEq, Eq, Structural)]
pub enum ProcessState {
    Ready,
    Running,
    Blocked,
    Terminated,
}

/// The id of the first user process.
pub const FIRST_PID: usize = 1000;

/// The largest program that can be loaded.
pub const MAX_PROGRAM_SIZE: usize = 0x4000_0000;

pub struct Process {
    pub id: usize,
    pub state: ProcessState,
    pub name: String,
    pub memory_space: MemorySpace,
    /// The task that runs the process, by its id in the scheduler.
    pub task: usize,
    /// The parts of the program and the frames that they go to.
    pub chunks: Vec<LoadedChunk>,
}

/// Why the loading of a program stops after `done` pages, for an
/// allocator over `regions` that had handed out `next` frames before: no
/// frame is left for the next page, or the page is mapped already.
pub open spec fn load_failure(regions: Seq<MemoryRegion>, next: u64, done: nat) -> MapError {
    if upcoming(regions, next, done) is None {
        MapError::FrameAllocationFailed
    } else {
        MapError::MappingFailed
    }
}

/// The frames that a failed loading has taken from the allocator: one for
/// each page that was mapped, and one more for a page that was mapped already.
pub open spec fn frames_lost(error: MapError, done: nat) -> nat {
    if error == MapError::MappingFailed {
        done + 1
    } else {
        done
    }
}

impl Process {
    pub fn id(&self) -> (r: usize)
        ensures
            r == self.id,
    {
        self.id
    }

    pub fn name(&self) -> (r: &str)
        ensures
            r@ == self.name@,
    {
        self.name.as_str()
    }

    pub fn state(&self) -> (r: ProcessState)
        ensures
            r == self.state,
    {
        self.state
    }

    /// A ready process with the id `id` that runs `program` as task `task`:
    /// a fresh address space into which the program is loaded from the
    /// frames of `frames`. If the program cannot be loaded, there is no process.
    pub fn new(
        id: usize,
        name: String,
        program: &[u8],
        frames: &mut BootInfoFrameAllocator,
        task: usize,
    ) -> (r: Result<Self, MapError>)
        requires
            old(frames).wf(),
            program@.len() <= MAX_PROGRAM_SIZE,
        ensures
            final(frames).wf(),
            final(frames).regions() == old(frames).regions(),
            ({
                let count = pages_for(program@.len());
                let empty = Map::<u64, PageEntry>::empty();
                let done = mapped_before_failure(
                    empty,
                    old(frames).regions(),
                    old(frames).next(),
                    CODE_START,
                    count,
                );
                match r {
                    Ok(p) => {
                        &&& done == count
                        &&& final(frames).next() == old(frames).next() + count
                        &&& p.id == id
                        &&& p.state == ProcessState::Ready
                        &&& p.name == name
                        &&& p.task == task
                        &&& p.memory_space.code_start == CODE_START
                        &&& p.memory_space@ == mapped_run(
                            empty,
                            old(frames).regions(),
                            old(frames).next(),
                            CODE_START,
                            USER_FLAGS,
                            count,
                        )
                        &&& p.chunks@.len() == count
                        &&& forall|k: int|
                            0 <= k < count ==> (#[trigger] p.chunks@[k]) == chunk_at(
                                CODE_START,
                                old(frames).regions(),
                                old(frames).next(),
                                program@.len(),
                                k as nat,
                            )
                    },
                    Err(e) => {
                        &&& done < count
                        &&& e == load_failure(old(frames).regions(), old(frames).next(), done)
                        &&& final(frames).next() == old(frames).next() + frames_lost(e, done)
                    },
                }
            }),
    {
        let mut memory_space = match MemorySpace::new() {
            Ok(space) => space,
            Err(e) => {
                return Err(e);
            },
        };
        let chunks = match memory_space.load_program(frames, program) {
            Ok(chunks) => chunks,
            Err(e) => {
                return Err(e);
            },
        };
        Ok(Process { id, state: ProcessState::Ready, name, memory_space, task, chunks })
    }
}

/// The processes of the system and the one that runs.
pub struct ProcessManager {
    pub processes: Vec<Process>,
    pub current: Option<Process>,
    pub next_pid: usize,
}

impl ProcessManager {
    pub fn new() -> (r: Self)
        ensures
            r.processes@.len() == 0,
            r.current is None,
            r.next_pid == FIRST_PID,
    {
        ProcessManager { processes: Vec::new(), current: None, next_pid: FIRST_PID }
    }

    /// The id of the process that runs.
    pub fn current_process(&self) -> (r: Option<usize>)
        ensures
            r == (match self.current {
                Some(p) => Some(p.id),
                None => None,
            }),
    {
        match &self.current {
            Some(p) => Some(p.id),
            None => None,
        }
    }

    /// The first waiting process with the id `pid`.
    pub fn get_process(&self, pid: usize) -> (r: Option<&Process>)
        ensures
            r is Some <==> exists|i: int|
                0 <= i < self.processes@.len() && (#[trigger] self.processes@[i]).id == pid,
            r matches Some(p) ==> p.id == pid && exists|i: int|
                0 <= i < self.processes@.len() && #[trigger] self.processes@[i] == *p,
    {
        let mut i: usize = 0;
        while i < self.processes.len()
            invariant
                i <= self.processes@.len(),
                forall|j: int| 0 <= j < i ==> (#[trigger] self.processes@[j]).id != pid,
            decreases self.processes@.len() - i,
        {
            if self.processes[i].id == pid {
                return Some(&self.processes[i]);
            }
            i = i + 1;
        }
        None
    }

    /// Creates a process for `program` and a task of normal priority that
    /// starts at its entry point on the stack that ends at `stack_top`.
    /// The process joins the back of the waiting processes and the answer
    /// is its id, the next in the count from 1000. The call succeeds
    /// exactly if every page of the program gets a frame. If the program
    /// cannot be loaded nothing is created, and the error says why; the
    /// frames taken are lost.
    pub fn spawn(
        &mut self,
        name: String,
        program: &[u8],
        frames: &mut BootInfoFrameAllocator,
        scheduler: &mut Scheduler,
        stack_top: usize,
        now: u64,
    ) -> (r: Result<usize, MapError>)
        requires
            old(frames).wf(),
            old(scheduler).wf(),
            program@.len() <= MAX_PROGRAM_SIZE,
            old(self).next_pid < usize::MAX,
        ensures
            final(frames).wf(),
            final(frames).regions() == old(frames).regions(),
            final(scheduler).wf(),
            final(self).current == old(self).current,
            ({
                let count = pages_for(program@.len());
                let empty = Map::<u64, PageEntry>::empty();
                let done = mapped_before_failure(
                    empty,
                    old(frames).regions(),
                    old(frames).next(),
                    CODE_START,
                    count,
                );
                let task = old(scheduler)@.tasks.len();
                match r {
                    Ok(pid) => {
                        &&& done == count
                        &&& final(frames).next() == old(frames).next() + count
                        &&& pid == old(self).next_pid
                        &&& final(self).next_pid == pid + 1
                        &&& final(self).processes@.len() == old(self).processes@.len() + 1
                        &&& final(self).processes@.drop_last() == old(self).processes@
                        &&& final(self).processes@.last().id == pid
                        &&& final(self).processes@.last().state == ProcessState::Ready
                        &&& final(self).processes@.last().name == name
                        &&& final(self).processes@.last().task == task
                        &&& final(self).processes@.last().memory_space.code_start == CODE_START
                        &&& final(self).processes@.last().memory_space@ == mapped_run(
                            empty,
                            old(frames).regions(),
                            old(frames).next(),
                            CODE_START,
                            USER_FLAGS,
                            count,
                        )
                        &&& final(self).processes@.last().chunks@.len() == count
                        &&& forall|k: int|
                            0 <= k < count ==> (#[trigger] final(self).processes@.last().chunks@[k])
                                == chunk_at(
                                CODE_START,
                                old(frames).regions(),
                                old(frames).next(),
                                program@.len(),
                                k as nat,
                            )
                        &&& final(scheduler)@ == old(scheduler)@.spawned(
                            final(scheduler)@.tasks[task as int],
                        )
                        &&& final(scheduler)@.tasks[task as int].fresh(
                            task as usize,
                            CODE_START as usize,
                            stack_top,
                            TaskPriority::Normal,
                            now,
                        )
                    },
                    Err(e) => {
                        &&& done < count
                        &&& e == load_failure(old(frames).regions(), old(frames).next(), done)
                        &&& final(frames).next() == old(frames).next() + frames_lost(e, done)
                        &&& final(self).processes == old(self).processes
                        &&& final(self).next_pid == old(self).next_pid
                        &&& final(scheduler)@ == old(scheduler)@
                    },
                }
            }),
    {
        let pid = self.next_pid;
        let task = scheduler.task_count();
        let process = match Process::new(pid, name, program, frames, task) {
            Ok(process) => process,
            Err(e) => {
                return Err(e);
            },
        };
        let entry = process.memory_space.entry_point();
        let _ = scheduler.spawn(entry as usize, stack_top, now);
        self.processes.push(process);
        self.next_pid = pid + 1;
        assert(self.processes@.drop_last() =~= old(self).processes@);
        Ok(pid)
    }

    /// Passes the turn on: the process that ran goes to the back of the
    /// waiting ones as ready, unless it has terminated, and the last
    /// waiting process runs. The answer is the id of the process that runs.
    pub fn schedule(&mut self) -> (r: Option<usize>)
        ensures
            final(self).next_pid == old(self).next_pid,
            r == (match final(self).current {
                Some(p) => Some(p.id),
                None => None,
            }),
            ({
                let waiting = match old(self).current {
                    Some(p) => if p.state == ProcessState::Terminated {
                        old(self).processes@
                    } else {
                        old(self).processes@.push(Process { state: ProcessState::Ready, ..p })
                    },
                    None => old(self).processes@,
                };
                if waiting.len() == 0 {
                    final(self).current is None && final(self).processes@ == old(self).processes@
                } else {
                    &&& final(self).processes@ == waiting.drop_last()
                    &&& final(self).current == Some(
                        Process { state: ProcessState::Running, ..waiting.last() },
                    )
                }
            }),
    {
        let mut current: Option<Process> = None;
        std::mem::swap(&mut current, &mut self.current);
        match current {
            Some(process) => {
                if process.state != ProcessState::Terminated {
                    let mut process = process;
                    process.state = ProcessState::Ready;
                    self.processes.push(process);
                }
            },
            None => {},
        }
        let ghost waiting = self.processes@;
        match self.processes.pop() {
            Some(process) => {
                let mut process = process;
                process.state = ProcessState::Running;
                let id = process.id;
                self.current = Some(process);
                assert(self.processes@ =~= waiting.drop_last());
                Some(id)
            },
            None => {
                assert(self.processes@ =~= old(self).processes@);
                None
            },
        }
    }
}

} // verus!
