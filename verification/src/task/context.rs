//! The register context that a task keeps while it does not run.

use vstd::prelude::*;

verus! {

/// The callee-saved registers, the stack pointer and the instruction pointer
/// of a task that is not on the CPU.
#[derive(Debug, Clone, Copy, PartialEq, Eq, Structural)]
pub struct TaskContext {
    pub rsp: usize,
    pub r15: usize,
    pub r14: usize,
    pub r13: usize,
    pub r12: usize,
    pub rbx: usize,
    pub rbp: usize,
    pub rip: usize,
}

impl TaskContext {
    /// Switches the CPU, whose registers are `cpu`, from the task of this
    /// context to the task of `next`: the registers of the CPU are kept in
    /// this context, and the CPU goes on with those of `next`, on its
    /// stack and at its instruction.
    pub fn switch(&mut self, cpu: &mut TaskContext, next: &TaskContext)
        ensures
            *final(self) == *old(cpu),
            *final(cpu) == *next,
    {
        *self = *cpu;
        *cpu = *next;
    }

    /// Switches as `switch` does, if a task holds the CPU; with no current
    /// task nothing happens.
    pub fn switch_to(&mut self, cpu: &mut TaskContext, next: &TaskContext, current: Option<usize>)
        ensures
            current is Some ==> *final(self) == *old(cpu) && *final(cpu) == *next,
            current is None ==> *final(self) == *old(self) && *final(cpu) == *old(cpu),
    {
        if current.is_some() {
            self.switch(cpu, next);
        }
    }

    /// The context of a task that has not run yet: it starts at
    /// `entry_point` on an empty stack that ends at `stack_top`.
    pub fn new(entry_point: usize, stack_top: usize) -> (r: Self)
        ensures
            r == (TaskContext {
                rsp: stack_top,
                r15: 0,
                r14: 0,
                r13: 0,
                r12: 0,
                rbx: 0,
                rbp: 0,
                rip: entry_point,
            }),
    {
        TaskContext {
            rsp: stack_top,
            r15: 0,
            r14: 0,
            r13: 0,
            r12: 0,
            rbx: 0,
            rbp: 0,
            rip: entry_point,
        }
    }
}

} // verus!
