//! Interrupt vectors and what the handlers decide.

use vstd::prelude::*;

pub mod pic;

use crate::interrupts::pic::InterruptIndex;
use crate::task::scheduler::Scheduler;

verus! {

/// The index of the interrupt stack that the double fault handler runs on.
pub const DOUBLE_FAULT_VECTOR: u8 = 8;

/// The port from which the keyboard controller hands out scancodes.
pub const KEYBOARD_DATA_PORT: u16 = 0x60;

/// What the CPU reported.
#[derive(Debug, Clone, Copy, PartialEq, Eq, Structural)]
pub enum Exception {
    Breakpoint,
    DoubleFault,
    PageFault,
    GeneralProtectionFault,
    InvalidOpcode,
}

/// What a handler does after it has logged the event.
#[derive(Debug, Clone, Copy, PartialEq, Eq, Structural)]
pub enum Disposition {
    /// Go on with the interrupted code.
    Return,
    /// Halt the CPU for good.
    Halt,
}

/// What the handler of `exception` does: a breakpoint returns, every fault
/// halts the CPU, since nothing here recovers from a fault.
pub fn disposition(exception: Exception) -> (r: Disposition)
    ensures
        r == (if exception == Exception::Breakpoint {
            Disposition::Return
        } else {
            Disposition::Halt
        }),
{
    match exception {
        Exception::Breakpoint => Disposition::Return,
        _ => Disposition::Halt,
    }
}

/// What the timer handler decides once it has signalled the end of the
/// interrupt: the scheduler takes the tick, and the answer says whether the
/// CPU is to pass to another task.
pub fn timer_tick(scheduler: &mut Scheduler, now: u64) -> (switch: bool)
    requires
        old(scheduler).wf(),
    ensures
        final(scheduler).wf(),
        final(scheduler)@ == old(scheduler)@.after_schedule(now),
        switch == (final(scheduler)@.current is Some
            && final(scheduler)@.current != old(scheduler)@.current),
{
    let before = scheduler.current();
    let after = scheduler.schedule(now);
    match after {
        Some(next) => match before {
            Some(previous) => next != previous,
            None => true,
        },
        None => false,
    }
}

/// The vector that signals the end of the interrupt `index` to the controller.
pub fn end_of_interrupt(index: InterruptIndex) -> (r: u8)
    ensures
        r == index.number(),
        InterruptIndex::handled(r),
{
    index.as_u8()
}

} // verus!
