//! Core logic of a small x86-64 kernel: network stack, scheduler,
//! synchronization state machines, memory bookkeeping, an in-memory
//! filesystem and a shell, each function with a verified contract.

pub mod allocator;
pub mod fs;
pub mod gdt;
pub mod interrupts;
pub mod keyboard;
pub mod memory;
pub mod net;
pub mod process;
pub mod shell;
pub mod task;
