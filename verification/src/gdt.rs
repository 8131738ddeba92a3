//! Segment selectors and the stacks of the task state segment.

use vstd::prelude::*;
use x86_64::registers::segmentation::SegmentSelector;
use x86_64::PrivilegeLevel;

verus! {

/// The interrupt stack on which the double fault handler runs.
pub const DOUBLE_FAULT_IST_INDEX: u16 = 0;

/// The interrupt stack on which the page fault handler runs.
pub const PAGE_FAULT_IST_INDEX: u16 = 1;

/// The interrupt stack on which the general protection fault handler runs.
pub const GENERAL_PROTECTION_IST_INDEX: u16 = 2;

/// The number of interrupt stacks that a task state segment has.
pub const IST_ENTRIES: u16 = 7;

/// Size of an interrupt stack: 20 KiB.
pub const INTERRUPT_STACK_SIZE: u64 = 4096 * 5;

/// Size of the stack of a privilege level: 12 KiB.
pub const PRIVILEGE_STACK_SIZE: u64 = 4096 * 3;

/// The alignment of every stack.
pub const STACK_ALIGNMENT: u64 = 16;

/// The place of the kernel data segment in the table; the null segment is at 0.
pub const KERNEL_DATA_INDEX: u16 = 1;

pub const KERNEL_CODE_INDEX: u16 = 2;

pub const USER_DATA_INDEX: u16 = 3;

pub const USER_CODE_INDEX: u16 = 4;

pub const SYSCALL_CODE_INDEX: u16 = 5;

/// The place of the task state segment, which takes two entries.
pub const TSS_INDEX: u16 = 6;

#[derive(Debug, Clone, Copy, PartialEq, Eq, Structural)]
pub enum GDTError {
    InvalidSelector,
    InvalidPrivilegeLevel,
    StackNotAligned,
}

/// The selector of the segment at place `index` for requests at privilege
/// level `ring`: the index above three bits that hold the level.
pub open spec fn selector_value(index: u16, ring: u16) -> int {
    index * 8 + ring
}

/// The selector that `SegmentSelector::new` of the x86_64 crate makes for
/// the segment at place `index` and the privilege level `ring`. The crate
/// shifts the index left by three bits and puts the level into the low
/// bits; it takes the levels 0 to 3 only.
#[verifier::external_body]
fn make_selector(index: u16, ring: u16) -> (r: u16)
    requires
        index < 8192,
        ring < 4,
    ensures
        r == selector_value(index, ring),
{
    SegmentSelector::new(index, PrivilegeLevel::from_u16(ring)).0
}

/// The selectors of the segments of the table.
#[derive(Debug, Clone, Copy, PartialEq, Eq, Structural)]
pub struct Selectors {
    pub kernel_code: u16,
    pub kernel_data: u16,
    pub user_code: u16,
    pub user_data: u16,
    pub syscall_code: u16,
    pub tss: u16,
}

impl Selectors {
    /// The selectors of a table that holds, behind the null segment,
    /// kernel data, kernel code, user data, user code, the system call
    /// segment and the task state segment, in this order. Kernel segments
    /// are asked for at level 0, user segments at level 3.
    pub fn new() -> (r: Self)
        ensures
            r == (Selectors {
                kernel_code: 16,
                kernel_data: 8,
                user_code: 35,
                user_data: 27,
                syscall_code: 40,
                tss: 48,
            }),
    {
        Selectors {
            kernel_data: make_selector(KERNEL_DATA_INDEX, 0),
            kernel_code: make_selector(KERNEL_CODE_INDEX, 0),
            user_data: make_selector(USER_DATA_INDEX, 3),
            user_code: make_selector(USER_CODE_INDEX, 3),
            syscall_code: make_selector(SYSCALL_CODE_INDEX, 0),
            tss: make_selector(TSS_INDEX, 0),
        }
    }

    /// The code and data selectors for privilege level `ring`: the kernel's
    /// for level 0, the user's for level 3, and none for any other.
    pub fn get_selector(&self, ring: u8) -> (r: Result<(u16, u16), GDTError>)
        ensures
            r == (if ring == 0 {
                Ok::<(u16, u16), GDTError>((self.kernel_code, self.kernel_data))
            } else if ring == 3 {
                Ok::<(u16, u16), GDTError>((self.user_code, self.user_data))
            } else {
                Err::<(u16, u16), GDTError>(GDTError::InvalidPrivilegeLevel)
            }),
    {
        match ring {
            0 => Ok((self.kernel_code, self.kernel_data)),
            3 => Ok((self.user_code, self.user_data)),
            _ => Err(GDTError::InvalidPrivilegeLevel),
        }
    }

    pub fn get_syscall_selector(&self) -> (r: u16)
        ensures
            r == self.syscall_code,
    {
        self.syscall_code
    }

    /// The privilege level that a selector asks for: its low two bits.
    pub fn privilege_of(selector: u16) -> (r: u8)
        ensures
            r == selector % 4,
    {
        (selector % 4) as u8
    }
}

/// The top of a stack of `size` bytes that starts at `start`, where the
/// stack pointer begins. A stack whose start is not aligned to 16 bytes is
/// refused, and so is one that would end beyond the address space.
pub fn stack_top(start: u64, size: u64) -> (r: Result<u64, GDTError>)
    ensures
        r == (if start % STACK_ALIGNMENT != 0 {
            Err::<u64, GDTError>(GDTError::StackNotAligned)
        } else if start + size > u64::MAX {
            Err::<u64, GDTError>(GDTError::InvalidSelector)
        } else {
            Ok::<u64, GDTError>((start + size) as u64)
        }),
{
    if start % STACK_ALIGNMENT != 0 {
        return Err(GDTError::StackNotAligned);
    }
    if size > u64::MAX - start {
        return Err(GDTError::InvalidSelector);
    }
    Ok(start + size)
}

/// The three interrupt stacks have entries in the task state segment.
pub proof fn lemma_ist_indices()
    ensures
        DOUBLE_FAULT_IST_INDEX < IST_ENTRIES,
        PAGE_FAULT_IST_INDEX < IST_ENTRIES,
        GENERAL_PROTECTION_IST_INDEX < IST_ENTRIES,
        INTERRUPT_STACK_SIZE % STACK_ALIGNMENT == 0,
        PRIVILEGE_STACK_SIZE % STACK_ALIGNMENT == 0,
{
}

} // verus!
