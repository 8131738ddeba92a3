//! The vectors of the two chained interrupt controllers.

use vstd::prelude::*;

verus! {

/// The first vector of the master controller.
pub const PIC_1_OFFSET: u8 = 32;

/// The first vector of the slave controller.
pub const PIC_2_OFFSET: u8 = 40;

/// The number of lines of one controller.
pub const PIC_LINES: u8 = 8;

#[derive(Debug, Clone, Copy, PartialEq, Eq, Structural)]
pub enum InterruptIndex {
    Timer,
    Keyboard,
}

impl InterruptIndex {
    /// The vector of the interrupt.
    pub open spec fn number(self) -> u8 {
        match self {
            InterruptIndex::Timer => 32,
            InterruptIndex::Keyboard => 33,
        }
    }

    /// Whether the controllers field vector `interrupt_id`: it lies in [32, 48).
    pub open spec fn handled(interrupt_id: u8) -> bool {
        PIC_1_OFFSET <= interrupt_id < PIC_2_OFFSET + PIC_LINES
    }

    /// The vector as a byte.
    pub fn as_u8(self) -> (r: u8)
        ensures
            r == self.number(),
    {
        match self {
            InterruptIndex::Timer => PIC_1_OFFSET,
            InterruptIndex::Keyboard => PIC_1_OFFSET + 1,
        }
    }

    /// The vector as an index into the descriptor table.
    pub fn as_usize(self) -> (r: usize)
        ensures
            r == self.number(),
    {
        self.as_u8() as usize
    }

    /// Whether the controllers field vector `interrupt_id`.
    pub fn is_pic_interrupt(interrupt_id: u8) -> (r: bool)
        ensures
            r == Self::handled(interrupt_id),
    {
        interrupt_id >= PIC_1_OFFSET && interrupt_id < PIC_2_OFFSET + PIC_LINES
    }

    /// The controller that fields vector `interrupt_id`: 1 for the master,
    /// 2 for the slave, none for a vector outside their range.
    pub fn get_pic_number(interrupt_id: u8) -> (r: Option<u8>)
        ensures
            r == (if !Self::handled(interrupt_id) {
                None
            } else if interrupt_id < PIC_2_OFFSET {
                Some(1u8)
            } else {
                Some(2u8)
            }),
    {
        if !Self::is_pic_interrupt(interrupt_id) {
            return None;
        }
        if interrupt_id < PIC_2_OFFSET {
            Some(1)
        } else {
            Some(2)
        }
    }
}

/// The controllers sit above the vectors that the CPU keeps for its own
/// exceptions, one behind the other, and end within the vector range.
pub proof fn lemma_offsets()
    ensures
        PIC_1_OFFSET >= 32,
        PIC_2_OFFSET == PIC_1_OFFSET + PIC_LINES,
        PIC_2_OFFSET + PIC_LINES <= 256,
        InterruptIndex::handled(InterruptIndex::Timer.number()),
        InterruptIndex::handled(InterruptIndex::Keyboard.number()),
{
}

} // verus!
