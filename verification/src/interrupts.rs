//! Numbering of the hardware interrupts.

use vstd::prelude::*;

verus! {

/// Vector of the first interrupt of the primary interrupt controller.
pub const PIC_1_OFFSET: u8 = 32;

/// Vector of the first interrupt of the secondary interrupt controller.
pub const PIC_2_OFFSET: u8 = PIC_1_OFFSET + 8;

/// The hardware interrupts that the kernel handles.
#[derive(Debug, Clone, Copy, PartialEq, Eq, Structural)]
pub enum InterruptIndex {
    /// The interrupt of the timer.
    Timer,
    /// The interrupt of the keyboard.
    Keyboard,
}

impl InterruptIndex {
    /// The interrupt vector: the timer has the first vector of the primary
    /// controller, the keyboard the one after it.
    pub open spec fn vector(self) -> u8 {
        match self {
            InterruptIndex::Timer => PIC_1_OFFSET,
            InterruptIndex::Keyboard => (PIC_1_OFFSET + 1) as u8,
        }
    }

    /// The interrupt vector as an index into the descriptor table.
    pub fn as_usize(self) -> (index: usize)
        ensures
            index == self.vector(),
    {
        let vector: u8 = self.as_u8();
        vector as usize
    }

    /// The interrupt vector.
    pub fn as_u8(self) -> (vector: u8)
        ensures
            vector == self.vector(),
    {
        match self {
            InterruptIndex::Timer => PIC_1_OFFSET,
            InterruptIndex::Keyboard => PIC_1_OFFSET + 1,
        }
    }
}

} // verus!
