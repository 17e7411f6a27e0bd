//! Interrupt vector numbering of the two chained 8259 PICs.

use vstd::prelude::*;

verus! {

/// First vector used by the primary PIC (vectors 0..32 are CPU exceptions).
pub const PIC_1_OFFSET: u8 = 32;

/// First vector used by the secondary PIC.
pub const PIC_2_OFFSET: u8 = PIC_1_OFFSET + 8;

/// Hardware interrupts handled by the kernel, in PIC line order.
#[derive(Debug, Clone, Copy, PartialEq, Eq, Structural)]
pub enum InterruptIndex {
    Timer,
    Keyboard,
}

impl InterruptIndex {
    /// The vector number of the interrupt: the timer is the primary PIC's
    /// first line, the keyboard the next one.
    pub open spec fn vector(self) -> u8 {
        match self {
            InterruptIndex::Timer => PIC_1_OFFSET,
            InterruptIndex::Keyboard => (PIC_1_OFFSET + 1) as u8,
        }
    }

    /// The interrupt's vector number.
    pub fn as_u8(self) -> (r: u8)
        ensures
            r == self.vector(),
    {
        match self {
            InterruptIndex::Timer => PIC_1_OFFSET,
            InterruptIndex::Keyboard => PIC_1_OFFSET + 1,
        }
    }

    /// The interrupt's vector number, as an index into the descriptor table.
    pub fn as_usize(self) -> (r: usize)
        ensures
            r == self.vector() as usize,
    {
        self.as_u8() as usize
    }
}

} // verus!
