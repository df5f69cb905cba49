//! The registers of the I/O port, held as a plain value.

use vstd::prelude::*;

verus! {

/// The six registers of the port, one bit per line in each.
///
/// An operation of this crate borrows the value, so the port is named at
/// every call and a test can pass any register contents it likes.
#[derive(Clone, Copy, Debug, PartialEq, Eq, Structural)]
pub struct PortRegs {
    /// Input: the level that each line shows. The port keeps it; nothing in
    /// this crate writes it.
    pub p1in: u8,
    /// Output: the level that each line is driven to while it is an output.
    pub p1out: u8,
    /// Direction: 1 makes the line an output, 0 an input.
    pub p1dir: u8,
    /// Interrupt flag: set by the port on the selected edge, and kept until
    /// 0 is written to the bit.
    pub p1ifg: u8,
    /// Interrupt edge select: 1 selects the falling edge, 0 the rising edge.
    pub p1ies: u8,
    /// Interrupt enable: 1 lets the line's flag raise the port interrupt.
    pub p1ie: u8,
}

impl PortRegs {
    /// Whether the input register shows, for every line that the port itself
    /// drives, the level that the output register holds for it. The port
    /// hardware keeps this; a register value made up by hand need not.
    pub open spec fn reads_back_driven_lines(self) -> bool {
        self.p1in & self.p1dir == self.p1out & self.p1dir
    }
}

} // verus!
