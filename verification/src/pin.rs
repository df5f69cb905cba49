//! One line of the port, and the masked register updates that drive, release
//! and read it.

use vstd::prelude::*;
use vstd::arithmetic::power2::pow2;
use crate::bits::{
    apply_mask, bit, clear_mask, lemma_apply_mask_bits, lemma_clear_mask_bits,
    lemma_mask_of_bits, lemma_mask_of_injective, lemma_mask_of_value, mask_of, same_outside,
};
use crate::port::PortRegs;

verus! {

/// A line of the port, known by its bit position.
///
/// The position is below 8 for every `Pin` that exists, so its mask is one
/// bit of an 8-bit register.
pub struct Pin {
    loc: u8,
}

impl Pin {
    /// The bit position of the line.
    pub closed spec fn position(&self) -> u8 {
        self.loc
    }

    /// The position names one of the eight bits of a register.
    #[verifier::type_invariant]
    pub open spec fn wf(&self) -> bool {
        self.position() < 8
    }

    /// The register mask that selects this line alone.
    pub open spec fn mask(&self) -> u8 {
        mask_of(self.position())
    }

    /// The output register holds a 1 for this line.
    pub open spec fn out_high(&self, regs: PortRegs) -> bool {
        bit(regs.p1out, self.position())
    }

    /// The line is configured as an output.
    pub open spec fn is_output(&self, regs: PortRegs) -> bool {
        bit(regs.p1dir, self.position())
    }

    /// The input register shows a high level on this line.
    pub open spec fn in_high(&self, regs: PortRegs) -> bool {
        bit(regs.p1in, self.position())
    }

    /// The line of bit position `pin_no`.
    pub fn new(pin_no: u8) -> (pin: Pin)
        requires
            pin_no < 8,
        ensures
            pin.position() == pin_no,
            pin.wf(),
    {
        Pin { loc: pin_no }
    }

    /// The mask of this line: 1 shifted left by its position, which is two to
    /// the power of the position and has the line's bit set and no other.
    pub fn bitmask(&self) -> (mask: u8)
        ensures
            mask == 1u8 << self.position(),
            mask == self.mask(),
            mask as nat == pow2(self.position() as nat),
            forall|i: u8| i < 8 ==> #[trigger] bit(mask, i) == (i == self.position()),
    {
        proof {
            use_type_invariant(self);
            lemma_mask_of_bits(self.loc);
            lemma_mask_of_value(self.loc);
        }
        1u8 << self.loc
    }

    /// Drives the line high: sets its bit in the output register. No other
    /// bit of that register changes, and no other register.
    pub fn set(&self, regs: &mut PortRegs)
        ensures
            *final(regs) == (PortRegs { p1out: old(regs).p1out | self.mask(), ..*old(regs) }),
            self.out_high(*final(regs)),
            same_outside(old(regs).p1out, final(regs).p1out, self.mask()),
    {
        proof {
            use_type_invariant(self);
        }
        regs.p1out = apply_mask(regs.p1out, self.bitmask());
    }

    /// Drives the line low: clears its bit in the output register. No other
    /// bit of that register changes, and no other register.
    pub fn unset(&self, regs: &mut PortRegs)
        ensures
            *final(regs) == (PortRegs { p1out: old(regs).p1out & !self.mask(), ..*old(regs) }),
            !self.out_high(*final(regs)),
            same_outside(old(regs).p1out, final(regs).p1out, self.mask()),
    {
        proof {
            use_type_invariant(self);
        }
        regs.p1out = clear_mask(regs.p1out, self.bitmask());
    }

    /// Releases the line: clears its bit in the direction register, which
    /// makes it an input. No other bit of that register changes, and no other
    /// register.
    pub fn mk_in(&self, regs: &mut PortRegs)
        ensures
            *final(regs) == (PortRegs { p1dir: old(regs).p1dir & !self.mask(), ..*old(regs) }),
            !self.is_output(*final(regs)),
            same_outside(old(regs).p1dir, final(regs).p1dir, self.mask()),
    {
        proof {
            use_type_invariant(self);
        }
        regs.p1dir = clear_mask(regs.p1dir, self.bitmask());
    }

    /// Makes the line an output: sets its bit in the direction register. The
    /// line is then driven to the level that the output register holds for
    /// it. No other bit of that register changes, and no other register.
    pub fn mk_out(&self, regs: &mut PortRegs)
        ensures
            *final(regs) == (PortRegs { p1dir: old(regs).p1dir | self.mask(), ..*old(regs) }),
            self.is_output(*final(regs)),
            same_outside(old(regs).p1dir, final(regs).p1dir, self.mask()),
    {
        proof {
            use_type_invariant(self);
        }
        regs.p1dir = apply_mask(regs.p1dir, self.bitmask());
    }

    /// Whether the input register shows the line high. Reads only.
    pub fn is_set(&self, regs: &PortRegs) -> (high: bool)
        ensures
            high == self.in_high(*regs),
            high == (regs.p1in & self.mask() != 0),
    {
        (regs.p1in & self.bitmask()) != 0
    }

    /// Whether the input register shows the line low. Reads only.
    pub fn is_unset(&self, regs: &PortRegs) -> (low: bool)
        ensures
            low == !self.in_high(*regs),
            low == (regs.p1in & self.mask() == 0),
    {
        (regs.p1in & self.bitmask()) == 0
    }
}

/// Two lines have the same mask exactly when they have the same position.
pub proof fn lemma_bitmask_injective(first: Pin, second: Pin)
    requires
        first.wf(),
        second.wf(),
    ensures
        first.mask() == second.mask() <==> first.position() == second.position(),
{
    if first.mask() == second.mask() {
        lemma_mask_of_injective(first.position(), second.position());
    }
}

/// A line that the port drives reads back the level it is driven to: where
/// `pin` is an output and the input register follows the driven lines, the
/// input register shows for it what the output register holds.
pub proof fn lemma_driven_line_reads_back(pin: Pin, regs: PortRegs)
    requires
        pin.wf(),
        pin.is_output(regs),
        regs.reads_back_driven_lines(),
    ensures
        pin.in_high(regs) == pin.out_high(regs),
{
    let input = regs.p1in;
    let output = regs.p1out;
    let direction = regs.p1dir;
    let index = pin.position();
    assert((input & (1u8 << index) != 0) == (output & (1u8 << index) != 0)) by (bit_vector)
        requires
            index < 8,
            direction & (1u8 << index) != 0,
            input & direction == output & direction,
    ;
}

/// Driving high, then reading: `after` is any state of the port in which the
/// output register is as `set` left it from `before`. If the line is an
/// output there and the input register follows the driven lines, `is_set`
/// returns true.
pub proof fn lemma_set_then_is_set(pin: Pin, before: PortRegs, after: PortRegs)
    requires
        pin.wf(),
        after.p1out == before.p1out | pin.mask(),
        pin.is_output(after),
        after.reads_back_driven_lines(),
    ensures
        pin.in_high(after),
        after.p1in & pin.mask() != 0,
{
    lemma_mask_of_bits(pin.position());
    lemma_apply_mask_bits(before.p1out, pin.mask());
    lemma_driven_line_reads_back(pin, after);
}

/// Driving low, then reading: `after` is any state of the port in which the
/// output register is as `unset` left it from `before`. If the line is an
/// output there and the input register follows the driven lines, `is_unset`
/// returns true.
pub proof fn lemma_unset_then_is_unset(pin: Pin, before: PortRegs, after: PortRegs)
    requires
        pin.wf(),
        after.p1out == before.p1out & !pin.mask(),
        pin.is_output(after),
        after.reads_back_driven_lines(),
    ensures
        !pin.in_high(after),
        after.p1in & pin.mask() == 0,
{
    lemma_mask_of_bits(pin.position());
    lemma_clear_mask_bits(before.p1out, pin.mask());
    lemma_driven_line_reads_back(pin, after);
}

} // verus!
