//! The five keyboard lines and the bus conditions that are made of them.

use vstd::prelude::*;
use crate::bits::{
    apply_mask, bit, clear_mask, lemma_apply_mask_twice, lemma_mask_of_bits,
    lemma_pair_mask_bits, same_outside,
};
use crate::pin::Pin;
use crate::port::PortRegs;

verus! {

/// The five lines that the two keyboard buses take on the port.
pub struct KeyboardPins {
    /// Clock of the AT bus. Its falling edge raises the port interrupt.
    pub at_clk: Pin,
    /// Data of the AT bus.
    pub at_data: Pin,
    /// Clock of the XT bus.
    pub xt_clk: Pin,
    /// Data of the XT bus.
    pub xt_data: Pin,
    /// Sense line of the XT bus. It is only ever read.
    pub xt_sense: Pin,
}

impl KeyboardPins {
    /// The clock and the data of the AT bus are different lines.
    pub open spec fn at_lines_apart(&self) -> bool {
        self.at_clk.position() != self.at_data.position()
    }

    /// The clock and the data of the XT bus are different lines.
    pub open spec fn xt_lines_apart(&self) -> bool {
        self.xt_clk.position() != self.xt_data.position()
    }

    /// Every line has a position on the port, and no two share one.
    pub open spec fn wf(&self) -> bool {
        &&& self.at_clk.wf()
        &&& self.at_data.wf()
        &&& self.xt_clk.wf()
        &&& self.xt_data.wf()
        &&& self.xt_sense.wf()
        &&& self.at_lines_apart()
        &&& self.xt_lines_apart()
        &&& self.at_clk.position() != self.xt_clk.position()
        &&& self.at_clk.position() != self.xt_data.position()
        &&& self.at_clk.position() != self.xt_sense.position()
        &&& self.at_data.position() != self.xt_clk.position()
        &&& self.at_data.position() != self.xt_data.position()
        &&& self.at_data.position() != self.xt_sense.position()
        &&& self.xt_clk.position() != self.xt_sense.position()
        &&& self.xt_data.position() != self.xt_sense.position()
    }

    /// The mask of the two AT lines.
    pub open spec fn at_mask(&self) -> u8 {
        self.at_clk.mask() | self.at_data.mask()
    }

    /// The mask of the two XT lines that carry a frame.
    pub open spec fn xt_mask(&self) -> u8 {
        self.xt_clk.mask() | self.xt_data.mask()
    }

    /// The interrupt of the AT clock is enabled.
    pub open spec fn at_clk_int_enabled(&self, regs: PortRegs) -> bool {
        bit(regs.p1ie, self.at_clk.position())
    }

    /// The interrupt flag of the AT clock is set.
    pub open spec fn at_clk_int_pending(&self, regs: PortRegs) -> bool {
        bit(regs.p1ifg, self.at_clk.position())
    }

    /// The AT clock raises its flag on the falling edge.
    pub open spec fn at_clk_falling_edge(&self, regs: PortRegs) -> bool {
        bit(regs.p1ies, self.at_clk.position())
    }

    /// The lines as the board wires them: AT clock on bit 0, XT sense on bit
    /// 1, XT clock on bit 2, XT data on bit 3, AT data on bit 4.
    pub fn new() -> (pins: KeyboardPins)
        ensures
            pins.at_clk.position() == 0,
            pins.at_data.position() == 4,
            pins.xt_clk.position() == 2,
            pins.xt_data.position() == 3,
            pins.xt_sense.position() == 1,
            pins.wf(),
    {
        KeyboardPins {
            at_clk: Pin::new(0),
            at_data: Pin::new(4),
            xt_clk: Pin::new(2),
            xt_data: Pin::new(3),
            xt_sense: Pin::new(1),
        }
    }

    /// Brings the port to the state in which nothing is driven and the AT
    /// clock is watched by interrupt: the whole direction register is written
    /// to 0, which makes every line of the port an input, whichever it is;
    /// then, for the AT clock alone, the pending flag is cleared, the falling
    /// edge is selected and the interrupt is enabled.
    pub fn idle(&self, regs: &mut PortRegs)
        ensures
            *final(regs) == (PortRegs {
                p1dir: 0,
                p1ifg: old(regs).p1ifg & !self.at_clk.mask(),
                p1ies: old(regs).p1ies | self.at_clk.mask(),
                p1ie: old(regs).p1ie | self.at_clk.mask(),
                ..*old(regs)
            }),
            !self.at_clk_int_pending(*final(regs)),
            self.at_clk_falling_edge(*final(regs)),
            self.at_clk_int_enabled(*final(regs)),
            same_outside(old(regs).p1ifg, final(regs).p1ifg, self.at_clk.mask()),
            same_outside(old(regs).p1ies, final(regs).p1ies, self.at_clk.mask()),
            same_outside(old(regs).p1ie, final(regs).p1ie, self.at_clk.mask()),
    {
        proof {
            use_type_invariant(&self.at_clk);
        }
        let clk_mask: u8 = self.at_clk.bitmask();
        regs.p1dir = 0x00;
        regs.p1ifg = clear_mask(regs.p1ifg, clk_mask);
        regs.p1ies = apply_mask(regs.p1ies, clk_mask);
        regs.p1ie = apply_mask(regs.p1ie, clk_mask);
    }

    /// Disables the interrupt of the AT clock: clears its bit in the
    /// interrupt-enable register and nothing else.
    pub fn disable_at_clk_int(&self, regs: &mut PortRegs)
        ensures
            *final(regs) == (PortRegs {
                p1ie: old(regs).p1ie & !self.at_clk.mask(),
                ..*old(regs)
            }),
            !self.at_clk_int_enabled(*final(regs)),
            same_outside(old(regs).p1ie, final(regs).p1ie, self.at_clk.mask()),
    {
        proof {
            use_type_invariant(&self.at_clk);
        }
        regs.p1ie = clear_mask(regs.p1ie, self.at_clk.bitmask());
    }

    /// Enables the interrupt of the AT clock: sets its bit in the
    /// interrupt-enable register and nothing else.
    ///
    /// The update reads the register and then writes it. The exclusive borrow
    /// of `regs` is what keeps an interrupt handler from changing the register
    /// in between; whoever copies the result to the port owes the same for
    /// the port itself, and must not enable the interrupt while its own
    /// handler is halfway through an update of this register.
    pub fn enable_at_clk_int(&self, regs: &mut PortRegs)
        ensures
            *final(regs) == (PortRegs {
                p1ie: old(regs).p1ie | self.at_clk.mask(),
                ..*old(regs)
            }),
            self.at_clk_int_enabled(*final(regs)),
            same_outside(old(regs).p1ie, final(regs).p1ie, self.at_clk.mask()),
    {
        proof {
            use_type_invariant(&self.at_clk);
        }
        regs.p1ie = apply_mask(regs.p1ie, self.at_clk.bitmask());
    }

    /// Acknowledges the interrupt of the AT clock: clears its bit in the
    /// interrupt-flag register and nothing else. The flag stays set until
    /// this is done, so the handler calls it before it returns.
    pub fn clear_at_clk_int(&self, regs: &mut PortRegs)
        ensures
            *final(regs) == (PortRegs {
                p1ifg: old(regs).p1ifg & !self.at_clk.mask(),
                ..*old(regs)
            }),
            !self.at_clk_int_pending(*final(regs)),
            same_outside(old(regs).p1ifg, final(regs).p1ifg, self.at_clk.mask()),
    {
        proof {
            use_type_invariant(&self.at_clk);
        }
        regs.p1ifg = clear_mask(regs.p1ifg, self.at_clk.bitmask());
    }

    /// AT bus idle: the output bits of both AT lines are set, then both lines
    /// are released. Neither side drives the bus; the pull-ups hold it high
    /// and either side may pull a line low.
    pub fn at_idle(&self, regs: &mut PortRegs)
        ensures
            *final(regs) == (PortRegs {
                p1out: old(regs).p1out | self.at_mask(),
                p1dir: old(regs).p1dir & !self.at_mask(),
                ..*old(regs)
            }),
            self.at_clk.out_high(*final(regs)) && !self.at_clk.is_output(*final(regs)),
            self.at_data.out_high(*final(regs)) && !self.at_data.is_output(*final(regs)),
            same_outside(old(regs).p1out, final(regs).p1out, self.at_mask()),
            same_outside(old(regs).p1dir, final(regs).p1dir, self.at_mask()),
    {
        proof {
            use_type_invariant(&self.at_clk);
            use_type_invariant(&self.at_data);
            lemma_line_masks(self.at_clk, self.at_data);
            lemma_apply_mask_twice(regs.p1out, self.at_clk.mask(), self.at_data.mask());
        }
        self.at_clk.set(regs);
        self.at_data.set(regs);
        let at_mask: u8 = self.at_clk.bitmask() | self.at_data.bitmask();
        regs.p1dir = clear_mask(regs.p1dir, at_mask);
    }

    /// AT bus inhibited: the clock is held low, so the keyboard may not
    /// send. The clock's output bit is cleared and the clock is made an
    /// output; the data line's output bit is set and the data line is
    /// released.
    pub fn at_inhibit(&self, regs: &mut PortRegs)
        ensures
            *final(regs) == (PortRegs {
                p1out: (old(regs).p1out & !self.at_clk.mask()) | self.at_data.mask(),
                p1dir: (old(regs).p1dir | self.at_clk.mask()) & !self.at_data.mask(),
                ..*old(regs)
            }),
            self.at_data.out_high(*final(regs)) && !self.at_data.is_output(*final(regs)),
            // The data line is dealt with last. What holds of the clock needs the
            // two to be different lines.
            self.at_lines_apart() ==> !self.at_clk.out_high(*final(regs)),
            self.at_lines_apart() ==> self.at_clk.is_output(*final(regs)),
            same_outside(old(regs).p1out, final(regs).p1out, self.at_mask()),
            same_outside(old(regs).p1dir, final(regs).p1dir, self.at_mask()),
    {
        proof {
            use_type_invariant(&self.at_clk);
            use_type_invariant(&self.at_data);
            lemma_line_masks(self.at_clk, self.at_data);
        }
        self.at_clk.unset(regs);
        self.at_data.set(regs);
        self.at_clk.mk_out(regs);
        self.at_data.mk_in(regs);
    }

    /// AT bus ready for the host to send: the output bits of both AT lines
    /// are set, the clock is released for the keyboard to pull, and the data
    /// line is made an output.
    pub fn at_send(&self, regs: &mut PortRegs)
        ensures
            *final(regs) == (PortRegs {
                p1out: old(regs).p1out | self.at_mask(),
                p1dir: (old(regs).p1dir & !self.at_clk.mask()) | self.at_data.mask(),
                ..*old(regs)
            }),
            self.at_data.out_high(*final(regs)) && self.at_data.is_output(*final(regs)),
            self.at_clk.out_high(*final(regs)),
            // The data line is dealt with last. That the clock is released needs
            // the two to be different lines.
            self.at_lines_apart() ==> !self.at_clk.is_output(*final(regs)),
            same_outside(old(regs).p1out, final(regs).p1out, self.at_mask()),
            same_outside(old(regs).p1dir, final(regs).p1dir, self.at_mask()),
    {
        proof {
            use_type_invariant(&self.at_clk);
            use_type_invariant(&self.at_data);
            lemma_line_masks(self.at_clk, self.at_data);
            lemma_apply_mask_twice(regs.p1out, self.at_clk.mask(), self.at_data.mask());
        }
        self.at_clk.set(regs);
        self.at_data.set(regs);
        self.at_clk.mk_in(regs);
        self.at_data.mk_out(regs);
    }

    /// XT bus driven by the converter: the output bits of the XT clock and
    /// data are set and both lines are made outputs. The XT bus is push-pull,
    /// so the lines are driven, not released.
    pub fn xt_out(&self, regs: &mut PortRegs)
        ensures
            *final(regs) == (PortRegs {
                p1out: old(regs).p1out | self.xt_mask(),
                p1dir: old(regs).p1dir | self.xt_mask(),
                ..*old(regs)
            }),
            self.xt_clk.out_high(*final(regs)) && self.xt_clk.is_output(*final(regs)),
            self.xt_data.out_high(*final(regs)) && self.xt_data.is_output(*final(regs)),
            same_outside(old(regs).p1out, final(regs).p1out, self.xt_mask()),
            same_outside(old(regs).p1dir, final(regs).p1dir, self.xt_mask()),
    {
        let xt_mask: u8 = self.xt_clk.bitmask() | self.xt_data.bitmask();
        proof {
            use_type_invariant(&self.xt_clk);
            use_type_invariant(&self.xt_data);
            lemma_line_masks(self.xt_clk, self.xt_data);
        }
        regs.p1out = apply_mask(regs.p1out, xt_mask);
        regs.p1dir = apply_mask(regs.p1dir, xt_mask);
    }

    /// XT bus listened to: the output bit of the XT data line is set, the
    /// output bit of the XT clock is left as it is, and both lines are
    /// released.
    pub fn xt_in(&self, regs: &mut PortRegs)
        ensures
            *final(regs) == (PortRegs {
                p1out: old(regs).p1out | self.xt_data.mask(),
                p1dir: old(regs).p1dir & !self.xt_mask(),
                ..*old(regs)
            }),
            self.xt_data.out_high(*final(regs)) && !self.xt_data.is_output(*final(regs)),
            !self.xt_clk.is_output(*final(regs)),
            // That the clock's output bit stays needs the two to be different
            // lines.
            self.xt_lines_apart() ==> (self.xt_clk.out_high(*final(regs)) == self.xt_clk.out_high(
                *old(regs),
            )),
            same_outside(old(regs).p1out, final(regs).p1out, self.xt_data.mask()),
            same_outside(old(regs).p1dir, final(regs).p1dir, self.xt_mask()),
    {
        let xt_mask: u8 = self.xt_clk.bitmask() | self.xt_data.bitmask();
        proof {
            use_type_invariant(&self.xt_clk);
            use_type_invariant(&self.xt_data);
            lemma_line_masks(self.xt_clk, self.xt_data);
        }
        regs.p1out = apply_mask(regs.p1out, self.xt_data.bitmask());
        regs.p1dir = clear_mask(regs.p1dir, xt_mask);
    }
}

/// What the masks of two lines select, each alone and both together.
proof fn lemma_line_masks(first: Pin, second: Pin)
    requires
        first.wf(),
        second.wf(),
    ensures
        forall|i: u8| i < 8 ==> #[trigger] bit(first.mask(), i) == (i == first.position()),
        forall|i: u8| i < 8 ==> #[trigger] bit(second.mask(), i) == (i == second.position()),
        forall|i: u8|
            i < 8 ==> #[trigger] bit(first.mask() | second.mask(), i) == (i == first.position()
                || i == second.position()),
{
    lemma_mask_of_bits(first.position());
    lemma_mask_of_bits(second.position());
    lemma_pair_mask_bits(first.position(), second.position());
}

} // verus!
