//! Pin abstraction for a keyboard protocol converter.
//!
//! Two keyboard buses share five lines of one 8-bit I/O port: the AT bus
//! (open collector: a line is either pulled low or released) and the XT bus
//! (push-pull: a line is driven to both levels). This crate names the five
//! lines, and states each bus condition as a masked update of the port's
//! registers, with a proof that no update reaches a bit it does not own.
//!
//! The registers are held in [`PortRegs`], a plain value that every operation
//! borrows. Moving that value from and to the memory-mapped port is left to
//! the caller.

pub mod bits;
pub mod keyboard;
pub mod pin;
pub mod port;

pub use crate::bits::apply_mask;
pub use crate::bits::clear_mask;
pub use crate::keyboard::KeyboardPins;
pub use crate::pin::Pin;
pub use crate::port::PortRegs;
