//! The hardware the block device drives: a full-duplex SPI byte pump, the
//! chip-select line, a monotonic millisecond clock, and a speed switch.
//!
//! Nothing is promised of these operations: what a byte transfer returns
//! depends on the card on the bus, and the clock on the platform. The
//! protocol layer is verified to behave correctly whatever they return.

use vstd::prelude::*;

verus! {

/// A full-duplex SPI bus with its chip-select line and a millisecond
/// clock, as the SD protocol needs them.
pub trait SpiLink: Sized {
    /// Clocks one byte out while reading one byte in.
    fn transfer(&mut self, byte: u8) -> u8;

    /// Drives chip select low: the card listens.
    fn cs_low(&mut self);

    /// Drives chip select high: the bus is released.
    fn cs_high(&mut self);

    /// Milliseconds from a monotonic clock; used only to bound waits.
    fn millis(&mut self) -> u32;

    /// Switches the bus to its fastest supported clock, once the card is
    /// initialized.
    fn set_max_speed(&mut self);
}

} // verus!
