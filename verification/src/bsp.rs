//! Board support: the monotonic clock and the display bus clock rate.
//!
//! Every board-specific decision is a parameter, never a default: the caller passes the pin
//! handles, the panel controller and the panel geometry.

use crate::clock::EspClock;
use vstd::prelude::*;

verus! {

/// SPI clock for the display bus. A starting point inside the range every candidate 240x240
/// controller documents, to be confirmed on hardware.
pub const DISPLAY_SPI_HZ: u32 = 20_000_000;

/// Brings up the monotonic clock. Backed by the system timer, so it reads identically on
/// hardware and in simulation.
pub fn clock() -> (c: EspClock)
    ensures
        c == EspClock,
{
    EspClock::new()
}

} // verus!
