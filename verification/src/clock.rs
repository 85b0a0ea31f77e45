//! The monotonic device clock.
//!
//! The system timer counts microseconds since boot; the device core consumes canonical integer
//! milliseconds. The conversion saturates: wrapping time would break the monotonicity the render
//! loop relies on.

use vstd::prelude::*;

verus! {

/// Monotonic millisecond clock over the ESP32-C3 system timer.
#[derive(Debug, Clone, Copy, Default)]
pub struct EspClock;

impl EspClock {
    /// A clock reading the system timer.
    pub fn new() -> (c: Self)
        ensures
            c == EspClock,
    {
        EspClock
    }
}

/// Milliseconds for a timer reading of `micros` microseconds, saturating at `u32::MAX`.
pub open spec fn millis_spec(micros: u64) -> u32 {
    if micros / 1000 > u32::MAX {
        u32::MAX
    } else {
        (micros / 1000) as u32
    }
}

/// Converts a timer reading in microseconds to milliseconds, saturating at `u32::MAX`.
pub fn millis_from_micros(micros: u64) -> (ms: u32)
    ensures
        ms == millis_spec(micros),
{
    let ms = micros / 1000;
    if ms > u32::MAX as u64 {
        u32::MAX
    } else {
        ms as u32
    }
}

/// The conversion is monotonic: a later reading never gives an earlier time.
pub proof fn law_millis_are_monotonic(a: u64, b: u64)
    requires
        a <= b,
    ensures
        millis_spec(a) <= millis_spec(b),
{
    assert(a / 1000 <= b / 1000) by (nonlinear_arith)
        requires
            a <= b,
    ;
}

} // verus!
