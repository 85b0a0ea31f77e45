//! Hardware-neutral adapter ports.
//!
//! The device core depends only on these traits. The real board implements them over USB
//! Serial/JTAG, SPI, GPIO and a hardware timer; the host simulation adapters implement them in
//! memory. Nothing above this layer knows which is in use.

use crate::model::{ElapsedMs, InputLevels, Rect, Rgb565};
use vstd::prelude::*;

verus! {

/// A bounded, non-blocking byte transport (USB Serial/JTAG on device; an in-memory pipe in
/// simulation).
pub trait Transport {
    /// Transport-specific error type.
    type Error;

    /// Whether this transport keeps the logs below ([`Transport::accepted`],
    /// [`Transport::writes`], [`Transport::delivered`]), so that the contracts of `read` and
    /// `write` speak of it. The library's own transports do; an adapter written outside the
    /// library, which Verus does not check, keeps this default and is promised nothing.
    open spec fn keeps_logs() -> bool {
        false
    }

    /// Every byte the transport has accepted for sending so far, in order.
    open spec fn accepted(&self) -> Seq<u8> {
        Seq::empty()
    }

    /// Every successful write so far, in order: how many bytes it was offered and how many it
    /// took.
    open spec fn writes(&self) -> Seq<(nat, nat)> {
        Seq::empty()
    }

    /// Every successful read so far, in order: the bytes it delivered.
    open spec fn delivered(&self) -> Seq<Seq<u8>> {
        Seq::empty()
    }

    /// Reads any immediately-available bytes into `buf`, returning how many were read (`0` if
    /// none): the first `n` bytes of `buf`. Never blocks, and sends nothing.
    fn read(&mut self, buf: &mut [u8]) -> (r: Result<usize, Self::Error>)
        ensures
            r matches Ok(n) ==> n <= old(buf)@.len(),
            final(buf)@.len() == old(buf)@.len(),
            Self::keeps_logs() ==> (r matches Ok(n) ==> final(self).delivered() == old(
                self,
            ).delivered().push(final(buf)@.take(n as int))),
            Self::keeps_logs() ==> final(self).accepted() == old(self).accepted(),
            Self::keeps_logs() ==> final(self).writes() == old(self).writes(),
    ;

    /// Writes as many bytes of `buf` as fit without blocking, returning how many were accepted:
    /// the first `n` bytes of `buf`, in order.
    fn write(&mut self, buf: &[u8]) -> (r: Result<usize, Self::Error>)
        ensures
            r matches Ok(n) ==> n <= buf@.len(),
            Self::keeps_logs() ==> (r matches Ok(n) ==> final(self).accepted() == old(
                self,
            ).accepted() + buf@.take(n as int)),
            Self::keeps_logs() ==> (r matches Ok(n) ==> final(self).writes() == old(
                self,
            ).writes().push((buf@.len(), n as nat))),
            Self::keeps_logs() ==> final(self).delivered() == old(self).delivered(),
    ;
}

/// A pixel sink for one tile region (the SPI panel on device; a capture buffer in simulation).
pub trait DisplaySink {
    /// Sink-specific error type.
    type Error;

    /// Whether this sink keeps the log [`DisplaySink::written`], so that the contract of
    /// `blit_tile` speaks of it. The library's own sinks do; an adapter written outside the
    /// library, which Verus does not check, keeps this default and is promised nothing.
    open spec fn keeps_log() -> bool {
        false
    }

    /// Every tile written so far, in order: where it went and its pixels.
    open spec fn written(&self) -> Seq<(Rect, Seq<Rgb565>)> {
        Seq::empty()
    }

    /// Blits `pixels` (row-major RGB565, `rect.w * rect.h` long) to the panel window `rect`. A
    /// successful blit writes exactly that tile; a failed one is not counted as written.
    fn blit_tile(&mut self, rect: Rect, pixels: &[Rgb565]) -> (r: Result<(), Self::Error>)
        requires
            pixels@.len() == rect.w * rect.h,
        ensures
            Self::keeps_log() ==> (r is Ok ==> final(self).written() == old(self).written().push(
                (rect, pixels@),
            )),
            Self::keeps_log() ==> (r is Err ==> final(self).written() == old(self).written()),
    ;
}

/// A monotonic millisecond clock, measured from device boot.
pub trait Clock {
    /// Milliseconds since boot (monotonic, non-decreasing).
    fn now_ms(&self) -> ElapsedMs;
}

/// A source of raw physical input levels, sampled once per tick.
pub trait InputSource {
    /// The current logical levels of the input lines.
    fn sample(&mut self) -> InputLevels;
}

} // verus!
