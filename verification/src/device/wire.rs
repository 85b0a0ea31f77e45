//! Value types of the wire protocol, held as plain values: what the device logic reads from a
//! decoded frame and what it hands back to be encoded.

use crate::model::ElapsedMs;
use vstd::prelude::*;

verus! {

/// The safe error categories the wire protocol defines.
#[derive(Debug, Clone, Copy, PartialEq, Eq, Structural)]
pub enum ErrorCategory {
    /// COBS, length, magic or sequence framing.
    Framing,
    /// CRC-32 mismatch.
    Checksum,
    /// Unsupported protocol version.
    Version,
    /// The payload did not decode.
    BadPayload,
    /// An input/output fault on the device.
    Io,
}

/// Why the frame decoder rejected a frame.
#[derive(Debug, Clone, Copy, PartialEq, Eq, Structural)]
pub enum ProtoError {
    /// Invalid COBS encoding.
    Cobs,
    /// Shorter than a header.
    TooShort,
    /// Wrong magic bytes.
    BadMagic,
    /// Declared length disagrees with the frame.
    LengthMismatch,
    /// The decode buffer overflowed.
    BufferOverflow,
    /// CRC-32 mismatch.
    BadCrc,
    /// Unsupported protocol major version.
    UnsupportedVersion,
    /// The payload exceeds the frame limit.
    PayloadTooLarge,
    /// The payload did not deserialize.
    Postcard,
}

/// How an inbound sequence number relates to the previous one.
#[derive(Debug, Clone, Copy, PartialEq, Eq, Structural)]
pub enum SeqClass {
    /// The first frame of a session.
    First,
    /// The expected next number.
    Expected,
    /// The same number as the previous frame.
    Duplicate,
    /// A forward jump: this many frames were lost.
    Gap(u16),
}

/// The reply to a `Ping`.
#[derive(Debug, Clone, Copy, PartialEq, Eq, Structural)]
pub struct Pong {
    /// The ping's timestamp, echoed.
    pub t_ms_echo: u32,
    /// Device uptime when answering.
    pub uptime_ms: ElapsedMs,
}

/// A heartbeat report.
#[derive(Debug, Clone, Copy, PartialEq, Eq, Structural)]
pub struct Health {
    /// Free SRAM in bytes (`0` when not measured).
    pub free_bytes: u32,
}

/// A safe diagnostic on the wire: a category and a fixed code, nothing else.
#[derive(Debug, Clone, Copy, PartialEq, Eq, Structural)]
pub struct Diagnostic {
    /// The category.
    pub category: ErrorCategory,
    /// The category-specific code.
    pub code: u16,
}

/// The bit of physical rotary input events.
pub const PHYSICAL_INPUT_V1_BIT: u32 = 1;
/// The bit of desktop-driven presentations.
pub const PRESENTATION_V1_BIT: u32 = 2;
/// The bit of social mascot reactions.
pub const MASCOT_INTERACTION_BIT: u32 = 4;

/// A firmware version.
#[derive(Debug, Clone, Copy, PartialEq, Eq, Structural)]
pub struct FirmwareVersion {
    /// Major version.
    pub major: u8,
    /// Minor version.
    pub minor: u8,
    /// Patch version.
    pub patch: u8,
}

/// The device's advertised identity, version and capabilities, answered to every `Hello`.
#[derive(Debug, Clone, Copy, PartialEq, Eq)]
pub struct DeviceIdentity {
    /// Opaque device identity (never put in a marker).
    pub device_id: [u8; 16],
    /// Firmware version.
    pub firmware_version: FirmwareVersion,
    /// Device capabilities.
    pub capabilities: Capabilities,
}

/// A set of protocol capabilities, as bits.
#[derive(Debug, Clone, Copy, PartialEq, Eq, Structural)]
pub struct Capabilities(pub u32);

impl Capabilities {
    /// No capability.
    pub fn none() -> (c: Self)
        ensures
            c.0 == 0,
    {
        Capabilities(0)
    }

    /// Physical rotary input events.
    pub fn physical_input_v1() -> (c: Self)
        ensures
            c.0 == PHYSICAL_INPUT_V1_BIT,
    {
        Capabilities(PHYSICAL_INPUT_V1_BIT)
    }

    /// Desktop-driven presentations.
    pub fn presentation_v1() -> (c: Self)
        ensures
            c.0 == PRESENTATION_V1_BIT,
    {
        Capabilities(PRESENTATION_V1_BIT)
    }

    /// Social mascot reactions.
    pub fn mascot_interaction() -> (c: Self)
        ensures
            c.0 == MASCOT_INTERACTION_BIT,
    {
        Capabilities(MASCOT_INTERACTION_BIT)
    }

    /// The set from its raw bits.
    pub fn from_bits(bits: u32) -> (c: Self)
        ensures
            c.0 == bits,
    {
        Capabilities(bits)
    }

    /// The raw bits.
    pub fn bits(self) -> (b: u32)
        ensures
            b == self.0,
    {
        self.0
    }

    /// The capabilities in both sets.
    pub fn intersection(self, other: Self) -> (c: Self)
        ensures
            c.0 == self.0 & other.0,
    {
        Capabilities(self.0 & other.0)
    }

    /// The capabilities in either set.
    pub fn union(self, other: Self) -> (c: Self)
        ensures
            c.0 == self.0 | other.0,
    {
        Capabilities(self.0 | other.0)
    }

    /// Whether every capability of `other` is in this set.
    pub fn contains(self, other: Self) -> (b: bool)
        ensures
            b == within(other.0, self.0),
    {
        let (a, o) = (self.0, other.0);
        assert((a & o == o) == (o & a == o)) by (bit_vector);
        self.0 & other.0 == other.0
    }

    /// Whether the set is empty.
    pub fn is_empty(self) -> (b: bool)
        ensures
            b == (self.0 == 0),
    {
        self.0 == 0
    }
}

/// Whether every bit of `small` is set in `big`.
pub open spec fn within(small: u32, big: u32) -> bool {
    small & big == small
}

} // verus!
