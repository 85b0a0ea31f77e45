//! Heartbeat and safe diagnostics.
//!
//! `Pong` echoes the desktop's ping timestamp and reports uptime; `Health` carries only free SRAM;
//! and [`DeviceDiagnostic`] is the safe-category allowlist made a type. Each variant maps to one
//! fixed `(ErrorCategory, code)` pair, and no variant can carry payload bytes, a raw device
//! identity, a path, or a free-form string, so an unsafe diagnostic is unrepresentable.

use crate::device::wire::{Diagnostic, ErrorCategory, Health, Pong, ProtoError, SeqClass};
use crate::model::ElapsedMs;
use vstd::prelude::*;

verus! {

/// Builds the `Pong` reply to a `Ping` whose timestamp was `ping_t_ms`, at device `uptime_ms`.
pub fn build_pong(ping_t_ms: u32, uptime_ms: ElapsedMs) -> (p: Pong)
    ensures
        p == (Pong { t_ms_echo: ping_t_ms, uptime_ms }),
{
    Pong { t_ms_echo: ping_t_ms, uptime_ms }
}

/// Builds a safe `Health` report from the current free SRAM, in bytes.
pub fn build_health(free_bytes: u32) -> (h: Health)
    ensures
        h == (Health { free_bytes }),
{
    Health { free_bytes }
}

/// Why the decoder rejected a frame, reduced to the categories the wire protocol defines.
///
/// Deliberately coarser than [`ProtoError`]: the desktop needs to know what class of thing went
/// wrong, never the offending bytes.
#[derive(Debug, Clone, Copy, PartialEq, Eq, Structural)]
pub enum RejectReason {
    /// COBS/length/magic framing problem.
    Framing,
    /// CRC-32 mismatch.
    Checksum,
    /// Unsupported protocol major version.
    Version,
    /// The payload did not decode, or was too large.
    Payload,
}

/// The safe category a decoder error falls in.
pub open spec fn reason_of(error: ProtoError) -> RejectReason {
    match error {
        ProtoError::Cobs | ProtoError::TooShort | ProtoError::BadMagic
        | ProtoError::LengthMismatch | ProtoError::BufferOverflow => RejectReason::Framing,
        ProtoError::BadCrc => RejectReason::Checksum,
        ProtoError::UnsupportedVersion => RejectReason::Version,
        ProtoError::PayloadTooLarge | ProtoError::Postcard => RejectReason::Payload,
    }
}

/// The wire category of a reject reason.
pub open spec fn reason_category(reason: RejectReason) -> ErrorCategory {
    match reason {
        RejectReason::Framing => ErrorCategory::Framing,
        RejectReason::Checksum => ErrorCategory::Checksum,
        RejectReason::Version => ErrorCategory::Version,
        RejectReason::Payload => ErrorCategory::BadPayload,
    }
}

impl RejectReason {
    /// Maps a decoder error onto a safe category, discarding everything else about it.
    pub fn of(error: &ProtoError) -> (r: Self)
        ensures
            r == reason_of(*error),
    {
        match error {
            ProtoError::Cobs | ProtoError::TooShort | ProtoError::BadMagic
            | ProtoError::LengthMismatch | ProtoError::BufferOverflow => RejectReason::Framing,
            ProtoError::BadCrc => RejectReason::Checksum,
            ProtoError::UnsupportedVersion => RejectReason::Version,
            ProtoError::PayloadTooLarge | ProtoError::Postcard => RejectReason::Payload,
        }
    }

    /// The wire category for this reason.
    pub fn category(self) -> (c: ErrorCategory)
        ensures
            c == reason_category(self),
    {
        match self {
            RejectReason::Framing => ErrorCategory::Framing,
            RejectReason::Checksum => ErrorCategory::Checksum,
            RejectReason::Version => ErrorCategory::Version,
            RejectReason::Payload => ErrorCategory::BadPayload,
        }
    }
}

/// The device-side safe-diagnostic allowlist.
///
/// Every variant is a fixed, bounded fact about the device's own operation. There is
/// intentionally no variant carrying bytes, an identifier, or text.
#[derive(Debug, Clone, Copy, PartialEq, Eq, Structural)]
pub enum DeviceDiagnostic {
    /// The decoder rejected an inbound frame; the device stayed up and resynchronised.
    FrameRejected(RejectReason),
    /// A forward jump in sequence numbers was observed (frames were lost in transit).
    SequenceGap,
    /// A tile write to the display sink failed.
    DisplayFault,
    /// The session ended: a `Bye` arrived, or the transport failed.
    LinkLost,
}

/// The wire category of a diagnostic.
pub open spec fn diagnostic_category(d: DeviceDiagnostic) -> ErrorCategory {
    match d {
        DeviceDiagnostic::FrameRejected(reason) => reason_category(reason),
        DeviceDiagnostic::SequenceGap => ErrorCategory::Framing,
        DeviceDiagnostic::DisplayFault | DeviceDiagnostic::LinkLost => ErrorCategory::Io,
    }
}

/// The fixed code of a diagnostic.
pub open spec fn diagnostic_code(d: DeviceDiagnostic) -> u16 {
    match d {
        DeviceDiagnostic::FrameRejected(RejectReason::Framing) => 1,
        DeviceDiagnostic::FrameRejected(RejectReason::Checksum) => 2,
        DeviceDiagnostic::FrameRejected(RejectReason::Version) => 3,
        DeviceDiagnostic::FrameRejected(RejectReason::Payload) => 4,
        DeviceDiagnostic::SequenceGap => 5,
        DeviceDiagnostic::DisplayFault => 6,
        DeviceDiagnostic::LinkLost => 7,
    }
}

/// The fixed local-logging label of a diagnostic.
pub open spec fn diagnostic_label(d: DeviceDiagnostic) -> Seq<char> {
    match d {
        DeviceDiagnostic::FrameRejected(RejectReason::Framing) => "frame-rejected-framing"@,
        DeviceDiagnostic::FrameRejected(RejectReason::Checksum) => "frame-rejected-checksum"@,
        DeviceDiagnostic::FrameRejected(RejectReason::Version) => "frame-rejected-version"@,
        DeviceDiagnostic::FrameRejected(RejectReason::Payload) => "frame-rejected-payload"@,
        DeviceDiagnostic::SequenceGap => "sequence-gap"@,
        DeviceDiagnostic::DisplayFault => "display-fault"@,
        DeviceDiagnostic::LinkLost => "link-lost"@,
    }
}

impl DeviceDiagnostic {
    /// The wire category.
    pub fn category(self) -> (c: ErrorCategory)
        ensures
            c == diagnostic_category(self),
    {
        match self {
            DeviceDiagnostic::FrameRejected(reason) => reason.category(),
            DeviceDiagnostic::SequenceGap => ErrorCategory::Framing,
            DeviceDiagnostic::DisplayFault | DeviceDiagnostic::LinkLost => ErrorCategory::Io,
        }
    }

    /// A stable, category-specific code. These are part of the observable contract, so they are
    /// fixed numbers rather than a discriminant that would shift if a variant were reordered.
    pub fn code(self) -> (c: u16)
        ensures
            c == diagnostic_code(self),
    {
        match self {
            DeviceDiagnostic::FrameRejected(RejectReason::Framing) => 1,
            DeviceDiagnostic::FrameRejected(RejectReason::Checksum) => 2,
            DeviceDiagnostic::FrameRejected(RejectReason::Version) => 3,
            DeviceDiagnostic::FrameRejected(RejectReason::Payload) => 4,
            DeviceDiagnostic::SequenceGap => 5,
            DeviceDiagnostic::DisplayFault => 6,
            DeviceDiagnostic::LinkLost => 7,
        }
    }

    /// A short, allowlisted label for local logging. Never interpolates any runtime value.
    pub fn label(self) -> (l: &'static str)
        ensures
            l@ == diagnostic_label(self),
    {
        match self {
            DeviceDiagnostic::FrameRejected(RejectReason::Framing) => "frame-rejected-framing",
            DeviceDiagnostic::FrameRejected(RejectReason::Checksum) => "frame-rejected-checksum",
            DeviceDiagnostic::FrameRejected(RejectReason::Version) => "frame-rejected-version",
            DeviceDiagnostic::FrameRejected(RejectReason::Payload) => "frame-rejected-payload",
            DeviceDiagnostic::SequenceGap => "sequence-gap",
            DeviceDiagnostic::DisplayFault => "display-fault",
            DeviceDiagnostic::LinkLost => "link-lost",
        }
    }
}

/// Builds the wire `Diagnostic` for an allowlisted device diagnostic.
pub fn build_diagnostic(diagnostic: DeviceDiagnostic) -> (d: Diagnostic)
    ensures
        d == (Diagnostic {
            category: diagnostic_category(diagnostic),
            code: diagnostic_code(diagnostic),
        }),
{
    Diagnostic { category: diagnostic.category(), code: diagnostic.code() }
}

/// The diagnostic a sequence classification warrants, if any.
pub open spec fn sequence_diagnostic(class: SeqClass) -> Option<DeviceDiagnostic> {
    match class {
        SeqClass::Gap(_) => Some(DeviceDiagnostic::SequenceGap),
        _ => None,
    }
}

/// Maps a sequence classification onto a diagnostic, when it warrants one.
///
/// `First`, `Expected`, and `Duplicate` are normal traffic and produce nothing; only a gap is
/// reportable.
pub fn diagnostic_for_sequence(class: SeqClass) -> (d: Option<DeviceDiagnostic>)
    ensures
        d == sequence_diagnostic(class),
{
    match class {
        SeqClass::Gap(_) => Some(DeviceDiagnostic::SequenceGap),
        SeqClass::First | SeqClass::Expected | SeqClass::Duplicate => None,
    }
}

/// Distinct diagnostics never share a wire code: the code alone identifies the fact reported.
pub proof fn law_codes_identify_diagnostics(a: DeviceDiagnostic, b: DeviceDiagnostic)
    ensures
        diagnostic_code(a) == diagnostic_code(b) ==> a == b,
{
}

/// Codes stay inside the fixed range `1..=7`.
pub proof fn law_codes_are_small(d: DeviceDiagnostic)
    ensures
        1 <= diagnostic_code(d) <= 7,
{
}

/// A rejected frame is always reported under the category of its reason, and that category is
/// never `Io`: decoder rejections and device faults stay apart on the wire.
pub proof fn law_rejections_are_never_io(error: ProtoError)
    ensures
        diagnostic_category(DeviceDiagnostic::FrameRejected(reason_of(error))) != ErrorCategory::Io,
{
}

} // verus!
