//! Canonical Wokwi automation vectors and scenarios.
//!
//! Every byte array a scenario injects with `write-serial` is a frame of the real protocol
//! codec, so the simulator exercises the true framing; no wire-format constant is duplicated
//! here. This module decides which frames exist (message, version and sequence number of each),
//! names them, derives the deliberately corrupted ones from real encodings, and writes the YAML
//! scenarios and the catalogue. Encoding itself is the codec's. Output is deterministic: fixed
//! nonces, timestamps and sequence numbers, no clock or randomness.

use crate::model::SendableState;
use crate::text::{collect_chars, decimal, is_space, is_whitespace, push_decimal, str_eq, string_from};
use vstd::prelude::*;

verus! {

/// The fixed nonce every `Hello` vector carries, so scenarios can assert the echo.
pub const HELLO_NONCE: u32 = 0x1234_5678;
/// The fixed `Ping` timestamp scenarios assert in the `Pong` echo.
pub const PING_T_MS: u32 = 4242;

/// A named wire vector: the exact bytes a scenario writes to the device's serial input.
#[derive(Debug, PartialEq, Eq)]
pub struct Vector {
    /// Stable case name.
    pub name: &'static str,
    /// What the case proves.
    pub purpose: &'static str,
    /// The complete wire packet (framed, `0x00`-delimited) or deliberately corrupted bytes.
    pub bytes: Vec<u8>,
}

/// A message to encode for a vector.
#[derive(Debug, Clone, Copy, PartialEq, Eq, Structural)]
pub enum RequestedMessage {
    /// A `Hello` from the fixed desktop version 1.0.0.
    Hello {
        /// The nonce.
        nonce: u32,
        /// The desktop's capability bits.
        caps_bits: u32,
    },
    /// A `Ping`.
    Ping {
        /// The timestamp.
        t_ms: u32,
    },
    /// A `SetState` with no scheduled time.
    SetState {
        /// The commanded state.
        desired: SendableState,
    },
}

/// The protocol version a frame is encoded at.
#[derive(Debug, Clone, Copy, PartialEq, Eq, Structural)]
pub enum WireVersion {
    /// The current major and minor.
    Current,
    /// The current major, with the minor five higher.
    CompatibleMinor,
    /// One major higher, minor zero.
    IncompatibleMajor,
}

/// One frame the codec must encode.
#[derive(Debug, Clone, Copy, PartialEq, Eq, Structural)]
pub struct FrameRequest {
    /// The message.
    pub message: RequestedMessage,
    /// The version.
    pub version: WireVersion,
    /// The sequence number.
    pub seq: u16,
}

/// The frames to encode, in order: the genuine vectors, then the ping whose CRC gets corrupted.
pub open spec fn requests_spec() -> Seq<FrameRequest> {
    let hello = RequestedMessage::Hello { nonce: HELLO_NONCE, caps_bits: 0 };
    let ping = RequestedMessage::Ping { t_ms: PING_T_MS };
    seq![
        FrameRequest { message: hello, version: WireVersion::Current, seq: 0 },
        FrameRequest { message: hello, version: WireVersion::CompatibleMinor, seq: 0 },
        FrameRequest { message: hello, version: WireVersion::IncompatibleMajor, seq: 0 },
        FrameRequest {
            message: RequestedMessage::Hello { nonce: HELLO_NONCE, caps_bits: 0xFFFF_FFFF },
            version: WireVersion::Current,
            seq: 0,
        },
        FrameRequest { message: ping, version: WireVersion::Current, seq: 1 },
        FrameRequest {
            message: RequestedMessage::SetState { desired: SendableState::Idle },
            version: WireVersion::Current,
            seq: 2,
        },
        FrameRequest {
            message: RequestedMessage::SetState { desired: SendableState::Happy },
            version: WireVersion::Current,
            seq: 3,
        },
        FrameRequest { message: ping, version: WireVersion::Current, seq: 1 },
        FrameRequest { message: ping, version: WireVersion::Current, seq: 900 },
        FrameRequest { message: ping, version: WireVersion::Current, seq: 0xFFFF },
        FrameRequest { message: ping, version: WireVersion::Current, seq: 0 },
        FrameRequest { message: ping, version: WireVersion::Current, seq: 4 },
    ]
}

/// The frames the catalogue needs the codec to encode, in order.
pub fn frame_requests() -> (r: Vec<FrameRequest>)
    ensures
        r@ == requests_spec(),
{
    let hello = RequestedMessage::Hello { nonce: HELLO_NONCE, caps_bits: 0 };
    let ping = RequestedMessage::Ping { t_ms: PING_T_MS };
    vec![
        FrameRequest { message: hello, version: WireVersion::Current, seq: 0 },
        FrameRequest { message: hello, version: WireVersion::CompatibleMinor, seq: 0 },
        FrameRequest { message: hello, version: WireVersion::IncompatibleMajor, seq: 0 },
        FrameRequest {
            message: RequestedMessage::Hello { nonce: HELLO_NONCE, caps_bits: 0xFFFF_FFFF },
            version: WireVersion::Current,
            seq: 0,
        },
        FrameRequest { message: ping, version: WireVersion::Current, seq: 1 },
        FrameRequest {
            message: RequestedMessage::SetState { desired: SendableState::Idle },
            version: WireVersion::Current,
            seq: 2,
        },
        FrameRequest {
            message: RequestedMessage::SetState { desired: SendableState::Happy },
            version: WireVersion::Current,
            seq: 3,
        },
        FrameRequest { message: ping, version: WireVersion::Current, seq: 1 },
        FrameRequest { message: ping, version: WireVersion::Current, seq: 900 },
        FrameRequest { message: ping, version: WireVersion::Current, seq: 0xFFFF },
        FrameRequest { message: ping, version: WireVersion::Current, seq: 0 },
        FrameRequest { message: ping, version: WireVersion::Current, seq: 4 },
    ]
}

/// The number of vectors in the catalogue.
pub const VECTOR_COUNT: usize = 14;

/// The name of vector `i`.
pub open spec fn name_spec(i: int) -> Seq<char> {
    if i == 0 {
        "hello"@
    } else if i == 1 {
        "hello_compatible_minor"@
    } else if i == 2 {
        "hello_incompatible_major"@
    } else if i == 3 {
        "hello_unsupported_capability"@
    } else if i == 4 {
        "ping"@
    } else if i == 5 {
        "set_state_idle"@
    } else if i == 6 {
        "set_state_happy"@
    } else if i == 7 {
        "ping_seq_duplicate"@
    } else if i == 8 {
        "ping_seq_gap"@
    } else if i == 9 {
        "ping_seq_wrap_max"@
    } else if i == 10 {
        "ping_seq_wrap_zero"@
    } else if i == 11 {
        "ping_crc_invalid"@
    } else if i == 12 {
        "malformed_cobs"@
    } else {
        "truncated_frame"@
    }
}

/// The purpose of vector `i`.
pub open spec fn purpose_spec(i: int) -> Seq<char> {
    if i == 0 {
        "handshake open at the current protocol version"@
    } else if i == 1 {
        "same major, higher minor — must be accepted (FR-003)"@
    } else if i == 2 {
        "unsupported major — must be rejected with no valid response (FR-003)"@
    } else if i == 3 {
        "host advertises capability bits the device does not implement — intersection must hold"@
    } else if i == 4 {
        "heartbeat — expects a Pong echoing the timestamp"@
    } else if i == 5 {
        "desired state idle — expects StateReport(idle)"@
    } else if i == 6 {
        "desired state happy — expects StateReport(happy)"@
    } else if i == 7 {
        "same sequence number as the previous frame — side effects must not repeat"@
    } else if i == 8 {
        "forward jump in sequence — accepted, classified as a gap"@
    } else if i == 9 {
        "sequence at u16::MAX, before the wraparound"@
    } else if i == 10 {
        "sequence wrapped to 0 — must be treated as the expected next value"@
    } else if i == 11 {
        "valid framing, corrupted CRC-32 — must be dropped, never dispatched (SC-008)"@
    } else if i == 12 {
        "invalid COBS run length — must be dropped without panic (SC-008)"@
    } else {
        "declared payload longer than the frame — must be dropped (protocol §8)"@
    }
}

/// Where the CRC byte to corrupt sits: the last byte before the delimiter.
pub open spec fn crc_pos(len: nat) -> int {
    if len >= 2 {
        len - 2
    } else {
        0
    }
}

/// A real frame with its last CRC byte inverted.
pub open spec fn crc_corrupted(frame: Seq<u8>) -> Seq<u8> {
    frame.update(crc_pos(frame.len()), frame[crc_pos(frame.len())] ^ 0xFFu8)
}

/// The bytes of vector `i`, given the codec's encodings of [`frame_requests`].
pub open spec fn bytes_spec(encoded: Seq<Seq<u8>>, i: int) -> Seq<u8> {
    if i < 11 {
        encoded[i]
    } else if i == 11 {
        crc_corrupted(encoded[11])
    } else if i == 12 {
        seq![0x05u8, 0xFF, 0x01, 0x00]
    } else {
        seq![0x03u8, 0x56, 0x4B, 0x00]
    }
}

/// The views of a list of byte vectors.
pub open spec fn views(v: Seq<Vec<u8>>) -> Seq<Seq<u8>> {
    v.map_values(|b: Vec<u8>| b@)
}

/// Whether `all` is the catalogue built from `encoded`.
pub open spec fn is_catalogue(all: Seq<Vector>, encoded: Seq<Seq<u8>>) -> bool {
    &&& all.len() == VECTOR_COUNT
    &&& forall|i: int|
        0 <= i < VECTOR_COUNT ==> (#[trigger] all[i]).name@ == name_spec(i) && all[i].purpose@
            == purpose_spec(i) && all[i].bytes@ == bytes_spec(encoded, i)
}

/// A copy of `bytes`.
fn copy_bytes(bytes: &[u8]) -> (v: Vec<u8>)
    ensures
        v@ == bytes@,
{
    let mut v: Vec<u8> = Vec::new();
    let mut i: usize = 0;
    while i < bytes.len()
        invariant
            i <= bytes@.len(),
            v@ == bytes@.take(i as int),
        decreases bytes@.len() - i,
    {
        v.push(bytes[i]);
        i = i + 1;
        proof {
            assert(v@ =~= bytes@.take(i as int));
        }
    }
    proof {
        assert(bytes@.take(bytes@.len() as int) =~= bytes@);
    }
    v
}

/// Builds the catalogue, in a stable order, from the codec's encodings of [`frame_requests`]
/// (one frame per request, in order). Corrupted vectors derive from a real encoding so that
/// only the intended field is wrong.
pub fn vectors(encoded: &Vec<Vec<u8>>) -> (all: Vec<Vector>)
    requires
        encoded@.len() == requests_spec().len(),
        encoded@[11]@.len() > 0,
    ensures
        is_catalogue(all@, views(encoded@)),
{
    let mut crc_invalid = copy_bytes(encoded[11].as_slice());
    let pos = if crc_invalid.len() >= 2 {
        crc_invalid.len() - 2
    } else {
        0
    };
    let flipped = crc_invalid[pos] ^ 0xFF;
    crc_invalid.set(pos, flipped);
    let all = vec![
        Vector {
            name: "hello",
            purpose: "handshake open at the current protocol version",
            bytes: copy_bytes(encoded[0].as_slice()),
        },
        Vector {
            name: "hello_compatible_minor",
            purpose: "same major, higher minor — must be accepted (FR-003)",
            bytes: copy_bytes(encoded[1].as_slice()),
        },
        Vector {
            name: "hello_incompatible_major",
            purpose: "unsupported major — must be rejected with no valid response (FR-003)",
            bytes: copy_bytes(encoded[2].as_slice()),
        },
        Vector {
            name: "hello_unsupported_capability",
            purpose: "host advertises capability bits the device does not implement — intersection must hold",
            bytes: copy_bytes(encoded[3].as_slice()),
        },
        Vector {
            name: "ping",
            purpose: "heartbeat — expects a Pong echoing the timestamp",
            bytes: copy_bytes(encoded[4].as_slice()),
        },
        Vector {
            name: "set_state_idle",
            purpose: "desired state idle — expects StateReport(idle)",
            bytes: copy_bytes(encoded[5].as_slice()),
        },
        Vector {
            name: "set_state_happy",
            purpose: "desired state happy — expects StateReport(happy)",
            bytes: copy_bytes(encoded[6].as_slice()),
        },
        Vector {
            name: "ping_seq_duplicate",
            purpose: "same sequence number as the previous frame — side effects must not repeat",
            bytes: copy_bytes(encoded[7].as_slice()),
        },
        Vector {
            name: "ping_seq_gap",
            purpose: "forward jump in sequence — accepted, classified as a gap",
            bytes: copy_bytes(encoded[8].as_slice()),
        },
        Vector {
            name: "ping_seq_wrap_max",
            purpose: "sequence at u16::MAX, before the wraparound",
            bytes: copy_bytes(encoded[9].as_slice()),
        },
        Vector {
            name: "ping_seq_wrap_zero",
            purpose: "sequence wrapped to 0 — must be treated as the expected next value",
            bytes: copy_bytes(encoded[10].as_slice()),
        },
        Vector {
            name: "ping_crc_invalid",
            purpose: "valid framing, corrupted CRC-32 — must be dropped, never dispatched (SC-008)",
            bytes: crc_invalid,
        },
        Vector {
            name: "malformed_cobs",
            purpose: "invalid COBS run length — must be dropped without panic (SC-008)",
            bytes: vec![0x05, 0xFF, 0x01, 0x00],
        },
        Vector {
            name: "truncated_frame",
            purpose: "declared payload longer than the frame — must be dropped (protocol §8)",
            bytes: vec![0x03, 0x56, 0x4B, 0x00],
        },
    ];
    proof {
        assert forall|i: int| 0 <= i < 11 implies #[trigger] views(encoded@)[i] == encoded@[i]@ by {}
        assert(all@[11].bytes@ =~= crc_corrupted(views(encoded@)[11]));
        assert(all@[12].bytes@ =~= seq![0x05u8, 0xFF, 0x01, 0x00]);
        assert(all@[13].bytes@ =~= seq![0x03u8, 0x56, 0x4B, 0x00]);
    }
    all
}

/// The decimal octets of `bytes`, separated by `", "`.
pub open spec fn joined(bytes: Seq<u8>) -> Seq<char>
    decreases bytes.len(),
{
    if bytes.len() == 0 {
        Seq::empty()
    } else if bytes.len() == 1 {
        decimal(bytes[0] as nat)
    } else {
        joined(bytes.drop_last()) + ", "@ + decimal(bytes.last() as nat)
    }
}

/// `bytes` as a YAML inline sequence of decimal octets.
pub open spec fn yaml_spec(bytes: Seq<u8>) -> Seq<char> {
    "["@ + joined(bytes) + "]"@
}

/// Appends the decimal octets of `bytes`, separated by `", "`, to `s`.
fn push_joined(s: &mut String, bytes: &[u8])
    ensures
        final(s)@ == old(s)@ + joined(bytes@),
{
    let mut i: usize = 0;
    while i < bytes.len()
        invariant
            i <= bytes@.len(),
            s@ == old(s)@ + joined(bytes@.take(i as int)),
        decreases bytes@.len() - i,
    {
        proof {
            assert(bytes@.take(i as int + 1).drop_last() =~= bytes@.take(i as int));
        }
        if i > 0 {
            s.append(", ");
        }
        push_decimal(s, bytes[i] as u64);
        i = i + 1;
        proof {
            if i == 1 {
                assert(joined(bytes@.take(1)) == decimal(bytes@[0] as nat));
                assert(joined(bytes@.take(0)) =~= Seq::<char>::empty());
            }
        }
    }
    proof {
        assert(bytes@.take(bytes@.len() as int) =~= bytes@);
    }
}

/// Formats `bytes` as a YAML inline sequence for a `write-serial` step.
pub fn yaml_bytes(bytes: &[u8]) -> (s: String)
    ensures
        s@ == yaml_spec(bytes@),
{
    let mut s = String::from_str("[");
    push_joined(&mut s, bytes);
    s.append("]");
    s
}


/// Whether `i` is the first vector named `name`.
pub open spec fn is_first(all: Seq<Vector>, name: Seq<char>, i: int) -> bool {
    &&& 0 <= i < all.len()
    &&& all[i].name@ == name
    &&& forall|j: int| 0 <= j < i ==> (#[trigger] all[j]).name@ != name
}

/// Whether a vector named `name` exists.
pub open spec fn has_vector(all: Seq<Vector>, name: Seq<char>) -> bool {
    exists|i: int| 0 <= i < all.len() && (#[trigger] all[i]).name@ == name
}

/// The index of the first vector named `name`.
pub open spec fn first_index(all: Seq<Vector>, name: Seq<char>) -> int {
    choose|i: int| is_first(all, name, i)
}

/// A vector named `name` at `w` means a first one exists.
proof fn lemma_first_below(all: Seq<Vector>, name: Seq<char>, w: int)
    requires
        0 <= w < all.len(),
        all[w].name@ == name,
    ensures
        exists|i: int| is_first(all, name, i),
    decreases w,
{
    if exists|j: int| 0 <= j < w && (#[trigger] all[j]).name@ == name {
        let j = choose|j: int| 0 <= j < w && (#[trigger] all[j]).name@ == name;
        lemma_first_below(all, name, j);
    } else {
        assert(is_first(all, name, w));
    }
}

/// There is exactly one first vector of a name that exists.
pub proof fn lemma_first_exists(all: Seq<Vector>, name: Seq<char>)
    requires
        has_vector(all, name),
    ensures
        is_first(all, name, first_index(all, name)),
        forall|i: int| is_first(all, name, i) ==> i == first_index(all, name),
{
    let w = choose|i: int| 0 <= i < all.len() && (#[trigger] all[i]).name@ == name;
    lemma_first_below(all, name, w);
    assert(exists|i: int| is_first(all, name, i));
    assert forall|i: int| is_first(all, name, i) implies i == first_index(all, name) by {
        let f = first_index(all, name);
        assert(is_first(all, name, f));
        if i < f {
            assert(all[i].name@ != name);
        } else if f < i {
            assert(all[f].name@ != name);
        }
    }
}

/// The catalogue is a function of the encodings: two catalogues built from the same frames hold
/// the same names, purposes and bytes, in the same order.
pub proof fn law_catalogue_is_deterministic(a: Seq<Vector>, b: Seq<Vector>, encoded: Seq<Seq<u8>>)
    requires
        is_catalogue(a, encoded),
        is_catalogue(b, encoded),
    ensures
        a.len() == b.len(),
        forall|i: int|
            0 <= i < a.len() ==> (#[trigger] a[i]).name@ == b[i].name@ && a[i].purpose@
                == b[i].purpose@ && a[i].bytes@ == b[i].bytes@,
{
    assert forall|i: int| 0 <= i < a.len() implies (#[trigger] a[i]).name@ == b[i].name@
        && a[i].purpose@ == b[i].purpose@ && a[i].bytes@ == b[i].bytes@ by {
        assert(b[i].name@ == name_spec(i));
    }
}

/// No two vectors of the catalogue share a name.
pub proof fn law_catalogue_names_are_distinct(all: Seq<Vector>, encoded: Seq<Seq<u8>>)
    requires
        is_catalogue(all, encoded),
    ensures
        forall|i: int, j: int|
            0 <= i < j < all.len() ==> (#[trigger] all[i]).name@ != (#[trigger] all[j]).name@,
{
    reveal_strlit("hello");
    reveal_strlit("hello_compatible_minor");
    reveal_strlit("hello_incompatible_major");
    reveal_strlit("hello_unsupported_capability");
    reveal_strlit("ping");
    reveal_strlit("set_state_idle");
    reveal_strlit("set_state_happy");
    reveal_strlit("ping_seq_duplicate");
    reveal_strlit("ping_seq_gap");
    reveal_strlit("ping_seq_wrap_max");
    reveal_strlit("ping_seq_wrap_zero");
    reveal_strlit("ping_crc_invalid");
    reveal_strlit("malformed_cobs");
    reveal_strlit("truncated_frame");
    assert forall|i: int, j: int| 0 <= i < j < all.len() implies (#[trigger] all[i]).name@
        != (#[trigger] all[j]).name@ by {
        assert(all[i].name@ == name_spec(i));
        assert(all[j].name@ == name_spec(j));
        if name_spec(i).len() == name_spec(j).len() {
            assert(name_spec(i)[0] != name_spec(j)[0] || name_spec(i)[9] != name_spec(j)[9]);
        }
    }
}

/// Every vector is a non-empty packet ending in the `0x00` delimiter, when every encoded frame
/// is one (the corrupted CRC byte sits before the delimiter).
pub proof fn law_catalogue_frames_are_delimited(all: Seq<Vector>, encoded: Seq<Seq<u8>>)
    requires
        is_catalogue(all, encoded),
        encoded.len() == requests_spec().len(),
        forall|i: int|
            0 <= i < encoded.len() ==> (#[trigger] encoded[i]).len() >= 2 && encoded[i].last()
                == 0u8,
    ensures
        forall|i: int|
            0 <= i < all.len() ==> (#[trigger] all[i]).bytes@.len() > 0 && all[i].bytes@.last()
                == 0u8,
{
    assert forall|i: int| 0 <= i < all.len() implies (#[trigger] all[i]).bytes@.len() > 0
        && all[i].bytes@.last() == 0u8 by {
        assert(all[i].bytes@ == bytes_spec(encoded, i));
        if i < 11 {
            assert(encoded[i].len() >= 2);
        } else if i == 11 {
            assert(encoded[11].len() >= 2);
        }
    }
}

/// The index of the first vector named `name`, which must exist.
pub fn vector_index(all: &Vec<Vector>, name: &str) -> (i: usize)
    requires
        has_vector(all@, name@),
    ensures
        is_first(all@, name@, i as int),
        i == first_index(all@, name@),
{
    proof {
        lemma_first_exists(all@, name@);
    }
    let mut i: usize = 0;
    while i < all.len()
        invariant
            i <= all@.len(),
            has_vector(all@, name@),
            is_first(all@, name@, first_index(all@, name@)),
            forall|j: int| 0 <= j < i ==> (#[trigger] all@[j]).name@ != name@,
        decreases all@.len() - i,
    {
        if str_eq(all[i].name, name) {
            return i;
        }
        i = i + 1;
    }
    proof {
        let f = first_index(all@, name@);
        assert(all@[f].name@ != name@);
    }
    0
}

/// Looks a vector up by name. The name must be in the catalogue.
pub fn vector(all: &Vec<Vector>, name: &str) -> (v: Vector)
    requires
        has_vector(all@, name@),
    ensures
        v.name@ == all@[first_index(all@, name@)].name@,
        v.purpose@ == all@[first_index(all@, name@)].purpose@,
        v.bytes@ == all@[first_index(all@, name@)].bytes@,
{
    let i = vector_index(all, name);
    let found = &all[i];
    Vector { name: found.name, purpose: found.purpose, bytes: copy_bytes(found.bytes.as_slice()) }
}

/// A vector of the catalogue, by position.
#[derive(Debug, Clone, Copy, PartialEq, Eq, Structural)]
pub enum VectorId {
    /// `hello`.
    Hello,
    /// `hello_compatible_minor`.
    HelloCompatibleMinor,
    /// `hello_incompatible_major`.
    HelloIncompatibleMajor,
    /// `hello_unsupported_capability`.
    HelloUnsupportedCapability,
    /// `ping`.
    Ping,
    /// `set_state_idle`.
    SetStateIdle,
    /// `set_state_happy`.
    SetStateHappy,
    /// `ping_seq_duplicate`.
    PingSeqDuplicate,
    /// `ping_seq_gap`.
    PingSeqGap,
    /// `ping_seq_wrap_max`.
    PingSeqWrapMax,
    /// `ping_seq_wrap_zero`.
    PingSeqWrapZero,
    /// `ping_crc_invalid`.
    PingCrcInvalid,
    /// `malformed_cobs`.
    MalformedCobs,
    /// `truncated_frame`.
    TruncatedFrame,
}

/// The catalogue position of a vector.
pub open spec fn id_index(id: VectorId) -> int {
    match id {
        VectorId::Hello => 0,
        VectorId::HelloCompatibleMinor => 1,
        VectorId::HelloIncompatibleMajor => 2,
        VectorId::HelloUnsupportedCapability => 3,
        VectorId::Ping => 4,
        VectorId::SetStateIdle => 5,
        VectorId::SetStateHappy => 6,
        VectorId::PingSeqDuplicate => 7,
        VectorId::PingSeqGap => 8,
        VectorId::PingSeqWrapMax => 9,
        VectorId::PingSeqWrapZero => 10,
        VectorId::PingCrcInvalid => 11,
        VectorId::MalformedCobs => 12,
        VectorId::TruncatedFrame => 13,
    }
}

impl VectorId {
    /// The catalogue position of this vector.
    pub fn index(self) -> (i: usize)
        ensures
            i == id_index(self),
    {
        match self {
            VectorId::Hello => 0,
            VectorId::HelloCompatibleMinor => 1,
            VectorId::HelloIncompatibleMajor => 2,
            VectorId::HelloUnsupportedCapability => 3,
            VectorId::Ping => 4,
            VectorId::SetStateIdle => 5,
            VectorId::SetStateHappy => 6,
            VectorId::PingSeqDuplicate => 7,
            VectorId::PingSeqGap => 8,
            VectorId::PingSeqWrapMax => 9,
            VectorId::PingSeqWrapZero => 10,
            VectorId::PingCrcInvalid => 11,
            VectorId::MalformedCobs => 12,
            VectorId::TruncatedFrame => 13,
        }
    }
}

/// One scenario step.
#[derive(Debug, Clone, Copy, PartialEq, Eq)]
pub enum Step {
    /// Wait until the serial output shows this marker.
    Wait(&'static str),
    /// Inject this vector.
    Write(VectorId),
}

/// The YAML lines of one step.
pub open spec fn step_text(all: Seq<Vector>, step: Step) -> Seq<char> {
    match step {
        Step::Wait(text) => "  - wait-serial: '"@ + text@ + "'\n"@,
        Step::Write(id) => {
            let v = all[id_index(id)];
            "  # "@ + v.name@ + ": "@ + v.purpose@ + "\n"@ + "  - write-serial: "@ + yaml_spec(
                v.bytes@,
            ) + "\n"@
        },
    }
}

/// The YAML lines of a list of steps.
pub open spec fn steps_text(all: Seq<Vector>, steps: Seq<Step>) -> Seq<char>
    decreases steps.len(),
{
    if steps.len() == 0 {
        Seq::empty()
    } else {
        steps_text(all, steps.drop_last()) + step_text(all, steps.last())
    }
}

/// The banner every output file starts with.
pub open spec fn banner() -> Seq<char> {
    "# Wokwi automation: do not edit by hand.\n"@
        + "# Every write-serial byte array below is a genuine wire frame of the protocol codec;\n"@
        + "# CI fails on any difference from the catalogue (stale vectors).\n"@
}

/// Appends the banner.
fn push_banner(s: &mut String)
    ensures
        final(s)@ == old(s)@ + banner(),
{
    s.append("# Wokwi automation: do not edit by hand.\n");
    s.append("# Every write-serial byte array below is a genuine wire frame of the protocol codec;\n");
    s.append("# CI fails on any difference from the catalogue (stale vectors).\n");
}

/// The comment lines of a scenario's description, one `# ` line each.
pub open spec fn doc_text(doc: Seq<&'static str>) -> Seq<char>
    decreases doc.len(),
{
    if doc.len() == 0 {
        Seq::empty()
    } else {
        doc_text(doc.drop_last()) + "# "@ + doc.last()@ + "\n"@
    }
}

/// The header of a scenario: banner, description, and the required top-level keys.
pub open spec fn header_text(name: Seq<char>, doc: Seq<&'static str>) -> Seq<char> {
    banner() + "#\n"@ + doc_text(doc) + "name: "@ + name + "\nversion: 1\nauthor: Kivori\nsteps:\n"@
}

/// A whole scenario file.
pub open spec fn scenario_text(
    all: Seq<Vector>,
    name: Seq<char>,
    doc: Seq<&'static str>,
    steps: Seq<Step>,
) -> Seq<char> {
    header_text(name, doc) + steps_text(all, steps)
}

/// Appends the lines of one step.
fn push_step(s: &mut String, all: &Vec<Vector>, step: Step)
    requires
        all@.len() == VECTOR_COUNT,
    ensures
        final(s)@ == old(s)@ + step_text(all@, step),
{
    match step {
        Step::Wait(text) => {
            s.append("  - wait-serial: '");
            s.append(text);
            s.append("'\n");
            proof {
                assert(s@ =~= old(s)@ + step_text(all@, step));
            }
        },
        Step::Write(id) => {
            let v = &all[id.index()];
            s.append("  # ");
            s.append(v.name);
            s.append(": ");
            s.append(v.purpose);
            s.append("\n");
            s.append("  - write-serial: ");
            let y = yaml_bytes(v.bytes.as_slice());
            s.append(y.as_str());
            s.append("\n");
            proof {
                assert(s@ =~= old(s)@ + step_text(all@, step));
            }
        },
    }
}

/// Writes a scenario named `name`, described by `doc` (one line each), performing `steps`.
pub fn render_scenario(all: &Vec<Vector>, name: &str, doc: &[&'static str], steps: &[Step]) -> (s:
    String)
    requires
        all@.len() == VECTOR_COUNT,
    ensures
        s@ == scenario_text(all@, name@, doc@, steps@),
{
    let mut s = String::new();
    push_banner(&mut s);
    s.append("#\n");
    let mut i: usize = 0;
    while i < doc.len()
        invariant
            i <= doc@.len(),
            s@ == banner() + "#\n"@ + doc_text(doc@.take(i as int)),
        decreases doc@.len() - i,
    {
        proof {
            assert(doc@.take(i as int + 1).drop_last() =~= doc@.take(i as int));
        }
        s.append("# ");
        s.append(doc[i]);
        s.append("\n");
        i = i + 1;
        proof {
            assert(s@ =~= banner() + "#\n"@ + doc_text(doc@.take(i as int)));
        }
    }
    proof {
        assert(doc@.take(doc@.len() as int) =~= doc@);
    }
    s.append("name: ");
    s.append(name);
    s.append("\nversion: 1\nauthor: Kivori\nsteps:\n");
    proof {
        assert(s@ =~= header_text(name@, doc@));
    }
    let mut k: usize = 0;
    while k < steps.len()
        invariant
            k <= steps@.len(),
            all@.len() == VECTOR_COUNT,
            s@ == header_text(name@, doc@) + steps_text(all@, steps@.take(k as int)),
        decreases steps@.len() - k,
    {
        proof {
            assert(steps@.take(k as int + 1).drop_last() =~= steps@.take(k as int));
            assert(steps@[k as int] == steps@.take(k as int + 1).last());
        }
        let step = steps[k];
        push_step(&mut s, all, step);
        k = k + 1;
        proof {
            assert(s@ =~= header_text(name@, doc@) + steps_text(all@, steps@.take(k as int)));
        }
    }
    proof {
        assert(steps@.take(steps@.len() as int) =~= steps@);
    }
    s
}


/// The description lines of the `kivori-protocol-serial` scenario.
pub open spec fn protocol_serial_doc() -> Seq<&'static str> {
    seq![
        "External serial test: Wokwi injects real wire frames over USB Serial/JTAG; the firmware's real",
        "COBS/CRC/postcard decoder, sequence policy, and Dispatcher handle them and emit redacted markers.",
    ]
}

/// The steps of the `kivori-protocol-serial` scenario.
pub open spec fn protocol_serial_steps() -> Seq<Step> {
    seq![
        Step::Wait("KIVORI-EXT READY"),
        Step::Write(VectorId::Hello),
        Step::Wait("KIVORI-EXT RX kind=Hello"),
        Step::Wait("KIVORI-EXT TX kind=HelloAck nonce=ok"),
        Step::Write(VectorId::Ping),
        Step::Wait("KIVORI-EXT RX kind=Ping"),
        Step::Wait("KIVORI-EXT TX kind=Pong echo=4242"),
        Step::Write(VectorId::HelloCompatibleMinor),
        Step::Wait("KIVORI-EXT TX kind=HelloAck nonce=ok"),
        Step::Write(VectorId::HelloUnsupportedCapability),
        Step::Wait("KIVORI-EXT CAPS advertised=none"),
        Step::Write(VectorId::HelloIncompatibleMajor),
        Step::Wait("KIVORI-EXT DROP reason=decode"),
        Step::Write(VectorId::PingCrcInvalid),
        Step::Wait("KIVORI-EXT DROP reason=decode"),
        Step::Write(VectorId::MalformedCobs),
        Step::Wait("KIVORI-EXT DROP reason=decode"),
        Step::Write(VectorId::TruncatedFrame),
        Step::Wait("KIVORI-EXT DROP reason=decode"),
        Step::Write(VectorId::Ping),
        Step::Wait("KIVORI-EXT TX kind=Pong echo=4242"),
        Step::Write(VectorId::PingSeqDuplicate),
        Step::Wait("KIVORI-EXT SEQ seq=1 class=duplicate"),
        Step::Write(VectorId::PingSeqGap),
        Step::Wait("KIVORI-EXT SEQ seq=900 class=gap"),
        Step::Write(VectorId::PingSeqWrapMax),
        Step::Write(VectorId::PingSeqWrapZero),
        Step::Wait("KIVORI-EXT SEQ seq=0 class=ok"),
    ]
}

/// External-serial protocol scenario: real frames in, semantic markers out.
pub fn protocol_serial(all: &Vec<Vector>) -> (s: String)
    requires
        all@.len() == VECTOR_COUNT,
    ensures
        s@ == scenario_text(all@, "kivori-protocol-serial"@, protocol_serial_doc(), protocol_serial_steps()),
{
    let doc: Vec<&'static str> = vec![
        "External serial test: Wokwi injects real wire frames over USB Serial/JTAG; the firmware's real",
        "COBS/CRC/postcard decoder, sequence policy, and Dispatcher handle them and emit redacted markers.",
    ];
    let steps: Vec<Step> = vec![
        Step::Wait("KIVORI-EXT READY"),
        Step::Write(VectorId::Hello),
        Step::Wait("KIVORI-EXT RX kind=Hello"),
        Step::Wait("KIVORI-EXT TX kind=HelloAck nonce=ok"),
        Step::Write(VectorId::Ping),
        Step::Wait("KIVORI-EXT RX kind=Ping"),
        Step::Wait("KIVORI-EXT TX kind=Pong echo=4242"),
        Step::Write(VectorId::HelloCompatibleMinor),
        Step::Wait("KIVORI-EXT TX kind=HelloAck nonce=ok"),
        Step::Write(VectorId::HelloUnsupportedCapability),
        Step::Wait("KIVORI-EXT CAPS advertised=none"),
        Step::Write(VectorId::HelloIncompatibleMajor),
        Step::Wait("KIVORI-EXT DROP reason=decode"),
        Step::Write(VectorId::PingCrcInvalid),
        Step::Wait("KIVORI-EXT DROP reason=decode"),
        Step::Write(VectorId::MalformedCobs),
        Step::Wait("KIVORI-EXT DROP reason=decode"),
        Step::Write(VectorId::TruncatedFrame),
        Step::Wait("KIVORI-EXT DROP reason=decode"),
        Step::Write(VectorId::Ping),
        Step::Wait("KIVORI-EXT TX kind=Pong echo=4242"),
        Step::Write(VectorId::PingSeqDuplicate),
        Step::Wait("KIVORI-EXT SEQ seq=1 class=duplicate"),
        Step::Write(VectorId::PingSeqGap),
        Step::Wait("KIVORI-EXT SEQ seq=900 class=gap"),
        Step::Write(VectorId::PingSeqWrapMax),
        Step::Write(VectorId::PingSeqWrapZero),
        Step::Wait("KIVORI-EXT SEQ seq=0 class=ok"),
    ];
    render_scenario(all, "kivori-protocol-serial", doc.as_slice(), steps.as_slice())
}

/// The description lines of the `kivori-state-cycle-serial` scenario.
pub open spec fn state_cycle_serial_doc() -> Seq<&'static str> {
    seq![
        "External serial test: desired-state commands arrive as real SetState frames and the device",
        "reports back. `booting`/`offline` are unrepresentable in the payload (FR-014/FR-015). An invalid",
        "frame must not corrupt the current state, and the next valid frame must still be served.",
        "The run ends on ALL PASS state-cycle, which the firmware emits ONLY after every post-condition",
        "it observed genuinely held — never merely because a step executed.",
    ]
}

/// The steps of the `kivori-state-cycle-serial` scenario.
pub open spec fn state_cycle_serial_steps() -> Seq<Step> {
    seq![
        Step::Wait("KIVORI-EXT READY iface=usb-serial-jtag"),
        Step::Write(VectorId::Hello),
        Step::Wait("KIVORI-EXT RX kind=Hello"),
        Step::Wait("KIVORI-EXT TX kind=HelloAck nonce=ok"),
        Step::Write(VectorId::SetStateIdle),
        Step::Wait("KIVORI-EXT RX kind=SetState"),
        Step::Wait("KIVORI-EXT TX kind=StateReport reported=idle"),
        Step::Wait("KIVORI-EXT STATE current=idle"),
        Step::Write(VectorId::SetStateHappy),
        Step::Wait("KIVORI-EXT TX kind=StateReport reported=happy"),
        Step::Wait("KIVORI-EXT STATE current=happy"),
        Step::Write(VectorId::MalformedCobs),
        Step::Wait("KIVORI-EXT DROP reason=decode"),
        Step::Wait("KIVORI-EXT STATE current=happy"),
        Step::Write(VectorId::Ping),
        Step::Wait("KIVORI-EXT TX kind=Pong"),
        Step::Wait("KIVORI-EXT ALL PASS state-cycle"),
    ]
}

/// External-serial state cycle: SetState in, StateReport out, invalid input, recovery, completion.
pub fn state_cycle_serial(all: &Vec<Vector>) -> (s: String)
    requires
        all@.len() == VECTOR_COUNT,
    ensures
        s@ == scenario_text(all@, "kivori-state-cycle-serial"@, state_cycle_serial_doc(), state_cycle_serial_steps()),
{
    let doc: Vec<&'static str> = vec![
        "External serial test: desired-state commands arrive as real SetState frames and the device",
        "reports back. `booting`/`offline` are unrepresentable in the payload (FR-014/FR-015). An invalid",
        "frame must not corrupt the current state, and the next valid frame must still be served.",
        "The run ends on ALL PASS state-cycle, which the firmware emits ONLY after every post-condition",
        "it observed genuinely held — never merely because a step executed.",
    ];
    let steps: Vec<Step> = vec![
        Step::Wait("KIVORI-EXT READY iface=usb-serial-jtag"),
        Step::Write(VectorId::Hello),
        Step::Wait("KIVORI-EXT RX kind=Hello"),
        Step::Wait("KIVORI-EXT TX kind=HelloAck nonce=ok"),
        Step::Write(VectorId::SetStateIdle),
        Step::Wait("KIVORI-EXT RX kind=SetState"),
        Step::Wait("KIVORI-EXT TX kind=StateReport reported=idle"),
        Step::Wait("KIVORI-EXT STATE current=idle"),
        Step::Write(VectorId::SetStateHappy),
        Step::Wait("KIVORI-EXT TX kind=StateReport reported=happy"),
        Step::Wait("KIVORI-EXT STATE current=happy"),
        Step::Write(VectorId::MalformedCobs),
        Step::Wait("KIVORI-EXT DROP reason=decode"),
        Step::Wait("KIVORI-EXT STATE current=happy"),
        Step::Write(VectorId::Ping),
        Step::Wait("KIVORI-EXT TX kind=Pong"),
        Step::Wait("KIVORI-EXT ALL PASS state-cycle"),
    ];
    render_scenario(all, "kivori-state-cycle-serial", doc.as_slice(), steps.as_slice())
}

/// The description lines of the `kivori-serial-smoke` scenario.
pub open spec fn serial_smoke_doc() -> Seq<&'static str> {
    seq![
        "Smallest external check: the firmware announces readiness, receives one known real frame over",
        "USB Serial/JTAG, and the response path produces a marker.",
    ]
}

/// The steps of the `kivori-serial-smoke` scenario.
pub open spec fn serial_smoke_steps() -> Seq<Step> {
    seq![
        Step::Wait("KIVORI-EXT READY iface=usb-serial-jtag"),
        Step::Write(VectorId::Ping),
        Step::Wait("KIVORI-EXT RX kind=Ping"),
        Step::Wait("KIVORI-EXT TX kind=Pong echo=4242"),
    ]
}

/// Minimal external receive/transmit smoke test.
pub fn serial_smoke(all: &Vec<Vector>) -> (s: String)
    requires
        all@.len() == VECTOR_COUNT,
    ensures
        s@ == scenario_text(all@, "kivori-serial-smoke"@, serial_smoke_doc(), serial_smoke_steps()),
{
    let doc: Vec<&'static str> = vec![
        "Smallest external check: the firmware announces readiness, receives one known real frame over",
        "USB Serial/JTAG, and the response path produces a marker.",
    ];
    let steps: Vec<Step> = vec![
        Step::Wait("KIVORI-EXT READY iface=usb-serial-jtag"),
        Step::Write(VectorId::Ping),
        Step::Wait("KIVORI-EXT RX kind=Ping"),
        Step::Wait("KIVORI-EXT TX kind=Pong echo=4242"),
    ];
    render_scenario(all, "kivori-serial-smoke", doc.as_slice(), steps.as_slice())
}

/// The description lines of the `kivori-production-runtime` scenario.
pub open spec fn production_runtime_doc() -> Seq<&'static str> {
    seq![
        "PRODUCTION runtime under simulation: `runtime::run` (T074) driving the real USB Serial/JTAG",
        "transport and the real T072 SPI DisplaySink, with the simulation-only board profile.",
        "Proves the device-owned booting->offline transition, the first full frame, change-driven refresh,",
        "health cadence, handshake, state commands, malformed-frame survival with a SAFE diagnostic",
        "(category+code only), and recovery on the next valid frame.",
        "SCOPE: nothing here validates the physical panel controller, its init sequence, offsets,",
        "orientation, colour order, or backlight — those remain unconfirmed hardware facts.",
        "The run ends on ALL PASS production-runtime, which the firmware emits ONLY once every",
        "post-condition it observed genuinely held.",
    ]
}

/// The steps of the `kivori-production-runtime` scenario.
pub open spec fn production_runtime_steps() -> Seq<Step> {
    seq![
        Step::Wait("KIVORI-RUN READY iface=usb-serial-jtag display=generic-spi"),
        Step::Wait("KIVORI-RUN PASS lifecycle-booting-to-offline"),
        Step::Wait("KIVORI-RUN PASS first-frame-six-tiles"),
        Step::Wait("KIVORI-RUN PASS health-report"),
        Step::Wait("KIVORI-RUN PASS unchanged-frame-no-reflush"),
        Step::Write(VectorId::Hello),
        Step::Wait("KIVORI-RUN PASS hello-ack"),
        Step::Write(VectorId::SetStateIdle),
        Step::Wait("KIVORI-RUN PASS state-idle"),
        Step::Write(VectorId::SetStateHappy),
        Step::Wait("KIVORI-RUN PASS state-happy"),
        Step::Write(VectorId::MalformedCobs),
        Step::Wait("KIVORI-RUN PASS diagnostic label=frame-rejected-framing"),
        Step::Write(VectorId::Ping),
        Step::Wait("KIVORI-RUN PASS pong"),
        Step::Wait("KIVORI-RUN PASS recovery-after-reject"),
        Step::Wait("KIVORI-RUN ALL PASS production-runtime"),
    ]
}

/// The production-runtime scenario: real frames into the genuine run loop. Markers are emitted from
/// observed ticks, so each one reports work that actually happened.
pub fn production_runtime(all: &Vec<Vector>) -> (s: String)
    requires
        all@.len() == VECTOR_COUNT,
    ensures
        s@ == scenario_text(all@, "kivori-production-runtime"@, production_runtime_doc(), production_runtime_steps()),
{
    let doc: Vec<&'static str> = vec![
        "PRODUCTION runtime under simulation: `runtime::run` (T074) driving the real USB Serial/JTAG",
        "transport and the real T072 SPI DisplaySink, with the simulation-only board profile.",
        "Proves the device-owned booting->offline transition, the first full frame, change-driven refresh,",
        "health cadence, handshake, state commands, malformed-frame survival with a SAFE diagnostic",
        "(category+code only), and recovery on the next valid frame.",
        "SCOPE: nothing here validates the physical panel controller, its init sequence, offsets,",
        "orientation, colour order, or backlight — those remain unconfirmed hardware facts.",
        "The run ends on ALL PASS production-runtime, which the firmware emits ONLY once every",
        "post-condition it observed genuinely held.",
    ];
    let steps: Vec<Step> = vec![
        Step::Wait("KIVORI-RUN READY iface=usb-serial-jtag display=generic-spi"),
        Step::Wait("KIVORI-RUN PASS lifecycle-booting-to-offline"),
        Step::Wait("KIVORI-RUN PASS first-frame-six-tiles"),
        Step::Wait("KIVORI-RUN PASS health-report"),
        Step::Wait("KIVORI-RUN PASS unchanged-frame-no-reflush"),
        Step::Write(VectorId::Hello),
        Step::Wait("KIVORI-RUN PASS hello-ack"),
        Step::Write(VectorId::SetStateIdle),
        Step::Wait("KIVORI-RUN PASS state-idle"),
        Step::Write(VectorId::SetStateHappy),
        Step::Wait("KIVORI-RUN PASS state-happy"),
        Step::Write(VectorId::MalformedCobs),
        Step::Wait("KIVORI-RUN PASS diagnostic label=frame-rejected-framing"),
        Step::Write(VectorId::Ping),
        Step::Wait("KIVORI-RUN PASS pong"),
        Step::Wait("KIVORI-RUN PASS recovery-after-reject"),
        Step::Wait("KIVORI-RUN ALL PASS production-runtime"),
    ];
    render_scenario(all, "kivori-production-runtime", doc.as_slice(), steps.as_slice())
}

/// Every scenario, as `(name, yaml)`.
pub fn generated_scenarios(all: &Vec<Vector>) -> (r: Vec<(&'static str, String)>)
    requires
        all@.len() == VECTOR_COUNT,
    ensures
        r@.len() == 4,
        r@[0].0@ == "protocol-serial"@,
        r@[0].1@ == scenario_text(
            all@,
            "kivori-protocol-serial"@,
            protocol_serial_doc(),
            protocol_serial_steps(),
        ),
        r@[1].0@ == "state-cycle-serial"@,
        r@[1].1@ == scenario_text(
            all@,
            "kivori-state-cycle-serial"@,
            state_cycle_serial_doc(),
            state_cycle_serial_steps(),
        ),
        r@[2].0@ == "serial-smoke"@,
        r@[2].1@ == scenario_text(
            all@,
            "kivori-serial-smoke"@,
            serial_smoke_doc(),
            serial_smoke_steps(),
        ),
        r@[3].0@ == "production-runtime"@,
        r@[3].1@ == scenario_text(
            all@,
            "kivori-production-runtime"@,
            production_runtime_doc(),
            production_runtime_steps(),
        ),
{
    vec![
        ("protocol-serial", protocol_serial(all)),
        ("state-cycle-serial", state_cycle_serial(all)),
        ("serial-smoke", serial_smoke(all)),
        ("production-runtime", production_runtime(all)),
    ]
}

/// The catalogue lines of one vector.
pub open spec fn entry_text(v: Vector) -> Seq<char> {
    "  - name: "@ + v.name@ + "\n    purpose: '"@ + v.purpose@ + "'\n    len: "@ + decimal(
        v.bytes@.len(),
    ) + "\n    bytes: "@ + yaml_spec(v.bytes@) + "\n"@
}

/// The catalogue lines of a list of vectors.
pub open spec fn entries_text(all: Seq<Vector>) -> Seq<char>
    decreases all.len(),
{
    if all.len() == 0 {
        Seq::empty()
    } else {
        entries_text(all.drop_last()) + entry_text(all.last())
    }
}

/// The heading of the catalogue.
pub open spec fn catalogue_heading() -> Seq<char> {
    "#\n# Canonical wire vectors. `bytes` are decimal octets of the complete framed packet.\n"@
        + "# hello_nonce: 0x12345678   ping_t_ms: 4242\n"@ + "vectors:\n"@
}

/// The vector catalogue, for review and debugging (not consumed by the simulator).
pub fn catalogue(all: &Vec<Vector>) -> (s: String)
    ensures
        s@ == banner() + catalogue_heading() + entries_text(all@),
{
    let mut s = String::new();
    push_banner(&mut s);
    s.append("#\n# Canonical wire vectors. `bytes` are decimal octets of the complete framed packet.\n");
    s.append("# hello_nonce: 0x12345678   ping_t_ms: 4242\n");
    s.append("vectors:\n");
    let mut i: usize = 0;
    while i < all.len()
        invariant
            i <= all@.len(),
            s@ == banner() + catalogue_heading() + entries_text(all@.take(i as int)),
        decreases all@.len() - i,
    {
        proof {
            assert(all@.take(i as int + 1).drop_last() =~= all@.take(i as int));
        }
        let v = &all[i];
        s.append("  - name: ");
        s.append(v.name);
        s.append("\n    purpose: '");
        s.append(v.purpose);
        s.append("'\n    len: ");
        push_decimal(&mut s, v.bytes.len() as u64);
        s.append("\n    bytes: ");
        let y = yaml_bytes(v.bytes.as_slice());
        s.append(y.as_str());
        s.append("\n");
        i = i + 1;
        proof {
            assert(s@ =~= banner() + catalogue_heading() + entries_text(all@.take(i as int)));
        }
    }
    proof {
        assert(all@.take(all@.len() as int) =~= all@);
    }
    s
}

/// Markers the firmware emits exactly once, at boot, before any injected frame is processed.
/// A scenario may wait on one of these only before its first `write-serial` step: waiting
/// scans forward from the current stream position, so a one-shot boot marker awaited later has
/// already scrolled past.
pub const BOOT_ONLY_MARKERS: [&'static str; 8] = [
    "READY",
    "SENDABLE-GUARD",
    "HEALTH free_bytes",
    "KIVORI-RUN BOOT",
    "lifecycle-booting-to-offline",
    "first-frame-six-tiles",
    "unchanged-frame-no-reflush",
    "health-report",
];

/// The step keys `wokwi-cli` accepts.
pub const SUPPORTED_STEPS: [&'static str; 5] = [
    "wait-serial",
    "write-serial",
    "delay",
    "set-control",
    "expect-pin",
];


/// `l` without one trailing carriage return.
pub open spec fn strip_cr(l: Seq<char>) -> Seq<char> {
    if l.len() > 0 && l.last() == '\r' {
        l.drop_last()
    } else {
        l
    }
}

/// The lines of `s[i..]`, where `cur` is the line already started before `i`: split at `\n`
/// or `\r\n`, the final line ending optional (what `str::lines` yields).
pub open spec fn lines_from(s: Seq<char>, i: int, cur: Seq<char>) -> Seq<Seq<char>>
    decreases s.len() - i,
{
    if i >= s.len() {
        if cur.len() > 0 {
            seq![cur]
        } else {
            seq![]
        }
    } else if s[i] == '\n' {
        seq![strip_cr(cur)] + lines_from(s, i + 1, seq![])
    } else {
        lines_from(s, i + 1, cur.push(s[i]))
    }
}

/// `s` without leading white space.
pub open spec fn skip_space(s: Seq<char>) -> Seq<char>
    decreases s.len(),
{
    if s.len() > 0 && is_space(s[0]) {
        skip_space(s.skip(1))
    } else {
        s
    }
}

/// `s` without trailing white space.
pub open spec fn trim_end_space(s: Seq<char>) -> Seq<char>
    decreases s.len(),
{
    if s.len() > 0 && is_space(s.last()) {
        trim_end_space(s.drop_last())
    } else {
        s
    }
}

/// The part of `s` before its first `:` (all of it if there is none).
pub open spec fn before_colon(s: Seq<char>) -> Seq<char>
    decreases s.len(),
{
    if s.len() == 0 {
        s
    } else if s[0] == ':' {
        Seq::empty()
    } else {
        seq![s[0]] + before_colon(s.skip(1))
    }
}

/// The step key a YAML line declares (`- <key>: ...`), if any.
pub open spec fn key_of(line: Seq<char>) -> Option<Seq<char>> {
    let t = skip_space(line);
    if t.len() >= 2 && t[0] == '-' && t[1] == ' ' {
        let k = trim_end_space(skip_space(before_colon(t.skip(2))));
        if k.len() > 0 {
            Some(k)
        } else {
            None
        }
    } else {
        None
    }
}

/// The keys declared by a list of lines, in order.
pub open spec fn keys_of(lines: Seq<Seq<char>>) -> Seq<Seq<char>>
    decreases lines.len(),
{
    if lines.len() == 0 {
        Seq::empty()
    } else {
        match key_of(lines.last()) {
            Some(k) => keys_of(lines.drop_last()).push(k),
            None => keys_of(lines.drop_last()),
        }
    }
}

/// The step keys of a scenario, in order.
pub open spec fn step_keys_spec(yaml: Seq<char>) -> Seq<Seq<char>> {
    keys_of(lines_from(yaml, 0, seq![]))
}

/// The index of the first non-space character of `cs[from..]`, or its end.
fn skip_spaces(cs: &Vec<char>, from: usize) -> (i: usize)
    requires
        from <= cs@.len(),
    ensures
        from <= i <= cs@.len(),
        skip_space(cs@.subrange(from as int, cs@.len() as int)) == cs@.subrange(
            i as int,
            cs@.len() as int,
        ),
{
    let mut i = from;
    while i < cs.len() && is_whitespace(cs[i])
        invariant
            from <= i <= cs@.len(),
            skip_space(cs@.subrange(from as int, cs@.len() as int)) == skip_space(
                cs@.subrange(i as int, cs@.len() as int),
            ),
        decreases cs@.len() - i,
    {
        proof {
            assert(cs@.subrange(i as int, cs@.len() as int).skip(1) =~= cs@.subrange(
                i as int + 1,
                cs@.len() as int,
            ));
        }
        i = i + 1;
    }
    i
}

/// The characters of `line[from..]` before its first `:`.
fn colon_part(line: &Vec<char>, from: usize) -> (part: Vec<char>)
    requires
        from <= line@.len(),
    ensures
        part@ == before_colon(line@.subrange(from as int, line@.len() as int)),
{
    let n = line.len();
    let mut part: Vec<char> = Vec::new();
    let mut e = from;
    while e < n && line[e] != ':'
        invariant
            from <= e <= n,
            n == line@.len(),
            part@ == line@.subrange(from as int, e as int),
            before_colon(line@.subrange(from as int, n as int)) == part@ + before_colon(
                line@.subrange(e as int, n as int),
            ),
        decreases n - e,
    {
        proof {
            let tail = line@.subrange(e as int, n as int);
            assert(tail.skip(1) =~= line@.subrange(e as int + 1, n as int));
            assert(line@.subrange(from as int, e as int + 1) =~= line@.subrange(
                from as int,
                e as int,
            ) + seq![line@[e as int]]);
        }
        part.push(line[e]);
        e = e + 1;
    }
    proof {
        assert(before_colon(line@.subrange(e as int, n as int)) =~= Seq::<char>::empty());
    }
    part
}

/// `part` without leading or trailing white space.
fn trimmed(part: &Vec<char>) -> (t: Vec<char>)
    ensures
        t@ == trim_end_space(skip_space(part@)),
{
    let m = part.len();
    let a = skip_spaces(part, 0);
    proof {
        assert(part@.subrange(0, m as int) =~= part@);
    }
    let mut b = m;
    while b > a && is_whitespace(part[b - 1])
        invariant
            a <= b <= m,
            m == part@.len(),
            trim_end_space(part@.subrange(a as int, m as int)) == trim_end_space(
                part@.subrange(a as int, b as int),
            ),
        decreases b,
    {
        proof {
            assert(part@.subrange(a as int, b as int).drop_last() =~= part@.subrange(
                a as int,
                b as int - 1,
            ));
        }
        b = b - 1;
    }
    let mut key: Vec<char> = Vec::new();
    let mut q = a;
    while q < b
        invariant
            a <= q <= b,
            b <= m,
            m == part@.len(),
            key@ == part@.subrange(a as int, q as int),
        decreases b - q,
    {
        key.push(part[q]);
        q = q + 1;
        proof {
            assert(key@ =~= part@.subrange(a as int, q as int));
        }
    }
    key
}

/// The key of one line, if it declares one.
fn line_key(line: &Vec<char>) -> (k: Option<Vec<char>>)
    ensures
        match k {
            Some(v) => key_of(line@) == Some(v@),
            None => key_of(line@) is None,
        },
{
    let n = line.len();
    let t = skip_spaces(line, 0);
    proof {
        assert(line@.subrange(0, n as int) =~= line@);
    }
    if n - t < 2 || line[t] != '-' || line[t + 1] != ' ' {
        return None;
    }
    let part = colon_part(line, t + 2);
    proof {
        assert(line@.subrange(t as int, n as int).skip(2) =~= line@.subrange(
            t as int + 2,
            n as int,
        ));
    }
    let key = trimmed(&part);
    if key.len() == 0 {
        return None;
    }
    Some(key)
}

/// The step keys a scenario uses, in order: every line of the form `- <key>: ...`.
pub fn step_keys(yaml: &str) -> (keys: Vec<String>)
    ensures
        keys@.len() == step_keys_spec(yaml@).len(),
        forall|i: int| 0 <= i < keys@.len() ==> #[trigger] keys@[i]@ == step_keys_spec(yaml@)[i],
{
    let cs = collect_chars(yaml);
    let n = cs.len();
    let mut keys: Vec<String> = Vec::new();
    let ghost mut done: Seq<Seq<char>> = seq![];
    let mut cur: Vec<char> = Vec::new();
    let mut i: usize = 0;
    while i < n
        invariant
            i <= n,
            n == cs@.len(),
            cs@ == yaml@,
            keys@.len() == keys_of(done).len(),
            forall|k: int| 0 <= k < keys@.len() ==> #[trigger] keys@[k]@ == keys_of(done)[k],
            done + lines_from(cs@, i as int, cur@) == lines_from(cs@, 0, seq![]),
        decreases n - i,
    {
        let c = cs[i];
        if c == '\n' {
            let mut line = cur;
            if line.len() > 0 && line[line.len() - 1] == '\r' {
                line.pop();
            }
            proof {
                assert(line@ =~= strip_cr(cur@));
                assert(seq![strip_cr(cur@)] + lines_from(cs@, i as int + 1, seq![]) == lines_from(
                    cs@,
                    i as int,
                    cur@,
                ));
                assert(done.push(line@) + lines_from(cs@, i as int + 1, seq![]) =~= done
                    + lines_from(cs@, i as int, cur@));
                assert(done.push(line@).drop_last() =~= done);
            }
            let ghost before = keys@;
            match line_key(&line) {
                Some(k) => {
                    keys.push(string_from(k.as_slice()));
                },
                None => {},
            }
            proof {
                done = done.push(line@);
            }
            cur = Vec::new();
            proof {
                assert(cur@ =~= seq![]);
            }
        } else {
            proof {
                assert(lines_from(cs@, i as int + 1, cur@.push(c)) == lines_from(
                    cs@,
                    i as int,
                    cur@,
                ));
            }
            cur.push(c);
        }
        i = i + 1;
    }
    if cur.len() > 0 {
        proof {
            assert(done.push(cur@) =~= lines_from(cs@, 0, seq![]));
            assert(done.push(cur@).drop_last() =~= done);
        }
        match line_key(&cur) {
            Some(k) => {
                keys.push(string_from(k.as_slice()));
            },
            None => {},
        }
        proof {
            done = done.push(cur@);
        }
    } else {
        proof {
            assert(done =~= lines_from(cs@, 0, seq![]));
        }
    }
    keys
}

/// Whether `wokwi-cli` accepts the step key `key`.
pub fn is_supported_step(key: &str) -> (b: bool)
    ensures
        b == exists|i: int| 0 <= i < 5 && SUPPORTED_STEPS@[i]@ == key@,
{
    let mut i: usize = 0;
    while i < SUPPORTED_STEPS.len()
        invariant
            i <= 5,
            forall|j: int| 0 <= j < i ==> SUPPORTED_STEPS@[j]@ != key@,
        decreases 5 - i,
    {
        if str_eq(SUPPORTED_STEPS[i], key) {
            return true;
        }
        i = i + 1;
    }
    false
}

} // verus!
