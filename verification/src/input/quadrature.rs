//! Detent-qualified quadrature decoding.
//!
//! Phase is the 2-bit Gray code `(a << 1) | b`. Each legal transition moves one quarter-step.
//! A `Direction` is emitted only when four quarter-steps have accumulated in the same rotational
//! sense, i.e. a complete mechanical detent. Partial motion that reverses before completing
//! simply unwinds the accumulator, and an electrically impossible transition discards whatever
//! had been banked, so a detent is only ever emitted for a continuous, fully observed traversal.

use crate::model::Direction;
use vstd::prelude::*;

verus! {

/// Quarter-steps in one full HW-040 detent.
pub const QUARTER_STEPS_PER_DETENT: i8 = 4;

/// The Gray phase of a sample.
pub open spec fn phase_of(a: bool, b: bool) -> u8 {
    ((if a {
        2u8
    } else {
        0u8
    }) + (if b {
        1u8
    } else {
        0u8
    })) as u8
}

/// Gray-code adjacency: `+1` clockwise, `-1` counter-clockwise, `None` if illegal.
///
/// Clockwise phase order is 00 -> 01 -> 11 -> 10 -> 00.
pub open spec fn quarter(prev: u8, next: u8) -> Option<i8> {
    if (prev == 0 && next == 1) || (prev == 1 && next == 3) || (prev == 3 && next == 2) || (prev
        == 2 && next == 0) {
        Some(1)
    } else if (prev == 0 && next == 2) || (prev == 2 && next == 3) || (prev == 3 && next == 1) || (
    prev == 1 && next == 0) {
        Some(-1i8)
    } else {
        None
    }
}

/// The decoder's logical state.
pub struct DecoderState {
    /// Last observed Gray phase, or `None` before the first sample.
    pub phase: Option<u8>,
    /// Signed quarter-step accumulator; positive is clockwise.
    pub accumulator: int,
    /// Count of electrically impossible transitions.
    pub invalid: u32,
}

/// What one sample does to the decoder: the next state and the detent completed, if any.
pub open spec fn decode_step(s: DecoderState, a: bool, b: bool) -> (DecoderState, Option<Direction>) {
    let next = phase_of(a, b);
    match s.phase {
        None => (DecoderState { phase: Some(next), ..s }, None),
        Some(prev) => if next == prev {
            (s, None)
        } else {
            match quarter(prev, next) {
                None => (
                    DecoderState {
                        phase: Some(next),
                        accumulator: 0,
                        invalid: if s.invalid < u32::MAX {
                            (s.invalid + 1) as u32
                        } else {
                            u32::MAX
                        },
                    },
                    None,
                ),
                Some(step) => {
                    let acc = s.accumulator + step;
                    if acc >= 4 {
                        (DecoderState { phase: Some(next), accumulator: 0, ..s }, Some(Direction::Cw))
                    } else if acc <= -4 {
                        (
                            DecoderState { phase: Some(next), accumulator: 0, ..s },
                            Some(Direction::Ccw),
                        )
                    } else {
                        (DecoderState { phase: Some(next), accumulator: acc, ..s }, None)
                    }
                },
            }
        },
    }
}

/// A sound decoder state: a 2-bit phase, and less than a full detent banked either way.
pub open spec fn decoder_wf(s: DecoderState) -> bool {
    &&& s.phase matches Some(p) ==> p < 4
    &&& -4 < s.accumulator < 4
}

/// Whether sample `(a, b)` differs from the last one in both bits.
pub open spec fn both_bits_changed(s: DecoderState, a: bool, b: bool) -> bool {
    match s.phase {
        Some(p) => (p >= 2) != a && (p % 2 == 1) != b,
        None => false,
    }
}

/// Whether sample `(a, b)` differs from the last one in exactly one bit.
pub open spec fn one_bit_changed(s: DecoderState, a: bool, b: bool) -> bool {
    match s.phase {
        Some(p) => ((p >= 2) != a) != ((p % 2 == 1) != b),
        None => false,
    }
}

/// On a sound state, one sample: the first sample and a sample equal to the last one emit
/// nothing, and a repeated sample changes nothing at all; a sample that differs from the last
/// in both bits is counted as invalid (saturating), drops the banked motion and emits nothing;
/// a detent completes only on a one-bit change, and only an invalid sample moves the count.
/// The state stays sound.
pub proof fn law_decode_step(s: DecoderState, a: bool, b: bool)
    requires
        decoder_wf(s),
    ensures
        decoder_wf(decode_step(s, a, b).0),
        s.phase is None ==> decode_step(s, a, b).1 is None,
        s.phase == Some(phase_of(a, b)) ==> decode_step(s, a, b) == (s, None::<Direction>),
        both_bits_changed(s, a, b) ==> decode_step(s, a, b) == (
            DecoderState {
                phase: Some(phase_of(a, b)),
                accumulator: 0,
                invalid: if s.invalid < u32::MAX {
                    (s.invalid + 1) as u32
                } else {
                    u32::MAX
                },
            },
            None::<Direction>,
        ),
        decode_step(s, a, b).1 is Some ==> one_bit_changed(s, a, b),
        decode_step(s, a, b).0.invalid != s.invalid ==> both_bits_changed(s, a, b),
{
}

/// Pure state machine turning raw quadrature `(a, b)` samples into validated logical detents.
///
/// A legal electrical transition is NOT automatically a completed detent: mechanical bounce can
/// legally walk between adjacent Gray states and back without the knob completing a detent. Only
/// a fully traversed four-quarter-step cycle emits a [`Direction`].
#[derive(Debug)]
pub struct QuadratureDecoder {
    /// Last observed Gray phase, or `None` before the first sample.
    phase: Option<u8>,
    /// Signed quarter-step accumulator; positive is clockwise.
    accumulator: i8,
    /// Count of electrically impossible transitions (both bits changed at once).
    invalid: u32,
}

impl QuadratureDecoder {
    /// The phase is a 2-bit value and less than a full detent is ever banked.
    #[verifier::type_invariant]
    spec fn inv(self) -> bool {
        &&& self.phase matches Some(p) ==> p < 4
        &&& -QUARTER_STEPS_PER_DETENT < self.accumulator < QUARTER_STEPS_PER_DETENT
    }

    /// The logical state.
    pub closed spec fn view(self) -> DecoderState {
        DecoderState {
            phase: self.phase,
            accumulator: self.accumulator as int,
            invalid: self.invalid,
        }
    }

    /// Creates a decoder with no reference phase and no accumulated motion.
    pub fn new() -> (d: Self)
        ensures
            d.view() == (DecoderState { phase: None, accumulator: 0, invalid: 0 }),
            decoder_wf(d.view()),
    {
        QuadratureDecoder { phase: None, accumulator: 0, invalid: 0 }
    }

    /// Feed one sample. Returns a direction only when a full detent completed.
    pub fn update(&mut self, a: bool, b: bool) -> (r: Option<Direction>)
        ensures
            (final(self).view(), r) == decode_step(old(self).view(), a, b),
            decoder_wf(old(self).view()),
            decoder_wf(final(self).view()),
    {
        proof {
            use_type_invariant(&*self);
        }
        let next: u8 = (if a {
            2u8
        } else {
            0u8
        }) + (if b {
            1u8
        } else {
            0u8
        });
        let prev = match self.phase {
            None => {
                // The first sample establishes the reference phase without producing motion.
                self.phase = Some(next);
                return None;
            },
            Some(prev) => prev,
        };
        if next == prev {
            return None;
        }
        let step = match quarter_step(prev, next) {
            Some(step) => step,
            None => {
                // Both bits changed: impossible for a real contact. Never invent motion, and
                // never let steps banked before the discontinuity splice with steps after it.
                self.invalid = if self.invalid < u32::MAX {
                    self.invalid + 1
                } else {
                    u32::MAX
                };
                self.phase = Some(next);
                self.accumulator = 0;
                return None;
            },
        };
        let acc = self.accumulator + step;
        self.phase = Some(next);
        if acc >= QUARTER_STEPS_PER_DETENT {
            self.accumulator = 0;
            return Some(Direction::Cw);
        }
        if acc <= -QUARTER_STEPS_PER_DETENT {
            self.accumulator = 0;
            return Some(Direction::Ccw);
        }
        self.accumulator = acc;
        None
    }

    /// Count of electrically impossible transitions observed so far (both bits changed at once
    /// between consecutive samples).
    pub fn invalid_transitions(&self) -> (n: u32)
        ensures
            n == self.view().invalid,
            decoder_wf(self.view()),
    {
        proof {
            use_type_invariant(self);
        }
        self.invalid
    }

    /// Drop all motion state. Used when a session ends so partial motion cannot leak across a
    /// reconnect.
    pub fn reset(&mut self)
        ensures
            final(self).view() == (DecoderState {
                phase: None,
                accumulator: 0,
                invalid: old(self).view().invalid,
            }),
            decoder_wf(final(self).view()),
    {
        proof {
            use_type_invariant(&*self);
        }
        self.phase = None;
        self.accumulator = 0;
    }
}

/// Gray-code adjacency: `+1` clockwise, `-1` counter-clockwise, `None` if illegal.
///
/// Clockwise phase order is 00 -> 01 -> 11 -> 10 -> 00.
pub fn quarter_step(prev: u8, next: u8) -> (r: Option<i8>)
    ensures
        r == quarter(prev, next),
{
    match (prev, next) {
        (0b00, 0b01) | (0b01, 0b11) | (0b11, 0b10) | (0b10, 0b00) => Some(1),
        (0b00, 0b10) | (0b10, 0b11) | (0b11, 0b01) | (0b01, 0b00) => Some(-1),
        _ => None,
    }
}

// ---------------------------------------------------------------------------------------------
// Laws
// ---------------------------------------------------------------------------------------------

/// Feeding the same sample twice in a row is the same as feeding it once: a repeated level is
/// never motion.
pub proof fn law_repeated_sample_is_inert(s: DecoderState, a: bool, b: bool)
    ensures
        decode_step(decode_step(s, a, b).0, a, b) == (decode_step(s, a, b).0, None::<Direction>),
{
}

/// A detent is only completed by a legal quarter-step in its own direction that finishes a run
/// of four: the state before it had three quarter-steps banked in that sense.
pub proof fn law_detent_completes_four_quarter_steps(s: DecoderState, a: bool, b: bool)
    requires
        -4 < s.accumulator < 4,
    ensures
        decode_step(s, a, b).1 == Some(Direction::Cw) ==> (s.phase matches Some(prev) && quarter(
            prev,
            phase_of(a, b),
        ) == Some(1i8) && s.accumulator == 3),
        decode_step(s, a, b).1 == Some(Direction::Ccw) ==> (s.phase matches Some(prev) && quarter(
            prev,
            phase_of(a, b),
        ) == Some(-1i8) && s.accumulator == -3),
        decode_step(s, a, b).1 is Some ==> decode_step(s, a, b).0.accumulator == 0,
{
}

/// An electrically impossible transition never produces motion and discards everything banked.
pub proof fn law_invalid_transition_discards_motion(s: DecoderState, a: bool, b: bool)
    requires
        s.phase matches Some(prev) && prev != phase_of(a, b) && quarter(prev, phase_of(a, b))
            is None,
    ensures
        decode_step(s, a, b).1 is None,
        decode_step(s, a, b).0.accumulator == 0,
        decode_step(s, a, b).0.phase == Some(phase_of(a, b)),
{
}

/// A quarter-step followed by its reversal returns to the same phase and the same banked motion
/// without emitting anything (bounce between adjacent Gray states is not a detent).
pub proof fn law_bounce_unwinds(s: DecoderState, a1: bool, b1: bool, a2: bool, b2: bool)
    requires
        -3 <= s.accumulator <= 3,
        s.phase == Some(phase_of(a1, b1)),
        quarter(phase_of(a1, b1), phase_of(a2, b2)) is Some,
        -3 < s.accumulator + quarter(phase_of(a1, b1), phase_of(a2, b2))->0 < 3,
    ensures
        decode_step(s, a2, b2).1 is None,
        decode_step(decode_step(s, a2, b2).0, a1, b1) == (s, None::<Direction>),
{
}

} // verus!
