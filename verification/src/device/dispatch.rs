//! The protocol dispatcher's decisions.
//!
//! For each decoded inbound frame the dispatcher applies the sequence policy, answers the
//! handshake and heartbeat, applies `SetState` to the [`DeviceState`] and asks for a
//! `StateReport` on change. Frames the decoder rejected are dropped without side effects; only
//! the class of failure is kept, as a pending safe diagnostic. Decoding, encoding and the
//! transport stay with the caller, which hands this type what it decoded and transmits what it
//! is told to.
//!
//! A session is accepted by a `Hello`; capabilities are negotiated by the following `Ready`
//! and never exceed what both sides offered. Input events leave the device only on an accepted
//! session that negotiated physical input, stamped with that session's nonce; presentations are
//! passed on only when presentations were negotiated. Every session boundary (`Hello`, `Bye`, a
//! lost link) is flagged so the caller can drop input state belonging to the old session.

use crate::device::health::{
    build_pong, diagnostic_for_sequence, reason_of, sequence_diagnostic, DeviceDiagnostic,
    RejectReason,
};
use crate::device::state::{next_state, DeviceEvent, DeviceState};
use crate::device::wire::{
    DeviceIdentity, FirmwareVersion,
    within, Capabilities, Pong, ProtoError, SeqClass, MASCOT_INTERACTION_BIT,
    PHYSICAL_INPUT_V1_BIT, PRESENTATION_V1_BIT,
};
use crate::model::{CompanionState, Direction, SendableState};
use vstd::prelude::*;

verus! {

/// A decoded inbound message, as the device reads it. `A` is the social action a
/// `PlayMascotAction` carries; `P` is the presentation a `Presentation` carries.
#[derive(Debug, Clone, Copy, PartialEq, Eq)]
pub enum Inbound<A, P> {
    /// Opens a session.
    Hello {
        /// What the desktop supports.
        desktop_caps: Capabilities,
        /// The session nonce to echo.
        nonce: u32,
    },
    /// Completes the handshake with the capabilities the desktop chose.
    Ready {
        /// The capabilities the desktop negotiated.
        negotiated_caps: Capabilities,
    },
    /// Commands a sendable state.
    SetState {
        /// The commanded state.
        desired: SendableState,
    },
    /// Heartbeat request.
    Ping {
        /// The desktop's timestamp.
        t_ms: u32,
    },
    /// A social reaction to play.
    PlayMascotAction(A),
    /// What the panel should present.
    Presentation(P),
    /// Closes the session.
    Bye,
    /// A kind the device does not act on.
    Other,
}

/// A reply the dispatcher decided to transmit.
#[derive(Debug, Clone, Copy, PartialEq, Eq)]
pub enum Reply<A> {
    /// Handshake answer: the device's identity and capabilities, and the echoed nonce.
    HelloAck {
        /// What the device advertises.
        device_caps: Capabilities,
        /// The device's identity.
        device_id: [u8; 16],
        /// The device's firmware version.
        firmware_version: FirmwareVersion,
        /// The nonce of the `Hello` being answered.
        nonce_echo: u32,
    },
    /// The device's state changed.
    StateReport {
        /// The new state.
        reported: CompanionState,
        /// Device uptime.
        elapsed_ms: u32,
    },
    /// Heartbeat answer.
    Pong(Pong),
    /// A social reaction was accepted.
    MascotActionApplied {
        /// The action.
        action: A,
        /// Device uptime when applied.
        applied_at_ms: u32,
    },
}

/// What handling one frame asks of the caller.
#[derive(Debug, Clone, Copy, PartialEq, Eq)]
pub struct Action<A, P> {
    /// The reply to transmit, if any.
    pub reply: Option<Reply<A>>,
    /// A presentation the negotiated session delivered, to apply.
    pub presentation: Option<P>,
    /// The session ended: sequence tracking starts over.
    pub reset_sequence: bool,
}

/// Which physical control produced an input event.
#[derive(Debug, Clone, Copy, PartialEq, Eq, Structural)]
pub enum ControlId {
    /// The rotary encoder.
    Rotary,
}

/// What happened on the control.
#[derive(Debug, Clone, Copy, PartialEq, Eq, Structural)]
pub enum InputKind {
    /// A gesture opened.
    GestureStarted,
    /// One validated detent.
    Detent(Direction),
    /// A gesture closed.
    GestureEnded,
}

/// A semantic input event, stamped with the session it belongs to.
#[derive(Debug, Clone, Copy, PartialEq, Eq, Structural)]
pub struct InputEvent {
    /// The accepted session's nonce.
    pub session: u32,
    /// The gesture this event belongs to.
    pub gesture_id: u16,
    /// The control.
    pub control: ControlId,
    /// What happened.
    pub kind: InputKind,
    /// Device uptime.
    pub device_ms: u32,
}

/// The dispatcher's logical state.
pub struct DispatchState<A> {
    /// What the device advertises.
    pub device_caps: Capabilities,
    /// The device's identity.
    pub device_id: [u8; 16],
    /// The device's firmware version.
    pub firmware_version: FirmwareVersion,
    /// Sequence number of the next transmitted frame.
    pub tx_seq: u16,
    /// One pending safe diagnostic: a burst of garbage produces one report, not a flood.
    pub pending: Option<DeviceDiagnostic>,
    /// Frames the decoder rejected.
    pub rejected: u32,
    /// `HelloAck` replies transmitted.
    pub hello_acks: u32,
    /// `Pong` replies transmitted.
    pub pongs: u32,
    /// `StateReport` messages transmitted.
    pub state_reports: u32,
    /// The latest accepted social action, for the renderer. Actions never queue.
    pub pending_action: Option<A>,
    /// What the session negotiated.
    pub negotiated_caps: Capabilities,
    /// What the desktop offered in its `Hello`, once one arrived this session.
    pub hello_caps: Option<Capabilities>,
    /// The nonce of the accepted session.
    pub accepted_session: Option<u32>,
    /// A session boundary passed since the caller last asked.
    pub session_ended: bool,
}

/// A dispatcher for the device `identity`, before any session.
pub open spec fn fresh_dispatch<A>(identity: DeviceIdentity) -> DispatchState<A> {
    DispatchState {
        device_caps: identity.capabilities,
        device_id: identity.device_id,
        firmware_version: identity.firmware_version,
        tx_seq: 0,
        pending: None,
        rejected: 0,
        hello_acks: 0,
        pongs: 0,
        state_reports: 0,
        pending_action: None,
        negotiated_caps: Capabilities(0),
        hello_caps: None,
        accepted_session: None,
        session_ended: false,
    }
}

/// The handshake answer of a dispatcher in state `s` to a `Hello` with `nonce`: the device's
/// capabilities, identity and firmware version, and the echoed nonce.
pub open spec fn hello_ack_spec<A>(s: DispatchState<A>, nonce: u32) -> Reply<A> {
    Reply::HelloAck {
        device_caps: s.device_caps,
        device_id: s.device_id,
        firmware_version: s.firmware_version,
        nonce_echo: nonce,
    }
}

/// No capability is negotiated beyond what the device advertises and the desktop offered, and
/// none at all before a `Hello`.
pub open spec fn negotiation_sound<A>(s: DispatchState<A>) -> bool {
    &&& within(s.negotiated_caps.0, s.device_caps.0)
    &&& match s.hello_caps {
        Some(h) => within(s.negotiated_caps.0, h.0),
        None => s.negotiated_caps.0 == 0,
    }
}

/// The empty set lies within every set.
pub proof fn lemma_empty_within(x: u32)
    ensures
        within(0, x),
{
    assert(0u32 & x == 0u32) by (bit_vector);
}

/// The pending diagnostic after a frame of sequence class `class` arrived.
pub open spec fn after_sequence<A>(s: DispatchState<A>, class: SeqClass) -> DispatchState<A> {
    match sequence_diagnostic(class) {
        Some(d) => DispatchState { pending: Some(d), ..s },
        None => s,
    }
}

/// Nothing to do.
pub open spec fn no_action<A, P>() -> Action<A, P> {
    Action { reply: None, presentation: None, reset_sequence: false }
}

/// Transmit `reply`, nothing else.
pub open spec fn reply_only<A, P>(reply: Reply<A>) -> Action<A, P> {
    Action { reply: Some(reply), presentation: None, reset_sequence: false }
}

/// The state after the session ended (a `Bye` or a lost link): nothing negotiated or accepted
/// survives, and the boundary is flagged.
pub open spec fn session_closed<A>(s: DispatchState<A>) -> DispatchState<A> {
    DispatchState {
        pending_action: None,
        negotiated_caps: Capabilities(0),
        hello_caps: None,
        accepted_session: None,
        session_ended: true,
        ..s
    }
}

/// Handling one decoded frame: the new dispatcher state, the new device state, and the action.
pub open spec fn handle_spec<A, P>(
    s: DispatchState<A>,
    class: SeqClass,
    message: Inbound<A, P>,
    device: CompanionState,
    now: u32,
) -> (DispatchState<A>, CompanionState, Action<A, P>) {
    let s1 = after_sequence(s, class);
    if class is Duplicate {
        (s1, device, no_action())
    } else {
        match message {
            Inbound::Hello { desktop_caps, nonce } => (
                DispatchState {
                    negotiated_caps: Capabilities(0),
                    hello_caps: Some(desktop_caps),
                    pending_action: None,
                    accepted_session: Some(nonce),
                    session_ended: true,
                    ..s1
                },
                device,
                reply_only(hello_ack_spec(s1, nonce)),
            ),
            Inbound::Ready { negotiated_caps } => match s1.hello_caps {
                Some(h) => (
                    DispatchState {
                        negotiated_caps: Capabilities(
                            negotiated_caps.0 & s1.device_caps.0 & h.0,
                        ),
                        ..s1
                    },
                    device,
                    no_action(),
                ),
                None => (s1, device, no_action()),
            },
            Inbound::SetState { desired } => {
                let next = next_state(device, DeviceEvent::SetState(desired));
                if next != device {
                    (s1, next, reply_only(Reply::StateReport { reported: next, elapsed_ms: now }))
                } else {
                    (s1, next, no_action())
                }
            },
            Inbound::Ping { t_ms } => (
                s1,
                device,
                reply_only(Reply::Pong(Pong { t_ms_echo: t_ms, uptime_ms: now })),
            ),
            Inbound::PlayMascotAction(action) => if within(
                MASCOT_INTERACTION_BIT,
                s1.negotiated_caps.0,
            ) {
                (
                    DispatchState { pending_action: Some(action), ..s1 },
                    device,
                    reply_only(Reply::MascotActionApplied { action, applied_at_ms: now }),
                )
            } else {
                (s1, device, no_action())
            },
            Inbound::Presentation(p) => if within(PRESENTATION_V1_BIT, s1.negotiated_caps.0) {
                (
                    s1,
                    device,
                    Action { reply: None, presentation: Some(p), reset_sequence: false },
                )
            } else {
                (s1, device, no_action())
            },
            Inbound::Bye => (
                DispatchState {
                    pending: Some(DeviceDiagnostic::LinkLost),
                    ..session_closed(s1)
                },
                CompanionState::Offline,
                Action { reply: None, presentation: None, reset_sequence: true },
            ),
            Inbound::Other => (s1, device, no_action()),
        }
    }
}

/// Adds one to a counter, saturating.
pub open spec fn bump(n: u32) -> u32 {
    if n < u32::MAX {
        (n + 1) as u32
    } else {
        u32::MAX
    }
}

/// The state after the decoder rejected a frame with `error`.
pub open spec fn rejected_spec<A>(s: DispatchState<A>, error: ProtoError) -> DispatchState<A> {
    DispatchState {
        rejected: bump(s.rejected),
        pending: Some(DeviceDiagnostic::FrameRejected(reason_of(error))),
        ..s
    }
}

/// The counters after `reply` was transmitted.
pub open spec fn sent_spec<A>(s: DispatchState<A>, reply: Reply<A>) -> DispatchState<A> {
    match reply {
        Reply::HelloAck { .. } => DispatchState { hello_acks: bump(s.hello_acks), ..s },
        Reply::Pong(_) => DispatchState { pongs: bump(s.pongs), ..s },
        Reply::StateReport { .. } => DispatchState { state_reports: bump(s.state_reports), ..s },
        Reply::MascotActionApplied { .. } => s,
    }
}

/// The input event the device may emit: only on an accepted session that negotiated physical
/// input, stamped with that session's nonce.
pub open spec fn input_event_spec<A>(
    s: DispatchState<A>,
    gesture_id: u16,
    kind: InputKind,
    now: u32,
) -> Option<InputEvent> {
    match s.accepted_session {
        Some(session) => if within(PHYSICAL_INPUT_V1_BIT, s.negotiated_caps.0) {
            Some(
                InputEvent {
                    session,
                    gesture_id,
                    control: ControlId::Rotary,
                    kind,
                    device_ms: now,
                },
            )
        } else {
            None
        },
        None => None,
    }
}

/// The device protocol dispatcher.
pub struct Dispatcher<A> {
    device_caps: Capabilities,
    device_id: [u8; 16],
    firmware_version: FirmwareVersion,
    tx_seq: u16,
    pending: Option<DeviceDiagnostic>,
    rejected: u32,
    hello_acks: u32,
    pongs: u32,
    state_reports: u32,
    pending_action: Option<A>,
    negotiated_caps: Capabilities,
    hello_caps: Option<Capabilities>,
    accepted_session: Option<u32>,
    session_ended: bool,
}

impl<A> Dispatcher<A> {
    /// The logical state.
    pub closed spec fn view(self) -> DispatchState<A> {
        DispatchState {
            device_caps: self.device_caps,
            device_id: self.device_id,
            firmware_version: self.firmware_version,
            tx_seq: self.tx_seq,
            pending: self.pending,
            rejected: self.rejected,
            hello_acks: self.hello_acks,
            pongs: self.pongs,
            state_reports: self.state_reports,
            pending_action: self.pending_action,
            negotiated_caps: self.negotiated_caps,
            hello_caps: self.hello_caps,
            accepted_session: self.accepted_session,
            session_ended: self.session_ended,
        }
    }

    /// Negotiation never exceeds what both sides offered.
    #[verifier::type_invariant]
    closed spec fn inv(self) -> bool {
        negotiation_sound(self.view())
    }
}

impl<A: Copy> Dispatcher<A> {
    /// A dispatcher for the device `identity`, before any session.
    pub fn new(identity: DeviceIdentity) -> (d: Self)
        ensures
            d.view() == fresh_dispatch::<A>(identity),
    {
        proof {
            lemma_empty_within(identity.capabilities.0);
        }
        Dispatcher {
            device_caps: identity.capabilities,
            device_id: identity.device_id,
            firmware_version: identity.firmware_version,
            tx_seq: 0,
            pending: None,
            rejected: 0,
            hello_acks: 0,
            pongs: 0,
            state_reports: 0,
            pending_action: None,
            negotiated_caps: Capabilities(0),
            hello_caps: None,
            accepted_session: None,
            session_ended: false,
        }
    }

    /// `HelloAck` replies transmitted this session.
    pub fn hello_acks(&self) -> (n: u32)
        ensures
            n == self.view().hello_acks,
    {
        self.hello_acks
    }

    /// `Pong` replies transmitted this session.
    pub fn pongs(&self) -> (n: u32)
        ensures
            n == self.view().pongs,
    {
        self.pongs
    }

    /// `StateReport` messages transmitted this session.
    pub fn state_reports(&self) -> (n: u32)
        ensures
            n == self.view().state_reports,
    {
        self.state_reports
    }

    /// Number of frames the decoder has rejected since this dispatcher was created.
    pub fn rejected_frames(&self) -> (n: u32)
        ensures
            n == self.view().rejected,
    {
        self.rejected
    }

    /// The capabilities the device advertises.
    pub fn device_caps(&self) -> (c: Capabilities)
        ensures
            c == self.view().device_caps,
    {
        self.device_caps
    }

    /// The capabilities the current session negotiated.
    pub fn negotiated_caps(&self) -> (c: Capabilities)
        ensures
            c == self.view().negotiated_caps,
            negotiation_sound(self.view()),
    {
        proof {
            use_type_invariant(self);
        }
        self.negotiated_caps
    }

    /// The nonce of the accepted session, if one is open.
    pub fn accepted_session(&self) -> (n: Option<u32>)
        ensures
            n == self.view().accepted_session,
    {
        self.accepted_session
    }

    /// Whether a session boundary passed since the last call, clearing the flag.
    pub fn take_session_ended(&mut self) -> (b: bool)
        ensures
            b == old(self).view().session_ended,
            final(self).view() == (DispatchState { session_ended: false, ..old(self).view() }),
    {
        proof {
            use_type_invariant(&*self);
        }
        let b = self.session_ended;
        self.session_ended = false;
        b
    }

    /// Takes the pending safe diagnostic, if any. The caller decides whether to transmit it.
    pub fn take_diagnostic(&mut self) -> (d: Option<DeviceDiagnostic>)
        ensures
            d == old(self).view().pending,
            final(self).view() == (DispatchState { pending: None, ..old(self).view() }),
    {
        proof {
            use_type_invariant(&*self);
        }
        let d = self.pending;
        self.pending = None;
        d
    }

    /// Takes the latest accepted social action for the renderer. Actions never queue.
    pub fn take_mascot_action(&mut self) -> (a: Option<A>)
        ensures
            a == old(self).view().pending_action,
            final(self).view() == (DispatchState { pending_action: None, ..old(self).view() }),
    {
        proof {
            use_type_invariant(&*self);
        }
        let a = self.pending_action;
        self.pending_action = None;
        a
    }

    /// Records an allowlisted diagnostic for the caller to pick up (e.g. a display fault the run
    /// loop saw). It replaces any diagnostic still pending.
    pub fn note_diagnostic(&mut self, diagnostic: DeviceDiagnostic)
        ensures
            final(self).view() == (DispatchState { pending: Some(diagnostic), ..old(self).view() }),
    {
        proof {
            use_type_invariant(&*self);
        }
        self.pending = Some(diagnostic);
    }

    /// The link failed: the session is over even though no `Bye` arrived. Nothing negotiated or
    /// accepted survives, so input from the old session can never reach a new one.
    pub fn link_lost(&mut self)
        ensures
            final(self).view() == session_closed(old(self).view()),
    {
        proof {
            use_type_invariant(&*self);
            lemma_empty_within(self.device_caps.0);
            if let Some(h) = self.hello_caps {
                lemma_empty_within(h.0);
            }
        }
        self.negotiated_caps = Capabilities(0);
        self.hello_caps = None;
        self.accepted_session = None;
        self.pending_action = None;
        self.session_ended = true;
    }

    /// The sequence number for the next transmitted frame, which is then used up.
    pub fn claim_seq(&mut self) -> (seq: u16)
        ensures
            seq == old(self).view().tx_seq,
            final(self).view() == (DispatchState {
                tx_seq: if old(self).view().tx_seq < u16::MAX {
                    (old(self).view().tx_seq + 1) as u16
                } else {
                    0u16
                },
                ..old(self).view()
            }),
    {
        proof {
            use_type_invariant(&*self);
        }
        let seq = self.tx_seq;
        self.tx_seq = self.tx_seq.wrapping_add(1);
        seq
    }

    /// Records that `reply` was transmitted in full.
    pub fn note_sent(&mut self, reply: &Reply<A>)
        ensures
            final(self).view() == sent_spec(old(self).view(), *reply),
    {
        proof {
            use_type_invariant(&*self);
        }
        match reply {
            Reply::HelloAck { .. } => {
                self.hello_acks = self.hello_acks.saturating_add(1);
            },
            Reply::Pong(_) => {
                self.pongs = self.pongs.saturating_add(1);
            },
            Reply::StateReport { .. } => {
                self.state_reports = self.state_reports.saturating_add(1);
            },
            Reply::MascotActionApplied { .. } => {},
        }
    }

    /// The decoder rejected a frame: drop it with no side effect but a count and a pending
    /// safe diagnostic naming the class of failure. The offending bytes are not kept.
    pub fn on_rejected(&mut self, error: &ProtoError)
        ensures
            final(self).view() == rejected_spec(old(self).view(), *error),
    {
        proof {
            use_type_invariant(&*self);
        }
        self.rejected = self.rejected.saturating_add(1);
        self.pending = Some(DeviceDiagnostic::FrameRejected(RejectReason::of(error)));
    }

    /// The input event to transmit for a gesture event, or `None` when input must stay inert
    /// (no accepted session, or physical input not negotiated).
    pub fn input_event(&self, gesture_id: u16, kind: InputKind, now_ms: u32) -> (e: Option<
        InputEvent,
    >)
        ensures
            e == input_event_spec(self.view(), gesture_id, kind, now_ms),
    {
        match self.accepted_session {
            Some(session) => {
                if self.negotiated_caps.contains(Capabilities::physical_input_v1()) {
                    Some(
                        InputEvent {
                            session,
                            gesture_id,
                            control: ControlId::Rotary,
                            kind,
                            device_ms: now_ms,
                        },
                    )
                } else {
                    None
                }
            },
            None => None,
        }
    }

    /// Handles one decoded frame whose sequence number the caller classified as `class`.
    pub fn handle<P>(
        &mut self,
        class: SeqClass,
        message: Inbound<A, P>,
        device: &mut DeviceState,
        now_ms: u32,
    ) -> (act: Action<A, P>)
        ensures
            (final(self).view(), final(device).view(), act) == handle_spec(
                old(self).view(),
                class,
                message,
                old(device).view(),
                now_ms,
            ),
    {
        proof {
            use_type_invariant(&*self);
        }
        if let Some(diagnostic) = diagnostic_for_sequence(class) {
            self.pending = Some(diagnostic);
        }
        if matches!(class, SeqClass::Duplicate) {
            return Action { reply: None, presentation: None, reset_sequence: false };
        }
        match message {
            Inbound::Hello { desktop_caps, nonce } => {
                proof {
                    lemma_empty_within(desktop_caps.0);
                    lemma_empty_within(self.device_caps.0);
                    if let Some(h) = self.hello_caps {
                        lemma_empty_within(h.0);
                    }
                }
                self.negotiated_caps = Capabilities(0);
                self.hello_caps = Some(desktop_caps);
                self.pending_action = None;
                self.accepted_session = Some(nonce);
                self.session_ended = true;
                Action {
                    reply: Some(
                        Reply::HelloAck {
                            device_caps: self.device_caps,
                            device_id: self.device_id,
                            firmware_version: self.firmware_version,
                            nonce_echo: nonce,
                        },
                    ),
                    presentation: None,
                    reset_sequence: false,
                }
            },
            Inbound::Ready { negotiated_caps } => {
                if let Some(hello_caps) = self.hello_caps {
                    let caps = negotiated_caps.intersection(self.device_caps).intersection(
                        hello_caps,
                    );
                    let (r, d, h) = (negotiated_caps.0, self.device_caps.0, hello_caps.0);
                    assert((r & d & h) & d == (r & d & h)) by (bit_vector);
                    assert((r & d & h) & h == (r & d & h)) by (bit_vector);
                    self.negotiated_caps = caps;
                }
                Action { reply: None, presentation: None, reset_sequence: false }
            },
            Inbound::SetState { desired } => {
                match device.apply(DeviceEvent::SetState(desired)) {
                    Some(now) => Action {
                        reply: Some(Reply::StateReport { reported: now, elapsed_ms: now_ms }),
                        presentation: None,
                        reset_sequence: false,
                    },
                    None => Action { reply: None, presentation: None, reset_sequence: false },
                }
            },
            Inbound::Ping { t_ms } => Action {
                reply: Some(Reply::Pong(build_pong(t_ms, now_ms))),
                presentation: None,
                reset_sequence: false,
            },
            Inbound::PlayMascotAction(action) => {
                if self.negotiated_caps.contains(Capabilities::mascot_interaction()) {
                    self.pending_action = Some(action);
                    Action {
                        reply: Some(Reply::MascotActionApplied { action, applied_at_ms: now_ms }),
                        presentation: None,
                        reset_sequence: false,
                    }
                } else {
                    Action { reply: None, presentation: None, reset_sequence: false }
                }
            },
            Inbound::Presentation(p) => {
                if self.negotiated_caps.contains(Capabilities::presentation_v1()) {
                    Action { reply: None, presentation: Some(p), reset_sequence: false }
                } else {
                    Action { reply: None, presentation: None, reset_sequence: false }
                }
            },
            Inbound::Bye => {
                let _ = device.apply(DeviceEvent::LinkDown);
                proof {
                    lemma_empty_within(self.device_caps.0);
                    if let Some(h) = self.hello_caps {
                        lemma_empty_within(h.0);
                    }
                }
                self.negotiated_caps = Capabilities(0);
                self.hello_caps = None;
                self.accepted_session = None;
                self.pending_action = None;
                self.session_ended = true;
                self.pending = Some(DeviceDiagnostic::LinkLost);
                Action { reply: None, presentation: None, reset_sequence: true }
            },
            Inbound::Other => Action { reply: None, presentation: None, reset_sequence: false },
        }
    }
}

/// Handling a frame, a rejection, a transmission or a lost link never negotiates a capability
/// that the device does not advertise or the desktop did not offer.
pub proof fn law_negotiation_stays_sound<A, P>(
    s: DispatchState<A>,
    class: SeqClass,
    message: Inbound<A, P>,
    device: CompanionState,
    now: u32,
    error: ProtoError,
    reply: Reply<A>,
)
    requires
        negotiation_sound(s),
    ensures
        negotiation_sound(handle_spec(s, class, message, device, now).0),
        negotiation_sound(rejected_spec(s, error)),
        negotiation_sound(sent_spec(s, reply)),
        negotiation_sound(session_closed(s)),
{
    lemma_empty_within(s.device_caps.0);
    match message {
        Inbound::Hello { desktop_caps, .. } => {
            lemma_empty_within(desktop_caps.0);
        },
        Inbound::Ready { negotiated_caps } => {
            if let Some(h) = s.hello_caps {
                let (r, d, hb) = (negotiated_caps.0, s.device_caps.0, h.0);
                assert((r & d & hb) & d == (r & d & hb)) by (bit_vector);
                assert((r & d & hb) & hb == (r & d & hb)) by (bit_vector);
            }
        },
        _ => {},
    }
}

/// A capability the device does not advertise never becomes active, whatever the desktop
/// claims: on a sound state, a negotiated bit is an advertised bit.
pub proof fn law_unadvertised_capability_stays_inert<A>(s: DispatchState<A>, bit: u32)
    requires
        negotiation_sound(s),
        within(bit, s.negotiated_caps.0),
    ensures
        within(bit, s.device_caps.0),
{
    let (b, n, d) = (bit, s.negotiated_caps.0, s.device_caps.0);
    assert((b & n == b && n & d == n) ==> b & d == b) by (bit_vector);
}

/// A duplicate frame (same sequence number as the previous one) has no effect at all: no
/// state change, no reply, no diagnostic.
pub proof fn law_duplicate_is_inert<A, P>(
    s: DispatchState<A>,
    message: Inbound<A, P>,
    device: CompanionState,
    now: u32,
)
    ensures
        handle_spec(s, SeqClass::Duplicate, message, device, now) == (
            s,
            device,
            no_action::<A, P>(),
        ),
{
}

/// A frame the decoder rejected changes nothing but the rejection count and the pending
/// diagnostic, which names only the class of failure.
pub proof fn law_rejection_has_no_side_effect<A>(s: DispatchState<A>, error: ProtoError)
    ensures
        rejected_spec(s, error) == (DispatchState {
            rejected: bump(s.rejected),
            pending: Some(DeviceDiagnostic::FrameRejected(reason_of(error))),
            ..s
        }),
        s.rejected < u32::MAX ==> rejected_spec(s, error).rejected == s.rejected + 1,
{
}

/// A `Hello` is answered with its own nonce, accepts that session and restarts negotiation; a
/// `Ping` is answered with its own timestamp and the device uptime.
pub proof fn law_handshake_and_heartbeat_echo<A, P>(
    s: DispatchState<A>,
    class: SeqClass,
    caps: Capabilities,
    nonce: u32,
    t_ms: u32,
    device: CompanionState,
    now: u32,
)
    requires
        !(class is Duplicate),
    ensures
        ({
            let (s2, _, act) = handle_spec(
                s,
                class,
                Inbound::<A, P>::Hello { desktop_caps: caps, nonce },
                device,
                now,
            );
            &&& act.reply == Some(
                Reply::<A>::HelloAck {
                    device_caps: s.device_caps,
                    device_id: s.device_id,
                    firmware_version: s.firmware_version,
                    nonce_echo: nonce,
                },
            )
            &&& s2.accepted_session == Some(nonce)
            &&& s2.negotiated_caps.0 == 0
            &&& s2.session_ended
        }),
        handle_spec(s, class, Inbound::<A, P>::Ping { t_ms }, device, now).2.reply == Some(
            Reply::<A>::Pong(Pong { t_ms_echo: t_ms, uptime_ms: now }),
        ),
{
}

/// A `SetState` is reported exactly when it changed the displayed state, and the report carries
/// the new state.
pub proof fn law_state_report_iff_changed<A, P>(
    s: DispatchState<A>,
    class: SeqClass,
    desired: SendableState,
    device: CompanionState,
    now: u32,
)
    requires
        !(class is Duplicate),
    ensures
        ({
            let (_, next, act) = handle_spec(
                s,
                class,
                Inbound::<A, P>::SetState { desired },
                device,
                now,
            );
            &&& next == desired.companion()
            &&& (act.reply is Some <==> next != device)
            &&& act.reply is Some ==> act.reply == Some(
                Reply::<A>::StateReport { reported: next, elapsed_ms: now },
            )
        }),
{
}

/// A social action is accepted only on a session that negotiated mascot interaction, and a
/// presentation is passed on only on a session that negotiated presentations.
pub proof fn law_negotiated_features_only<A, P>(
    s: DispatchState<A>,
    class: SeqClass,
    action: A,
    presentation: P,
    device: CompanionState,
    now: u32,
)
    ensures
        handle_spec(s, class, Inbound::<A, P>::PlayMascotAction(action), device, now).2.reply is Some
            ==> within(MASCOT_INTERACTION_BIT, s.negotiated_caps.0),
        !within(MASCOT_INTERACTION_BIT, s.negotiated_caps.0) ==> handle_spec(
            s,
            class,
            Inbound::<A, P>::PlayMascotAction(action),
            device,
            now,
        ).0.pending_action == s.pending_action,
        handle_spec(s, class, Inbound::<A, P>::Presentation(presentation), device, now).2.presentation is Some
            ==> within(PRESENTATION_V1_BIT, s.negotiated_caps.0),
{
}

/// `Bye` ends the session: the device shows `offline`, sequence tracking restarts, the link
/// loss is reported, and nothing negotiated or accepted survives.
pub proof fn law_bye_ends_the_session<A, P>(
    s: DispatchState<A>,
    class: SeqClass,
    device: CompanionState,
    now: u32,
)
    requires
        !(class is Duplicate),
    ensures
        ({
            let (s2, next, act) = handle_spec(s, class, Inbound::<A, P>::Bye, device, now);
            &&& next == CompanionState::Offline
            &&& act == Action::<A, P> { reply: None, presentation: None, reset_sequence: true }
            &&& s2.pending == Some(DeviceDiagnostic::LinkLost)
            &&& s2.negotiated_caps.0 == 0
            &&& s2.hello_caps is None
            &&& s2.accepted_session is None
            &&& s2.pending_action is None
            &&& s2.session_ended
        }),
{
}

/// Input stays inert without an accepted session or without negotiated physical input; when it
/// is emitted it carries the accepted session's nonce.
pub proof fn law_input_needs_session_and_capability<A>(
    s: DispatchState<A>,
    gesture_id: u16,
    kind: InputKind,
    now: u32,
)
    ensures
        s.accepted_session is None ==> input_event_spec(s, gesture_id, kind, now) is None,
        !within(PHYSICAL_INPUT_V1_BIT, s.negotiated_caps.0) ==> input_event_spec(
            s,
            gesture_id,
            kind,
            now,
        ) is None,
        input_event_spec(s, gesture_id, kind, now) matches Some(e) ==> (s.accepted_session
            == Some(e.session) && e.gesture_id == gesture_id && e.kind == kind),
        input_event_spec(session_closed(s), gesture_id, kind, now) is None,
{
}

/// The handshake negotiates exactly what all three parties accept: after a `Hello` offering
/// `offered` and the `Ready` that follows it choosing `chosen`, the negotiated capabilities are
/// those the `Ready` chose, the device advertises and the `Hello` offered, and nothing else. A
/// capability the desktop did not choose in its `Ready` is never active, so with physical input
/// left out of the `Ready` no input event leaves the device.
pub proof fn law_ready_negotiates_the_common_capabilities<A, P>(
    s: DispatchState<A>,
    hello_class: SeqClass,
    ready_class: SeqClass,
    offered: Capabilities,
    nonce: u32,
    chosen: Capabilities,
    device: CompanionState,
    t1: u32,
    t2: u32,
    gesture_id: u16,
    kind: InputKind,
    now: u32,
)
    requires
        !(hello_class is Duplicate),
        !(ready_class is Duplicate),
    ensures
        ({
            let (s1, d1, _) = handle_spec(
                s,
                hello_class,
                Inbound::<A, P>::Hello { desktop_caps: offered, nonce },
                device,
                t1,
            );
            let (s2, _, _) = handle_spec(
                s1,
                ready_class,
                Inbound::<A, P>::Ready { negotiated_caps: chosen },
                d1,
                t2,
            );
            &&& s2.negotiated_caps.0 == chosen.0 & s.device_caps.0 & offered.0
            &&& within(s2.negotiated_caps.0, chosen.0)
            &&& within(s2.negotiated_caps.0, s.device_caps.0)
            &&& within(s2.negotiated_caps.0, offered.0)
            &&& !within(PHYSICAL_INPUT_V1_BIT, chosen.0) ==> input_event_spec(
                s2,
                gesture_id,
                kind,
                now,
            ) is None
        }),
{
    let (r, d, h) = (chosen.0, s.device_caps.0, offered.0);
    assert((r & d & h) & r == (r & d & h)) by (bit_vector);
    assert((r & d & h) & d == (r & d & h)) by (bit_vector);
    assert((r & d & h) & h == (r & d & h)) by (bit_vector);
    assert((1u32 & r != 1u32) ==> (1u32 & (r & d & h) != 1u32)) by (bit_vector);
}

/// A negotiated feature is delivered: on a session that negotiated presentations a
/// `Presentation` is passed on as it came, and on one that negotiated mascot interaction a
/// social action becomes the pending action and is acknowledged with its own value and the
/// time. Neither, nor a `Ping` or a `SetState`, touches what was negotiated or accepted.
pub proof fn law_negotiated_features_are_delivered<A, P>(
    s: DispatchState<A>,
    class: SeqClass,
    action: A,
    presentation: P,
    desired: SendableState,
    t_ms: u32,
    device: CompanionState,
    now: u32,
)
    requires
        !(class is Duplicate),
    ensures
        within(PRESENTATION_V1_BIT, s.negotiated_caps.0) ==> handle_spec(
            s,
            class,
            Inbound::<A, P>::Presentation(presentation),
            device,
            now,
        ).2.presentation == Some(presentation),
        within(MASCOT_INTERACTION_BIT, s.negotiated_caps.0) ==> ({
            let (s2, _, act) = handle_spec(
                s,
                class,
                Inbound::<A, P>::PlayMascotAction(action),
                device,
                now,
            );
            &&& s2.pending_action == Some(action)
            &&& act.reply == Some(Reply::<A>::MascotActionApplied { action, applied_at_ms: now })
        }),
        ({
            let m1 = handle_spec(s, class, Inbound::<A, P>::Presentation(presentation), device, now).0;
            let m2 = handle_spec(s, class, Inbound::<A, P>::PlayMascotAction(action), device, now).0;
            let m3 = handle_spec(s, class, Inbound::<A, P>::Ping { t_ms }, device, now).0;
            let m4 = handle_spec(s, class, Inbound::<A, P>::SetState { desired }, device, now).0;
            &&& m1.negotiated_caps == s.negotiated_caps && m1.accepted_session == s.accepted_session
            &&& m2.negotiated_caps == s.negotiated_caps && m2.accepted_session == s.accepted_session
            &&& m3.negotiated_caps == s.negotiated_caps && m3.accepted_session == s.accepted_session
            &&& m4.negotiated_caps == s.negotiated_caps && m4.accepted_session == s.accepted_session
        }),
{
}

} // verus!
