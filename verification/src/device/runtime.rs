//! The production loop's decisions, one tick at a time.
//!
//! Each tick, in order, the caller:
//!
//! 1. finishes boot once: `booting` to `offline`, the device-originated transition;
//! 2. hands over each decoded inbound frame (or the decoder's rejection), and a transport
//!    failure as a lost link; any session boundary then resets the rotary decoder and gesture
//!    state, so no gesture survives into a new (or recovered) session;
//! 3. hands over one input sample, and transmits the input events it is given: only on an
//!    accepted session that negotiated physical input;
//! 4. renders when a frame is due, on an anchored cadence that never queues stale frames,
//!    re-flushing every tile after a state change or a failed pass;
//! 5. transmits at most one safe diagnostic;
//! 6. transmits `Health` on its own interval.
//!
//! [`Runtime::boot`], [`Runtime::after_poll`] and [`Runtime::finish_tick`] take the decisions of
//! a tick in this order; decoding, encoding, the transport, the renderer and the panel stay with
//! the caller, which runs them in between.

use crate::device::dispatch::{
    fresh_dispatch, handle_spec, input_event_spec, session_closed, Action, DispatchState, Dispatcher, Inbound,
    InputEvent, InputKind, Reply,
};
use crate::device::health::DeviceDiagnostic;
use crate::device::presentation::{apply_spec, Presentation, PresentationState, PresentationView};
use crate::device::state::{DeviceEvent, DeviceState};
use crate::device::wire::{Capabilities, DeviceIdentity, ProtoError, SeqClass};
use crate::input::gesture::{detent_step, poll_step, GestureState, RotaryEvent, RotaryGesture};
use crate::input::quadrature::{decode_step, DecoderState, QuadratureDecoder};
use crate::latency_probe::{
    detent_spec, flushed_spec, presentation_spec, LatencyProbe, ProbeState, Readout,
};
use crate::model::{CompanionState, InputLevels};
use vstd::prelude::*;

verus! {

/// Inactivity window, in milliseconds, after which an open rotary gesture ends.
pub const GESTURE_END_MS: u32 = 250;

/// Loop timings, in integer milliseconds, so behaviour is deterministic.
#[derive(Debug, Clone, Copy, PartialEq, Eq, Structural)]
pub struct RuntimeConfig {
    /// Gap between render passes. A pass still flushes nothing when no tile changed.
    pub frame_interval_ms: u32,
    /// Gap between `Health` reports.
    pub health_interval_ms: u32,
}

impl Default for RuntimeConfig {
    /// 30 frames a second, and health once a second.
    fn default() -> (c: Self)
        ensures
            c == (RuntimeConfig { frame_interval_ms: 33, health_interval_ms: 1000 }),
    {
        RuntimeConfig { frame_interval_ms: 33, health_interval_ms: 1000 }
    }
}

/// What one tick observed.
#[derive(Debug, Clone, Copy, PartialEq, Eq, Default)]
pub struct Tick {
    /// The state the device holds after this tick.
    pub state: Option<CompanionState>,
    /// A render pass ran this tick.
    pub frame_rendered: bool,
    /// Tiles flushed to the display this tick.
    pub tiles_flushed: u32,
    /// A safe diagnostic was transmitted.
    pub diagnostic: Option<DeviceDiagnostic>,
    /// A `Health` report was transmitted.
    pub health_sent: bool,
    /// The transport reported a failure and the link was dropped.
    pub link_dropped: bool,
    /// Frames the decoder has rejected since boot (cumulative).
    pub rejected_frames: u32,
    /// `HelloAck` replies transmitted since boot (cumulative).
    pub hello_acks: u32,
    /// `Pong` replies transmitted since boot (cumulative).
    pub pongs: u32,
    /// `StateReport` messages transmitted since boot (cumulative).
    pub state_reports: u32,
}

/// The input events one sample produced, each already gated on the session.
#[derive(Debug, Clone, Copy, PartialEq, Eq, Structural)]
pub struct InputEvents {
    /// A gesture opened.
    pub started: Option<InputEvent>,
    /// A validated detent.
    pub detent: Option<InputEvent>,
    /// A gesture closed.
    pub ended: Option<InputEvent>,
}

/// A render pass to run.
#[derive(Debug, Clone, Copy, PartialEq, Eq, Structural)]
pub struct FramePlan {
    /// The state to render.
    pub state: CompanionState,
    /// Every tile must be flushed: the previous frame belongs to a different scene.
    pub invalidate: bool,
}

/// The loop's logical state.
pub struct RuntimeView<A, P, V> {
    /// The dispatcher.
    pub dispatch: DispatchState<A>,
    /// The displayed state.
    pub device: CompanionState,
    /// Timings.
    pub config: RuntimeConfig,
    /// Boot has completed.
    pub booted: bool,
    /// When the next render pass is due.
    pub next_frame_ms: u32,
    /// When the next health report is due.
    pub next_health_ms: u32,
    /// The state the last render pass showed.
    pub last_rendered: Option<CompanionState>,
    /// The rotary decoder.
    pub decoder: DecoderState,
    /// The gesture former.
    pub gesture: GestureState,
    /// What is presented.
    pub presentation: PresentationView<P, V>,
    /// The latency probe.
    pub probe: ProbeState,
}

/// The next frame deadline after a pass at `now` that was due at `next`: the first deadline on
/// the original grid that lies after `now`, so a late pass neither shifts the cadence nor
/// queues the frames it missed. With no interval, every tick renders.
pub open spec fn anchored_next(next: u32, interval: u32, now: u32) -> u32 {
    if interval == 0 {
        now
    } else {
        let cand = next + ((now - next) / (interval as int) + 1) * interval;
        if cand > u32::MAX {
            u32::MAX
        } else {
            cand as u32
        }
    }
}

/// `a + b`, saturating.
pub open spec fn sat_add(a: u32, b: u32) -> u32 {
    if a + b > u32::MAX {
        u32::MAX
    } else {
        (a + b) as u32
    }
}

/// Boot completion: the state after it, and the state change it caused.
pub open spec fn boot_spec<A, P, V>(r: RuntimeView<A, P, V>) -> (
    RuntimeView<A, P, V>,
    Option<CompanionState>,
) {
    if r.booted {
        (r, None)
    } else if r.device is Booting {
        (
            RuntimeView { booted: true, device: CompanionState::Offline, ..r },
            Some(CompanionState::Offline),
        )
    } else {
        (RuntimeView { booted: true, ..r }, None)
    }
}

/// One decoded frame: the new state and what to do. A `Hello` that opened a session scopes
/// presentations to it; an accepted presentation answers a pending detent for the probe.
pub open spec fn receive_spec<A, P, V>(
    r: RuntimeView<A, P, V>,
    class: SeqClass,
    message: Inbound<A, Presentation<P, V>>,
    now: u32,
) -> (RuntimeView<A, P, V>, Action<A, Presentation<P, V>>) {
    let (d2, dev2, act) = handle_spec(r.dispatch, class, message, r.device, now);
    let pres1 = match message {
        Inbound::Hello { nonce, .. } => if class is Duplicate {
            r.presentation
        } else {
            PresentationView { session: Some(nonce), last_revision: None, ..r.presentation }
        },
        _ => r.presentation,
    };
    let (pres2, accepted) = match act.presentation {
        Some(p) => apply_spec(pres1, p, now),
        None => (pres1, false),
    };
    let probe2 = if accepted {
        presentation_spec(r.probe, now)
    } else {
        r.probe
    };
    (RuntimeView { dispatch: d2, device: dev2, presentation: pres2, probe: probe2, ..r }, act)
}

/// The transport failed: the link drops to `offline`, the loss is reported, and the session is
/// over.
pub open spec fn link_failed_spec<A, P, V>(r: RuntimeView<A, P, V>) -> RuntimeView<A, P, V> {
    RuntimeView {
        device: CompanionState::Offline,
        dispatch: session_closed(
            DispatchState { pending: Some(DeviceDiagnostic::LinkLost), ..r.dispatch },
        ),
        ..r
    }
}

/// After a session boundary, no partial motion and no open gesture survive.
pub open spec fn session_reset_spec<A, P, V>(r: RuntimeView<A, P, V>) -> (
    RuntimeView<A, P, V>,
    bool,
) {
    if r.dispatch.session_ended {
        (
            RuntimeView {
                dispatch: DispatchState { session_ended: false, ..r.dispatch },
                decoder: DecoderState { phase: None, accumulator: 0, ..r.decoder },
                gesture: GestureState { last_id: 0, open: None, ..r.gesture },
                ..r
            },
            true,
        )
    } else {
        (r, false)
    }
}

/// The input event for a gesture event, gated on the session.
pub open spec fn gated<A>(d: DispatchState<A>, ev: RotaryEvent, now: u32) -> Option<InputEvent> {
    match ev {
        RotaryEvent::GestureStarted { gesture_id } => input_event_spec(
            d,
            gesture_id,
            InputKind::GestureStarted,
            now,
        ),
        RotaryEvent::Detent { gesture_id, direction } => input_event_spec(
            d,
            gesture_id,
            InputKind::Detent(direction),
            now,
        ),
        RotaryEvent::GestureEnded { gesture_id } => input_event_spec(
            d,
            gesture_id,
            InputKind::GestureEnded,
            now,
        ),
    }
}

/// The gated event for an optional gesture event.
pub open spec fn gated_opt<A>(d: DispatchState<A>, ev: Option<RotaryEvent>, now: u32) -> Option<
    InputEvent,
> {
    match ev {
        Some(e) => gated(d, e, now),
        None => None,
    }
}

/// One input sample at `now`: decode, form gestures, close an idle gesture, and gate every
/// event on the session. A transmitted detent starts a latency measurement.
pub open spec fn sample_spec<A, P, V>(r: RuntimeView<A, P, V>, levels: InputLevels, now: u32) -> (
    RuntimeView<A, P, V>,
    InputEvents,
) {
    let (dec2, dir) = decode_step(r.decoder, levels.a, levels.b);
    let (g2, started, detent) = match dir {
        Some(d) => {
            let (g, s, e) = detent_step(r.gesture, d, now);
            (g, s, Some(e))
        },
        None => (r.gesture, None, None),
    };
    let (g3, ended) = poll_step(g2, now);
    let detent_ev = gated_opt(r.dispatch, detent, now);
    let probe2 = if detent_ev is Some {
        detent_spec(r.probe, now)
    } else {
        r.probe
    };
    (
        RuntimeView { decoder: dec2, gesture: g3, probe: probe2, ..r },
        InputEvents {
            started: gated_opt(r.dispatch, started, now),
            detent: detent_ev,
            ended: gated_opt(r.dispatch, ended, now),
        },
    )
}

/// Whether a render pass is due at `now`, and the state after deciding.
pub open spec fn frame_due_spec<A, P, V>(r: RuntimeView<A, P, V>, now: u32) -> (
    RuntimeView<A, P, V>,
    Option<FramePlan>,
) {
    if now >= r.next_frame_ms {
        (
            RuntimeView {
                next_frame_ms: anchored_next(r.next_frame_ms, r.config.frame_interval_ms, now),
                last_rendered: Some(r.device),
                ..r
            },
            Some(
                FramePlan { state: r.device, invalidate: r.last_rendered != Some(r.device) },
            ),
        )
    } else {
        (r, None)
    }
}

/// A render pass ended at `now`: a completed pass finishes a latency measurement; a failed pass
/// forces a full re-flush, and a failed panel write is reported.
pub open spec fn rendered_spec<A, P, V>(
    r: RuntimeView<A, P, V>,
    completed: bool,
    sink_failed: bool,
    now: u32,
) -> (RuntimeView<A, P, V>, bool) {
    if completed {
        (RuntimeView { probe: flushed_spec(r.probe, now).0, ..r }, false)
    } else if sink_failed {
        (
            RuntimeView {
                dispatch: DispatchState {
                    pending: Some(DeviceDiagnostic::DisplayFault),
                    ..r.dispatch
                },
                ..r
            },
            true,
        )
    } else {
        (r, true)
    }
}

/// Whether a health report is due at `now`, and the state after deciding.
pub open spec fn health_due_spec<A, P, V>(r: RuntimeView<A, P, V>, now: u32) -> (
    RuntimeView<A, P, V>,
    bool,
) {
    if now >= r.next_health_ms {
        (
            RuntimeView {
                next_health_ms: sat_add(now, r.config.health_interval_ms),
                ..r
            },
            true,
        )
    } else {
        (r, false)
    }
}

/// What the middle of a tick decided, after the inbound traffic was handed over.
#[derive(Debug, Clone, Copy, PartialEq, Eq, Structural)]
pub struct TickMiddle {
    /// The transport failed and the link was dropped.
    pub link_dropped: bool,
    /// A session boundary reset the rotary input.
    pub input_reset: bool,
    /// The input events to transmit, in order.
    pub inputs: InputEvents,
    /// The render pass to run, if one is due.
    pub frame: Option<FramePlan>,
}

/// What the end of a tick decided.
#[derive(Debug, Clone, Copy, PartialEq, Eq, Structural)]
pub struct TickEnd {
    /// Every tile must be re-flushed on the next pass.
    pub invalidate: bool,
    /// The one safe diagnostic to transmit.
    pub diagnostic: Option<DeviceDiagnostic>,
    /// A `Health` report is due.
    pub health: bool,
}

/// How a render pass ended: every changed tile written, or a panel write failed.
#[derive(Debug, Clone, Copy, PartialEq, Eq, Structural)]
pub struct RenderOutcome {
    /// Every changed tile was written.
    pub completed: bool,
    /// A panel write failed.
    pub sink_failed: bool,
}

/// The middle of a tick at `now`, in the loop's order: a failed transport drops the link, a
/// session boundary resets the rotary input, one input sample is taken, and the frame cadence
/// decides whether to render.
pub open spec fn middle_spec<A, P, V>(
    r: RuntimeView<A, P, V>,
    transport_ok: bool,
    levels: InputLevels,
    now: u32,
) -> (RuntimeView<A, P, V>, TickMiddle) {
    let r1 = if transport_ok {
        r
    } else {
        link_failed_spec(r)
    };
    let (r2, reset) = session_reset_spec(r1);
    let (r3, inputs) = sample_spec(r2, levels, now);
    let (r4, frame) = frame_due_spec(r3, now);
    (r4, TickMiddle { link_dropped: !transport_ok, input_reset: reset, inputs, frame })
}

/// The end of a tick at `now`, in the loop's order: the render pass (if one ran) is accounted,
/// the one pending diagnostic is taken, and the health cadence decides whether to report.
pub open spec fn end_spec<A, P, V>(
    r: RuntimeView<A, P, V>,
    render: Option<RenderOutcome>,
    now: u32,
) -> (RuntimeView<A, P, V>, TickEnd) {
    let (r1, invalidate) = match render {
        Some(o) => rendered_spec(r, o.completed, o.sink_failed, now),
        None => (r, false),
    };
    let diagnostic = r1.dispatch.pending;
    let r2 = RuntimeView { dispatch: DispatchState { pending: None, ..r1.dispatch }, ..r1 };
    let (r3, health) = health_due_spec(r2, now);
    (r3, TickEnd { invalidate, diagnostic, health })
}

/// The production loop's state: lifecycle, protocol, input, cadence and latency probe.
pub struct Runtime<A, P, V> {
    dispatcher: Dispatcher<A>,
    device: DeviceState,
    config: RuntimeConfig,
    booted: bool,
    next_frame_ms: u32,
    next_health_ms: u32,
    last_rendered: Option<CompanionState>,
    decoder: QuadratureDecoder,
    gesture: RotaryGesture,
    presentation: PresentationState<P, V>,
    probe: LatencyProbe,
}

/// The next frame deadline, computed without overflow.
fn next_deadline(next: u32, interval: u32, now: u32) -> (r: u32)
    requires
        now >= next,
    ensures
        r == anchored_next(next, interval, now),
{
    if interval == 0 {
        return now;
    }
    let behind: u64 = (now - next) as u64;
    assert(behind / (interval as u64) <= behind) by (nonlinear_arith)
        requires
            interval > 0,
    ;
    let steps: u64 = behind / (interval as u64) + 1;
    assert(steps * (interval as u64) <= 0x1_0000_0000u64 * 0xffff_ffffu64) by (nonlinear_arith)
        requires
            steps <= 0x1_0000_0000u64,
            interval <= 0xffff_ffffu32,
    ;
    let span: u64 = steps * (interval as u64);
    if span > (u32::MAX as u64) {
        return u32::MAX;
    }
    let cand: u64 = next as u64 + span;
    if cand > (u32::MAX as u64) {
        u32::MAX
    } else {
        cand as u32
    }
}

impl<A: Copy, P: Copy, V: Copy> Runtime<A, P, V> {
    /// The logical state.
    pub closed spec fn view(self) -> RuntimeView<A, P, V> {
        RuntimeView {
            dispatch: self.dispatcher.view(),
            device: self.device.view(),
            config: self.config,
            booted: self.booted,
            next_frame_ms: self.next_frame_ms,
            next_health_ms: self.next_health_ms,
            last_rendered: self.last_rendered,
            decoder: self.decoder.view(),
            gesture: self.gesture.view(),
            presentation: self.presentation.view(),
            probe: self.probe.view(),
        }
    }

    /// The runtime of the device `identity`, before boot. `initial` is the primary state
    /// presented before any presentation arrives.
    pub fn new(identity: DeviceIdentity, config: RuntimeConfig, initial: P) -> (r: Self)
        ensures
            r.view().dispatch == fresh_dispatch::<A>(identity),
            r.view().device == CompanionState::Booting,
            r.view().config == config,
            !r.view().booted,
            r.view().next_frame_ms == 0,
            r.view().next_health_ms == 0,
            r.view().last_rendered is None,
            r.view().decoder == (DecoderState { phase: None, accumulator: 0, invalid: 0 }),
            r.view().gesture == (GestureState {
                gesture_end_ms: GESTURE_END_MS,
                last_id: 0,
                open: None,
            }),
            r.view().presentation == (PresentationView::<P, V> {
                session: None,
                last_revision: None,
                primary: initial,
                value: None,
                transient_ms: 0,
                applied_at: 0,
            }),
            r.view().probe == (ProbeState {
                detent_at: None,
                presented: false,
                readout: Readout { last: None, max: None },
            }),
    {
        Runtime {
            dispatcher: Dispatcher::new(identity),
            device: DeviceState::new(),
            config,
            booted: false,
            next_frame_ms: 0,
            next_health_ms: 0,
            last_rendered: None,
            decoder: QuadratureDecoder::new(),
            gesture: RotaryGesture::new(GESTURE_END_MS),
            presentation: PresentationState::new(initial),
            probe: LatencyProbe::new(),
        }
    }

    /// The companion state the device currently holds.
    pub fn state(&self) -> (c: CompanionState)
        ensures
            c == self.view().device,
    {
        self.device.current()
    }

    /// Frames the decoder has rejected this session.
    pub fn rejected_frames(&self) -> (n: u32)
        ensures
            n == self.view().dispatch.rejected,
    {
        self.dispatcher.rejected_frames()
    }

    /// The latency readout to draw.
    pub fn latency_readout(&self) -> (r: Readout)
        ensures
            r == self.view().probe.readout,
    {
        self.probe.readout()
    }

    /// The dispatcher, for its counters and session.
    pub fn dispatcher(&self) -> (d: &Dispatcher<A>)
        ensures
            d.view() == self.view().dispatch,
    {
        &self.dispatcher
    }

    /// What is presented.
    pub fn presentation(&self) -> (p: &PresentationState<P, V>)
        ensures
            p.view() == self.view().presentation,
    {
        &self.presentation
    }

    /// Finishes boot on the first tick: `booting` to `offline`. Returns the state change, if any.
    pub fn boot(&mut self) -> (c: Option<CompanionState>)
        ensures
            (final(self).view(), c) == boot_spec(old(self).view()),
    {
        if self.booted {
            return None;
        }
        self.booted = true;
        self.device.apply(DeviceEvent::BootComplete)
    }

    /// Handles one decoded inbound frame, classified `class` by the sequence tracker.
    pub fn receive(
        &mut self,
        class: SeqClass,
        message: Inbound<A, Presentation<P, V>>,
        now: u32,
    ) -> (act: Action<A, Presentation<P, V>>)
        ensures
            (final(self).view(), act) == receive_spec(old(self).view(), class, message, now),
    {
        let act = self.dispatcher.handle(class, message, &mut self.device, now);
        if let Inbound::Hello { nonce, .. } = message {
            if !matches!(class, SeqClass::Duplicate) {
                self.presentation.begin_session(nonce);
            }
        }
        if let Some(p) = act.presentation {
            if self.presentation.apply(&p, now) {
                self.probe.on_presentation(now);
            }
        }
        act
    }

    /// The decoder rejected an inbound frame.
    pub fn reject(&mut self, error: &ProtoError)
        ensures
            final(self).view() == (RuntimeView {
                dispatch: crate::device::dispatch::rejected_spec(old(self).view().dispatch, *error),
                ..old(self).view()
            }),
    {
        self.dispatcher.on_rejected(error);
    }

    /// The transport failed: a device that gives up on a bad cable is worse than one that waits
    /// for the host to come back, so the link drops to `offline` and the loss is reported.
    pub fn link_failed(&mut self)
        ensures
            final(self).view() == link_failed_spec(old(self).view()),
    {
        let _ = self.device.apply(DeviceEvent::LinkDown);
        self.dispatcher.note_diagnostic(DeviceDiagnostic::LinkLost);
        self.dispatcher.link_lost();
    }

    /// After a session boundary this poll, drops partial motion and any open gesture. Returns
    /// whether a boundary passed.
    pub fn reset_input_on_session_boundary(&mut self) -> (b: bool)
        ensures
            (final(self).view(), b) == session_reset_spec(old(self).view()),
    {
        if self.dispatcher.take_session_ended() {
            self.decoder.reset();
            self.gesture.reset();
            true
        } else {
            false
        }
    }

    /// Feeds one input sample at `now`. Returns the input events to transmit.
    pub fn sample(&mut self, levels: InputLevels, now: u32) -> (ev: InputEvents)
        ensures
            (final(self).view(), ev) == sample_spec(old(self).view(), levels, now),
    {
        let mut started: Option<InputEvent> = None;
        let mut detent: Option<InputEvent> = None;
        if let Some(direction) = self.decoder.update(levels.a, levels.b) {
            let (opened, d) = self.gesture.on_detent(direction, now);
            if let Some(RotaryEvent::GestureStarted { gesture_id }) = opened {
                started = self.dispatcher.input_event(gesture_id, InputKind::GestureStarted, now);
            }
            if let RotaryEvent::Detent { gesture_id, direction } = d {
                detent = self.dispatcher.input_event(gesture_id, InputKind::Detent(direction), now);
            }
            if detent.is_some() {
                self.probe.on_detent(now);
            }
        }
        let ended = match self.gesture.poll(now) {
            Some(RotaryEvent::GestureEnded { gesture_id }) => self.dispatcher.input_event(
                gesture_id,
                InputKind::GestureEnded,
                now,
            ),
            _ => None,
        };
        InputEvents { started, detent, ended }
    }

    /// Whether a render pass is due at `now`; if so, what to render.
    pub fn frame_due(&mut self, now: u32) -> (plan: Option<FramePlan>)
        ensures
            (final(self).view(), plan) == frame_due_spec(old(self).view(), now),
    {
        if now < self.next_frame_ms {
            return None;
        }
        self.next_frame_ms = next_deadline(self.next_frame_ms, self.config.frame_interval_ms, now);
        let state = self.device.current();
        let invalidate = match self.last_rendered {
            Some(last) => last != state,
            None => true,
        };
        self.last_rendered = Some(state);
        Some(FramePlan { state, invalidate })
    }

    /// A render pass ended at `now`. `completed` says every changed tile was written;
    /// `sink_failed` that a panel write failed. Returns whether every tile must be re-flushed
    /// on the next pass.
    pub fn rendered(&mut self, completed: bool, sink_failed: bool, now: u32) -> (invalidate: bool)
        ensures
            (final(self).view(), invalidate) == rendered_spec(
                old(self).view(),
                completed,
                sink_failed,
                now,
            ),
    {
        if completed {
            let _ = self.probe.on_frame_flushed(now);
            false
        } else {
            if sink_failed {
                self.dispatcher.note_diagnostic(DeviceDiagnostic::DisplayFault);
            }
            true
        }
    }

    /// Takes the one safe diagnostic this tick may transmit.
    pub fn take_diagnostic(&mut self) -> (d: Option<DeviceDiagnostic>)
        ensures
            d == old(self).view().dispatch.pending,
            final(self).view() == (RuntimeView {
                dispatch: DispatchState { pending: None, ..old(self).view().dispatch },
                ..old(self).view()
            }),
    {
        self.dispatcher.take_diagnostic()
    }

    /// Takes the latest accepted social action for the renderer.
    pub fn take_mascot_action(&mut self) -> (a: Option<A>)
        ensures
            a == old(self).view().dispatch.pending_action,
            final(self).view() == (RuntimeView {
                dispatch: DispatchState { pending_action: None, ..old(self).view().dispatch },
                ..old(self).view()
            }),
    {
        self.dispatcher.take_mascot_action()
    }

    /// Whether a health report is due at `now`.
    pub fn health_due(&mut self, now: u32) -> (due: bool)
        ensures
            (final(self).view(), due) == health_due_spec(old(self).view(), now),
    {
        if now < self.next_health_ms {
            return false;
        }
        self.next_health_ms = now.saturating_add(self.config.health_interval_ms);
        true
    }

    /// The sequence number for the next transmitted frame.
    pub fn claim_seq(&mut self) -> (seq: u16)
        ensures
            seq == old(self).view().dispatch.tx_seq,
            final(self).view() == (RuntimeView {
                dispatch: DispatchState {
                    tx_seq: if old(self).view().dispatch.tx_seq < u16::MAX {
                        (old(self).view().dispatch.tx_seq + 1) as u16
                    } else {
                        0u16
                    },
                    ..old(self).view().dispatch
                },
                ..old(self).view()
            }),
    {
        self.dispatcher.claim_seq()
    }

    /// Records that `reply` was transmitted in full.
    pub fn note_sent(&mut self, reply: &Reply<A>)
        ensures
            final(self).view() == (RuntimeView {
                dispatch: crate::device::dispatch::sent_spec(old(self).view().dispatch, *reply),
                ..old(self).view()
            }),
    {
        self.dispatcher.note_sent(reply);
    }

    /// The middle of a tick, once the inbound frames were handed over with
    /// [`Runtime::receive`] and [`Runtime::reject`]: `transport_ok` is whether the transport
    /// served the poll, `levels` the tick's one input sample.
    pub fn after_poll(&mut self, transport_ok: bool, levels: InputLevels, now: u32) -> (m: TickMiddle)
        ensures
            (final(self).view(), m) == middle_spec(old(self).view(), transport_ok, levels, now),
    {
        if !transport_ok {
            self.link_failed();
        }
        let input_reset = self.reset_input_on_session_boundary();
        let inputs = self.sample(levels, now);
        let frame = self.frame_due(now);
        TickMiddle { link_dropped: !transport_ok, input_reset, inputs, frame }
    }

    /// The end of a tick: `render` is how the render pass went, if one ran.
    pub fn finish_tick(&mut self, render: Option<RenderOutcome>, now: u32) -> (e: TickEnd)
        ensures
            (final(self).view(), e) == end_spec(old(self).view(), render, now),
    {
        let invalidate = match render {
            Some(o) => self.rendered(o.completed, o.sink_failed, now),
            None => false,
        };
        let diagnostic = self.take_diagnostic();
        let health = self.health_due(now);
        TickEnd { invalidate, diagnostic, health }
    }

    /// The cumulative counters and state a tick reports.
    pub fn tick_summary(&self, tick: Tick) -> (t: Tick)
        ensures
            t == (Tick {
                state: if tick.state is Some {
                    tick.state
                } else {
                    Some(self.view().device)
                },
                rejected_frames: self.view().dispatch.rejected,
                hello_acks: self.view().dispatch.hello_acks,
                pongs: self.view().dispatch.pongs,
                state_reports: self.view().dispatch.state_reports,
                ..tick
            }),
    {
        Tick {
            state: if tick.state.is_some() {
                tick.state
            } else {
                Some(self.device.current())
            },
            rejected_frames: self.dispatcher.rejected_frames(),
            hello_acks: self.dispatcher.hello_acks(),
            pongs: self.dispatcher.pongs(),
            state_reports: self.dispatcher.state_reports(),
            ..tick
        }
    }
}


/// Boot completes exactly once: the first tick moves a fresh device from `booting` to
/// `offline` and reports it; every later tick changes nothing.
pub proof fn law_boot_happens_once<A, P, V>(r: RuntimeView<A, P, V>)
    requires
        !r.booted,
        r.device is Booting,
    ensures
        boot_spec(r).1 == Some(CompanionState::Offline),
        boot_spec(r).0.device == CompanionState::Offline,
        boot_spec(boot_spec(r).0) == (boot_spec(r).0, None::<CompanionState>),
{
}

/// No render pass runs before its deadline.
pub proof fn law_no_frame_before_its_deadline<A, P, V>(r: RuntimeView<A, P, V>, now: u32)
    requires
        now < r.next_frame_ms,
    ensures
        frame_due_spec(r, now) == (r, None::<FramePlan>),
{
}

/// The frame cadence is anchored: after a pass at `now` (however late), the next deadline is
/// the first one on the original grid after `now`, so exactly one pass runs for any number of
/// missed deadlines and the grid never shifts.
pub proof fn law_frame_cadence_is_anchored(next: u32, interval: u32, now: u32)
    requires
        interval > 0,
        now >= next,
        next + ((now - next) / (interval as int) + 1) * interval <= u32::MAX,
    ensures
        now < anchored_next(next, interval, now),
        anchored_next(next, interval, now) <= now + interval,
        (anchored_next(next, interval, now) - next) % (interval as int) == 0,
{
    let d: int = now - next;
    let i: int = interval as int;
    let q: int = d / i;
    assert(d == q * i + d % i && 0 <= d % i < i) by (nonlinear_arith)
        requires
            i > 0,
            d >= 0,
            q == d / i,
    ;
    assert((q + 1) * i == q * i + i) by (nonlinear_arith);
    assert(((q + 1) * i) % i == 0) by (nonlinear_arith)
        requires
            i > 0,
            q >= 0,
    ;
}

/// A pass after a state change re-flushes every tile; a pass showing the state already shown
/// flushes only what changed.
pub proof fn law_state_change_invalidates<A, P, V>(r: RuntimeView<A, P, V>, now: u32)
    requires
        now >= r.next_frame_ms,
    ensures
        frame_due_spec(r, now).1 == Some(
            FramePlan { state: r.device, invalidate: r.last_rendered != Some(r.device) },
        ),
        frame_due_spec(r, now).0.last_rendered == Some(r.device),
{
}

/// Health goes out at most once per interval.
pub proof fn law_health_once_per_interval<A, P, V>(r: RuntimeView<A, P, V>, now: u32, later: u32)
    requires
        health_due_spec(r, now).1,
        now + r.config.health_interval_ms <= u32::MAX,
        now <= later < now + r.config.health_interval_ms,
    ensures
        !health_due_spec(health_due_spec(r, now).0, later).1,
{
}

/// The first ticks of a fresh runtime with no host traffic: the first reports the fall from
/// `booting` to `offline`, renders a frame that re-flushes every tile and sends health; a second
/// tick at the same instant renders nothing and sends no health. Taken in the loop's order:
/// boot, frame, health.
pub proof fn law_first_tick_flushes_all_then_nothing<A, P, V>(r: RuntimeView<A, P, V>, now: u32)
    requires
        !r.booted,
        r.device is Booting,
        r.next_frame_ms == 0,
        r.next_health_ms == 0,
        r.last_rendered is None,
        r.config.frame_interval_ms > 0,
        r.config.health_interval_ms > 0,
        now + r.config.frame_interval_ms <= u32::MAX,
        now + r.config.health_interval_ms <= u32::MAX,
    ensures
        ({
            let (r1, reported) = boot_spec(r);
            let (r2, plan) = frame_due_spec(r1, now);
            let (r3, health) = health_due_spec(r2, now);
            let (r4, again) = boot_spec(r3);
            let (r5, plan2) = frame_due_spec(r4, now);
            let (_, health2) = health_due_spec(r5, now);
            &&& reported == Some(CompanionState::Offline)
            &&& plan == Some(FramePlan { state: CompanionState::Offline, invalidate: true })
            &&& health
            &&& again is None
            &&& plan2 is None
            &&& !health2
        }),
{
    let i = r.config.frame_interval_ms;
    assert(((now - 0) / (i as int) + 1) * i <= now + i) by (nonlinear_arith)
        requires
            i > 0,
            now >= 0,
    ;
    law_frame_cadence_is_anchored(0, i, now);
}

/// The first two ticks of a fresh runtime whose transport serves with no host traffic, taken
/// stage by stage (boot, middle, end): the first reports the fall to `offline`, renders a frame
/// that re-flushes every tile, and reports health; the second, at the same instant, changes no
/// state, renders nothing and reports nothing.
pub proof fn law_first_ticks_in_loop_order<A, P, V>(
    r: RuntimeView<A, P, V>,
    levels: InputLevels,
    now: u32,
)
    requires
        !r.booted,
        r.device is Booting,
        r.next_frame_ms == 0,
        r.next_health_ms == 0,
        r.last_rendered is None,
        r.dispatch.pending is None,
        !r.dispatch.session_ended,
        r.config.frame_interval_ms > 0,
        r.config.health_interval_ms > 0,
        now + r.config.frame_interval_ms <= u32::MAX,
        now + r.config.health_interval_ms <= u32::MAX,
    ensures
        ({
            let (r1, reported) = boot_spec(r);
            let (r2, mid) = middle_spec(r1, true, levels, now);
            let (r3, end) = end_spec(r2, Some(RenderOutcome { completed: true, sink_failed: false }), now);
            let (r4, again) = boot_spec(r3);
            let (r5, mid2) = middle_spec(r4, true, levels, now);
            let (_, end2) = end_spec(r5, None, now);
            &&& reported == Some(CompanionState::Offline)
            &&& !mid.link_dropped
            &&& mid.frame == Some(FramePlan { state: CompanionState::Offline, invalidate: true })
            &&& end.health && end.diagnostic is None && !end.invalidate
            &&& again is None
            &&& mid2.frame is None
            &&& !end2.health && end2.diagnostic is None
        }),
{
    let i = r.config.frame_interval_ms;
    assert(((now - 0) / (i as int) + 1) * i <= now + i) by (nonlinear_arith)
        requires
            i > 0,
            now >= 0,
    ;
    law_frame_cadence_is_anchored(0, i, now);
}

/// After any session boundary (`Hello`, `Bye`, a lost link) no partial motion and no open
/// gesture survive, so the next detent opens a fresh gesture and cannot continue one from the
/// old session.
pub proof fn law_session_boundary_resets_input<A, P, V>(
    r: RuntimeView<A, P, V>,
    levels: InputLevels,
    now: u32,
)
    requires
        r.dispatch.session_ended,
    ensures
        session_reset_spec(r).1,
        session_reset_spec(r).0.gesture.open is None,
        session_reset_spec(r).0.decoder.phase is None,
        session_reset_spec(r).0.decoder.accumulator == 0,
        !session_reset_spec(r).0.dispatch.session_ended,
{
}

/// After a link failure no input event leaves the device until a new session is accepted.
pub proof fn law_link_failure_silences_input<A, P, V>(
    r: RuntimeView<A, P, V>,
    levels: InputLevels,
    now: u32,
)
    ensures
        link_failed_spec(r).device == CompanionState::Offline,
        link_failed_spec(r).dispatch.session_ended,
        sample_spec(link_failed_spec(r), levels, now).1 == (InputEvents {
            started: None,
            detent: None,
            ended: None,
        }),
{
}

} // verus!
