//! Observation of the simulation modes: redacted marker text and the post-conditions a scenario
//! waits for.
//!
//! Markers carry message kinds, sequence numbers and state names only, never payload contents
//! or raw identity. Every post-condition is set from an observed event, never from "the step
//! ran", and each completion marker is announced exactly once, only when every post-condition
//! genuinely held.

use crate::device::health::{diagnostic_label, DeviceDiagnostic};
use crate::device::runtime::Tick;
use crate::device::wire::SeqClass;
use crate::model::{CompanionState, SendableState};
use crate::text::{decimal, push_decimal};
use vstd::prelude::*;

verus! {

/// The marker token of a companion state.
pub open spec fn state_token(state: CompanionState) -> Seq<char> {
    match state {
        CompanionState::Booting => "booting"@,
        CompanionState::Idle => "idle"@,
        CompanionState::Happy => "happy"@,
        CompanionState::Busy => "busy"@,
        CompanionState::Sleeping => "sleeping"@,
        CompanionState::Offline => "offline"@,
    }
}

/// Wire token for a companion state (marker text only).
pub fn state_name(state: CompanionState) -> (s: &'static str)
    ensures
        s@ == state_token(state),
{
    match state {
        CompanionState::Booting => "booting",
        CompanionState::Idle => "idle",
        CompanionState::Happy => "happy",
        CompanionState::Busy => "busy",
        CompanionState::Sleeping => "sleeping",
        CompanionState::Offline => "offline",
    }
}

/// The kind of a protocol message, without its contents.
#[derive(Debug, Clone, Copy, PartialEq, Eq, Structural)]
pub enum MessageKind {
    /// `Hello`.
    Hello,
    /// `HelloAck`.
    HelloAck,
    /// `Ready`.
    Ready,
    /// `Bye`.
    Bye,
    /// `SetState`.
    SetState,
    /// `StateReport`.
    StateReport,
    /// `Ping`.
    Ping,
    /// `Pong`.
    Pong,
    /// `Health`.
    Health,
    /// `Diagnostic`.
    Diagnostic,
    /// `Error`.
    Error,
    /// `PlayMascotAction`.
    PlayMascotAction,
    /// `MascotActionApplied`.
    MascotActionApplied,
    /// `InputEvent`.
    InputEvent,
    /// `Presentation`.
    Presentation,
}

/// The marker token of a message kind.
pub open spec fn kind_token(kind: MessageKind) -> Seq<char> {
    match kind {
        MessageKind::Hello => "Hello"@,
        MessageKind::HelloAck => "HelloAck"@,
        MessageKind::Ready => "Ready"@,
        MessageKind::Bye => "Bye"@,
        MessageKind::SetState => "SetState"@,
        MessageKind::StateReport => "StateReport"@,
        MessageKind::Ping => "Ping"@,
        MessageKind::Pong => "Pong"@,
        MessageKind::Health => "Health"@,
        MessageKind::Diagnostic => "Diagnostic"@,
        MessageKind::Error => "Error"@,
        MessageKind::PlayMascotAction => "PlayMascotAction"@,
        MessageKind::MascotActionApplied => "MascotActionApplied"@,
        MessageKind::InputEvent => "InputEvent"@,
        MessageKind::Presentation => "Presentation"@,
    }
}

/// Marker name for a message kind (never its contents).
pub fn kind_name(kind: MessageKind) -> (s: &'static str)
    ensures
        s@ == kind_token(kind),
{
    match kind {
        MessageKind::Hello => "Hello",
        MessageKind::HelloAck => "HelloAck",
        MessageKind::Ready => "Ready",
        MessageKind::Bye => "Bye",
        MessageKind::SetState => "SetState",
        MessageKind::StateReport => "StateReport",
        MessageKind::Ping => "Ping",
        MessageKind::Pong => "Pong",
        MessageKind::Health => "Health",
        MessageKind::Diagnostic => "Diagnostic",
        MessageKind::Error => "Error",
        MessageKind::PlayMascotAction => "PlayMascotAction",
        MessageKind::MascotActionApplied => "MascotActionApplied",
        MessageKind::InputEvent => "InputEvent",
        MessageKind::Presentation => "Presentation",
    }
}

/// The marker token of a sequence class.
pub open spec fn seq_class_token(class: SeqClass) -> Seq<char> {
    match class {
        SeqClass::First => "first"@,
        SeqClass::Expected => "ok"@,
        SeqClass::Duplicate => "duplicate"@,
        SeqClass::Gap(_) => "gap"@,
    }
}

/// Marker name for a sequence class.
pub fn seq_class_name(class: SeqClass) -> (s: &'static str)
    ensures
        s@ == seq_class_token(class),
{
    match class {
        SeqClass::First => "first",
        SeqClass::Expected => "ok",
        SeqClass::Duplicate => "duplicate",
        SeqClass::Gap(_) => "gap",
    }
}

/// One marker line: it starts on a fresh line even right after binary bytes on the same link.
pub open spec fn marker_line_spec(tag: Seq<char>, text: Seq<char>) -> Seq<char> {
    "\r\n"@ + tag + " "@ + text + "\r\n"@
}

/// Formats one marker line, `\r\n<tag> <text>\r\n`.
pub fn marker_line(tag: &str, text: &str) -> (s: String)
    ensures
        s@ == marker_line_spec(tag@, text@),
{
    let mut s = String::from_str("\r\n");
    s.append(tag);
    s.append(" ");
    s.append(text);
    s.append("\r\n");
    s
}

/// The structural sendable guarantee: every sendable state maps to a host-drivable companion
/// state, so no encodable `SetState` can carry `booting` or `offline`. Always holds.
pub fn sendable_guard() -> (ok: bool)
    ensures
        ok,
{
    let all = SendableState::ALL;
    let mut ok = all.len() == 4;
    let mut i: usize = 0;
    while i < all.len()
        invariant
            ok,
            i <= all.len(),
            all.len() == 4,
        decreases all.len() - i,
    {
        if all[i].to_companion().is_device_originated() {
            ok = false;
        }
        i = i + 1;
    }
    ok
}

/// An outbound message as the state-cycle observer reads it.
#[derive(Debug, Clone, Copy, PartialEq, Eq, Structural)]
pub enum Sent {
    /// A `HelloAck`.
    HelloAck,
    /// A `StateReport` of this state.
    StateReport(CompanionState),
    /// Anything else.
    Other,
}

/// An outbound message as the external-serial report reads it: its kind and the one safe field
/// a scenario asserts. Nothing else of the payload (no nonce value, no identity) is carried.
#[derive(Debug, Clone, Copy, PartialEq, Eq, Structural)]
pub enum TxReport {
    /// A `HelloAck`: whether the nonce echo was zero, and whether any capability was advertised.
    HelloAck { nonce_echo_zero: bool, caps_advertised: bool },
    /// A `Pong` echoing the host timestamp.
    Pong { echo: u32 },
    /// A `StateReport` of this state.
    StateReport(CompanionState),
    /// Any other kind.
    Other(MessageKind),
}

/// The marker texts reporting one outbound message.
pub open spec fn tx_report_spec(r: TxReport) -> Seq<Seq<char>> {
    match r {
        TxReport::HelloAck { nonce_echo_zero, caps_advertised } => seq![
            "TX kind=HelloAck nonce="@ + (if nonce_echo_zero {
                "zero"@
            } else {
                "ok"@
            }),
            "CAPS advertised="@ + (if caps_advertised {
                "some"@
            } else {
                "none"@
            }),
        ],
        TxReport::Pong { echo } => seq!["TX kind=Pong echo="@ + decimal(echo as nat)],
        TxReport::StateReport(state) => seq!["TX kind=StateReport reported="@ + state_token(state)],
        TxReport::Other(kind) => seq!["TX kind="@ + kind_token(kind)],
    }
}

/// The marker texts reporting one outbound message, in order.
pub fn tx_report(r: TxReport) -> (lines: Vec<String>)
    ensures
        texts(lines@) == tx_report_spec(r),
{
    let mut lines: Vec<String> = Vec::new();
    match r {
        TxReport::HelloAck { nonce_echo_zero, caps_advertised } => {
            let mut first = String::from_str("TX kind=HelloAck nonce=");
            first.append(
                if nonce_echo_zero {
                    "zero"
                } else {
                    "ok"
                },
            );
            let mut second = String::from_str("CAPS advertised=");
            second.append(
                if caps_advertised {
                    "some"
                } else {
                    "none"
                },
            );
            lines.push(first);
            lines.push(second);
        },
        TxReport::Pong { echo } => {
            let mut line = String::from_str("TX kind=Pong echo=");
            push_decimal(&mut line, echo as u64);
            lines.push(line);
        },
        TxReport::StateReport(state) => {
            let mut line = String::from_str("TX kind=StateReport reported=");
            line.append(state_name(state));
            lines.push(line);
        },
        TxReport::Other(kind) => {
            let mut line = String::from_str("TX kind=");
            line.append(kind_name(kind));
            lines.push(line);
        },
    }
    proof {
        assert(texts(lines@) =~= tx_report_spec(r));
    }
    lines
}

/// The state-cycle observer's logical state.
pub struct CycleState {
    /// The structural sendable guarantee held at boot.
    pub sendable_guard: bool,
    /// A `HelloAck` was actually transmitted.
    pub hello_ack_tx: bool,
    /// `StateReport(idle)` was transmitted while the device really was idle.
    pub report_idle_tx: bool,
    /// `StateReport(happy)` was transmitted while the device really was happy.
    pub report_happy_tx: bool,
    /// The real decoder rejected at least one frame.
    pub drop_seen: bool,
    /// The device's state was unchanged across that rejected frame.
    pub state_intact_after_drop: bool,
    /// A response was transmitted after the rejected frame.
    pub recovery_after_drop: bool,
    /// The completion marker has been emitted.
    pub announced: bool,
}

/// The observer after an outbound message was seen while the device showed `current`.
pub open spec fn cycle_tx_spec(c: CycleState, sent: Sent, current: CompanionState) -> CycleState {
    let c1 = match sent {
        Sent::HelloAck => CycleState { hello_ack_tx: true, ..c },
        Sent::StateReport(reported) => if reported is Idle && current is Idle {
            CycleState { report_idle_tx: true, ..c }
        } else if reported is Happy && current is Happy {
            CycleState { report_happy_tx: true, ..c }
        } else {
            c
        },
        Sent::Other => c,
    };
    if c1.drop_seen {
        CycleState { recovery_after_drop: true, ..c1 }
    } else {
        c1
    }
}

/// Every state-cycle post-condition held.
pub open spec fn cycle_complete(c: CycleState) -> bool {
    c.sendable_guard && c.hello_ack_tx && c.report_idle_tx && c.report_happy_tx && c.drop_seen
        && c.state_intact_after_drop && c.recovery_after_drop
}

/// Observed post-conditions for the state-cycle scenario.
#[derive(Debug, Default)]
pub struct StateCycle {
    sendable_guard: bool,
    hello_ack_tx: bool,
    report_idle_tx: bool,
    report_happy_tx: bool,
    drop_seen: bool,
    state_intact_after_drop: bool,
    recovery_after_drop: bool,
    announced: bool,
}

impl StateCycle {
    /// The logical state.
    pub closed spec fn view(self) -> CycleState {
        CycleState {
            sendable_guard: self.sendable_guard,
            hello_ack_tx: self.hello_ack_tx,
            report_idle_tx: self.report_idle_tx,
            report_happy_tx: self.report_happy_tx,
            drop_seen: self.drop_seen,
            state_intact_after_drop: self.state_intact_after_drop,
            recovery_after_drop: self.recovery_after_drop,
            announced: self.announced,
        }
    }

    /// Nothing observed yet.
    pub fn new() -> (c: Self)
        ensures
            c.view() == (CycleState {
                sendable_guard: false,
                hello_ack_tx: false,
                report_idle_tx: false,
                report_happy_tx: false,
                drop_seen: false,
                state_intact_after_drop: false,
                recovery_after_drop: false,
                announced: false,
            }),
    {
        StateCycle {
            sendable_guard: false,
            hello_ack_tx: false,
            report_idle_tx: false,
            report_happy_tx: false,
            drop_seen: false,
            state_intact_after_drop: false,
            recovery_after_drop: false,
            announced: false,
        }
    }

    /// Records whether the sendable guarantee held at boot.
    pub fn note_sendable_guard(&mut self, held: bool)
        ensures
            final(self).view() == (CycleState { sendable_guard: held, ..old(self).view() }),
    {
        self.sendable_guard = held;
    }

    /// Records an outbound message and the device state at that moment.
    pub fn on_tx(&mut self, sent: Sent, current: CompanionState)
        ensures
            final(self).view() == cycle_tx_spec(old(self).view(), sent, current),
    {
        match sent {
            Sent::HelloAck => self.hello_ack_tx = true,
            Sent::StateReport(reported) => {
                if reported == CompanionState::Idle && current == CompanionState::Idle {
                    self.report_idle_tx = true;
                } else if reported == CompanionState::Happy && current == CompanionState::Happy {
                    self.report_happy_tx = true;
                }
            },
            Sent::Other => {},
        }
        if self.drop_seen {
            self.recovery_after_drop = true;
        }
    }

    /// Records that the real decoder rejected a frame, and whether the state survived it.
    pub fn on_drop(&mut self, before: CompanionState, after: CompanionState)
        ensures
            final(self).view() == (CycleState {
                drop_seen: true,
                state_intact_after_drop: before == after,
                ..old(self).view()
            }),
    {
        self.drop_seen = true;
        self.state_intact_after_drop = before == after;
    }

    /// Whether every post-condition held.
    pub fn complete(&self) -> (b: bool)
        ensures
            b == cycle_complete(self.view()),
    {
        self.sendable_guard && self.hello_ack_tx && self.report_idle_tx && self.report_happy_tx
            && self.drop_seen && self.state_intact_after_drop && self.recovery_after_drop
    }

    /// Whether to emit the completion marker now: once, after every post-condition held.
    pub fn announce_if_complete(&mut self) -> (announce: bool)
        ensures
            announce == (!old(self).view().announced && cycle_complete(old(self).view())),
            final(self).view() == (CycleState {
                announced: old(self).view().announced || announce,
                ..old(self).view()
            }),
    {
        if !self.announced && self.complete() {
            self.announced = true;
            true
        } else {
            false
        }
    }
}

/// The production-runtime observer's logical state.
pub struct RunState {
    /// `booting` to `offline` was observed.
    pub booted_offline: bool,
    /// A full first frame was flushed.
    pub first_tiles: bool,
    /// A later frame flushed nothing.
    pub quiet_frame: bool,
    /// `idle` was held.
    pub idle_reported: bool,
    /// `happy` was held.
    pub happy_reported: bool,
    /// A rejected-frame diagnostic was transmitted.
    pub diagnostic_seen: bool,
    /// A health report was transmitted.
    pub health_seen: bool,
    /// A valid message was answered after a rejected frame.
    pub recovered_after_reject: bool,
    /// A `HelloAck` was transmitted.
    pub hello_acked: bool,
    /// A `Pong` was transmitted.
    pub ponged: bool,
    /// The completion marker has been emitted.
    pub announced: bool,
}

/// The `PASS` marker for the diagnostic of a rejected frame.
pub open spec fn diagnostic_marker(d: DeviceDiagnostic) -> Seq<char> {
    "PASS diagnostic label="@ + diagnostic_label(d)
}

/// The texts of a list of markers.
pub open spec fn texts(v: Seq<String>) -> Seq<Seq<char>> {
    v.map_values(|s: String| s@)
}

/// Marks `text` once, when `cond` holds: the observer with `flag` set and the markers so far.
pub open spec fn mark(
    o: RunState,
    m: Seq<Seq<char>>,
    cond: bool,
    set: RunState,
    text: Seq<char>,
) -> (RunState, Seq<Seq<char>>) {
    if cond {
        (set, m.push(text))
    } else {
        (o, m)
    }
}

/// Lifecycle and frame observations of one tick.
pub open spec fn note_frames(o: RunState, m: Seq<Seq<char>>, tick: Tick, tile_count: u32) -> (
    RunState,
    Seq<Seq<char>>,
) {
    let (o1, m1) = mark(
        o,
        m,
        !o.booted_offline && tick.state == Some(CompanionState::Offline),
        RunState { booted_offline: true, ..o },
        "PASS lifecycle-booting-to-offline"@,
    );
    let (o2, m2) = mark(
        o1,
        m1,
        !o1.first_tiles && tick.tiles_flushed == tile_count,
        RunState { first_tiles: true, ..o1 },
        "PASS first-frame-six-tiles"@,
    );
    mark(
        o2,
        m2,
        o2.first_tiles && !o2.quiet_frame && tick.tiles_flushed == 0,
        RunState { quiet_frame: true, ..o2 },
        "PASS unchanged-frame-no-reflush"@,
    )
}

/// State and protocol observations of one tick.
pub open spec fn note_protocol(o: RunState, m: Seq<Seq<char>>, tick: Tick) -> (
    RunState,
    Seq<Seq<char>>,
) {
    let (o1, m1) = if tick.state == Some(CompanionState::Idle) && !o.idle_reported {
        (RunState { idle_reported: true, ..o }, m.push("PASS state-idle"@))
    } else if tick.state == Some(CompanionState::Happy) && !o.happy_reported {
        (RunState { happy_reported: true, ..o }, m.push("PASS state-happy"@))
    } else {
        (o, m)
    };
    let (o2, m2) = mark(
        o1,
        m1,
        !o1.hello_acked && tick.hello_acks > 0,
        RunState { hello_acked: true, ..o1 },
        "PASS hello-ack"@,
    );
    mark(o2, m2, !o2.ponged && tick.pongs > 0, RunState { ponged: true, ..o2 }, "PASS pong"@)
}

/// Diagnostic, health and recovery observations of one tick.
pub open spec fn note_health(o: RunState, m: Seq<Seq<char>>, tick: Tick, rejected: u32) -> (
    RunState,
    Seq<Seq<char>>,
) {
    let (o1, m1) = match tick.diagnostic {
        Some(d) => mark(
            o,
            m,
            !o.diagnostic_seen && d is FrameRejected,
            RunState { diagnostic_seen: true, ..o },
            diagnostic_marker(d),
        ),
        None => (o, m),
    };
    let (o2, m2) = mark(
        o1,
        m1,
        !o1.health_seen && tick.health_sent,
        RunState { health_seen: true, ..o1 },
        "PASS health-report"@,
    );
    mark(
        o2,
        m2,
        !o2.recovered_after_reject && rejected > 0 && o2.diagnostic_seen && o2.ponged,
        RunState { recovered_after_reject: true, ..o2 },
        "PASS recovery-after-reject"@,
    )
}

/// One tick folded into the observer: the new state and the markers to print, in order.
pub open spec fn note_spec(o: RunState, tick: Tick, rejected: u32, tile_count: u32) -> (
    RunState,
    Seq<Seq<char>>,
) {
    let (o1, m1) = note_frames(o, Seq::empty(), tick, tile_count);
    let (o2, m2) = note_protocol(o1, m1, tick);
    note_health(o2, m2, tick, rejected)
}

/// Every production-runtime post-condition held.
pub open spec fn run_complete(o: RunState) -> bool {
    o.booted_offline && o.first_tiles && o.quiet_frame && o.idle_reported && o.happy_reported
        && o.diagnostic_seen && o.health_seen && o.hello_acked && o.ponged
        && o.recovered_after_reject
}

/// Post-conditions the production-runtime scenario asserts, all tracked from observed ticks.
#[derive(Debug, Default)]
pub struct Observed {
    booted_offline: bool,
    first_tiles: bool,
    quiet_frame: bool,
    idle_reported: bool,
    happy_reported: bool,
    diagnostic_seen: bool,
    health_seen: bool,
    recovered_after_reject: bool,
    hello_acked: bool,
    ponged: bool,
    announced: bool,
}

/// Pushes a marker text.
fn push_text(out: &mut Vec<String>, text: &str)
    ensures
        texts(final(out)@) == texts(old(out)@).push(text@),
{
    out.push(String::from_str(text));
    proof {
        assert(texts(out@) =~= texts(old(out)@).push(text@));
    }
}

impl Observed {
    /// The logical state.
    pub closed spec fn view(self) -> RunState {
        RunState {
            booted_offline: self.booted_offline,
            first_tiles: self.first_tiles,
            quiet_frame: self.quiet_frame,
            idle_reported: self.idle_reported,
            happy_reported: self.happy_reported,
            diagnostic_seen: self.diagnostic_seen,
            health_seen: self.health_seen,
            recovered_after_reject: self.recovered_after_reject,
            hello_acked: self.hello_acked,
            ponged: self.ponged,
            announced: self.announced,
        }
    }

    /// Nothing observed yet.
    pub fn new() -> (o: Self)
        ensures
            o.view() == (RunState {
                booted_offline: false,
                first_tiles: false,
                quiet_frame: false,
                idle_reported: false,
                happy_reported: false,
                diagnostic_seen: false,
                health_seen: false,
                recovered_after_reject: false,
                hello_acked: false,
                ponged: false,
                announced: false,
            }),
    {
        Observed {
            booted_offline: false,
            first_tiles: false,
            quiet_frame: false,
            idle_reported: false,
            happy_reported: false,
            diagnostic_seen: false,
            health_seen: false,
            recovered_after_reject: false,
            hello_acked: false,
            ponged: false,
            announced: false,
        }
    }

    fn note_frames(&mut self, out: &mut Vec<String>, tick: &Tick, tile_count: u32)
        ensures
            (final(self).view(), texts(final(out)@)) == note_frames(
                old(self).view(),
                texts(old(out)@),
                *tick,
                tile_count,
            ),
    {
        if !self.booted_offline && tick.state == Some(CompanionState::Offline) {
            self.booted_offline = true;
            push_text(out, "PASS lifecycle-booting-to-offline");
        }
        if !self.first_tiles && tick.tiles_flushed == tile_count {
            self.first_tiles = true;
            push_text(out, "PASS first-frame-six-tiles");
        }
        if self.first_tiles && !self.quiet_frame && tick.tiles_flushed == 0 {
            self.quiet_frame = true;
            push_text(out, "PASS unchanged-frame-no-reflush");
        }
    }

    fn note_protocol(&mut self, out: &mut Vec<String>, tick: &Tick)
        ensures
            (final(self).view(), texts(final(out)@)) == note_protocol(
                old(self).view(),
                texts(old(out)@),
                *tick,
            ),
    {
        if tick.state == Some(CompanionState::Idle) && !self.idle_reported {
            self.idle_reported = true;
            push_text(out, "PASS state-idle");
        } else if tick.state == Some(CompanionState::Happy) && !self.happy_reported {
            self.happy_reported = true;
            push_text(out, "PASS state-happy");
        }
        if !self.hello_acked && tick.hello_acks > 0 {
            self.hello_acked = true;
            push_text(out, "PASS hello-ack");
        }
        if !self.ponged && tick.pongs > 0 {
            self.ponged = true;
            push_text(out, "PASS pong");
        }
    }

    fn note_health(&mut self, out: &mut Vec<String>, tick: &Tick, rejected: u32)
        ensures
            (final(self).view(), texts(final(out)@)) == note_health(
                old(self).view(),
                texts(old(out)@),
                *tick,
                rejected,
            ),
    {
        if let Some(diagnostic) = tick.diagnostic {
            if !self.diagnostic_seen && matches!(diagnostic, DeviceDiagnostic::FrameRejected(_)) {
                self.diagnostic_seen = true;
                let mut text = String::from_str("PASS diagnostic label=");
                text.append(diagnostic.label());
                out.push(text);
                proof {
                    assert(texts(out@) =~= texts(old(out)@).push(diagnostic_marker(diagnostic)));
                }
            }
        }
        if !self.health_seen && tick.health_sent {
            self.health_seen = true;
            push_text(out, "PASS health-report");
        }
        if !self.recovered_after_reject && rejected > 0 && self.diagnostic_seen && self.ponged {
            self.recovered_after_reject = true;
            push_text(out, "PASS recovery-after-reject");
        }
    }

    /// Folds one tick into the observation set. Returns the markers to print, each exactly once
    /// per post-condition, in order. `tile_count` is the number of tiles of a full frame.
    pub fn note(&mut self, tick: &Tick, rejected: u32, tile_count: u32) -> (markers: Vec<String>)
        ensures
            (final(self).view(), texts(markers@)) == note_spec(
                old(self).view(),
                *tick,
                rejected,
                tile_count,
            ),
    {
        let mut out: Vec<String> = Vec::new();
        proof {
            assert(texts(out@) =~= Seq::<Seq<char>>::empty());
        }
        self.note_frames(&mut out, tick, tile_count);
        self.note_protocol(&mut out, tick);
        self.note_health(&mut out, tick, rejected);
        out
    }

    /// Whether every post-condition held.
    pub fn complete(&self) -> (b: bool)
        ensures
            b == run_complete(self.view()),
    {
        self.booted_offline && self.first_tiles && self.quiet_frame && self.idle_reported
            && self.happy_reported && self.diagnostic_seen && self.health_seen
            && self.hello_acked && self.ponged && self.recovered_after_reject
    }

    /// Whether to emit the completion marker now: once, after every post-condition held.
    pub fn announce_if_complete(&mut self) -> (announce: bool)
        ensures
            announce == (!old(self).view().announced && run_complete(old(self).view())),
            final(self).view() == (RunState {
                announced: old(self).view().announced || announce,
                ..old(self).view()
            }),
    {
        if !self.announced && self.complete() {
            self.announced = true;
            true
        } else {
            false
        }
    }
}

/// A completion marker is announced at most once, and only when every post-condition held.
pub proof fn law_completion_is_announced_once(c: CycleState, o: RunState)
    ensures
        (!c.announced && cycle_complete(c)) ==> cycle_complete(c),
        c.announced ==> !(!c.announced && cycle_complete(c)),
        o.announced ==> !(!o.announced && run_complete(o)),
{
}

/// Observing never forgets: every post-condition that held still holds after another event.
pub proof fn law_observations_only_accumulate(
    c: CycleState,
    sent: Sent,
    current: CompanionState,
    o: RunState,
    tick: Tick,
    rejected: u32,
    tile_count: u32,
)
    ensures
        cycle_complete(c) ==> cycle_complete(cycle_tx_spec(c, sent, current)),
        run_complete(o) ==> run_complete(note_spec(o, tick, rejected, tile_count).0),
{
}

/// Recovery is credited only after a rejection was observed: a response before any drop does
/// not count.
pub proof fn law_recovery_needs_a_prior_drop(c: CycleState, sent: Sent, current: CompanionState)
    requires
        !c.drop_seen,
        !c.recovery_after_drop,
    ensures
        !cycle_tx_spec(c, sent, current).recovery_after_drop,
{
}

} // verus!
