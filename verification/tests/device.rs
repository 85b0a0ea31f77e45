use kivori::device::dispatch::{
    Action, ControlId, Dispatcher, Inbound, InputEvent, InputKind, Reply,
};
use kivori::buffers::RX_CAPACITY;
use kivori::device::framing::RxBuffer;
use kivori::device::health::{
    build_diagnostic, build_health, build_pong, diagnostic_for_sequence, DeviceDiagnostic,
    RejectReason,
};
use kivori::device::observe::{
    tx_report, TxReport,
    kind_name, marker_line, sendable_guard, seq_class_name, state_name, MessageKind, Observed,
    Sent, StateCycle,
};
use kivori::device::presentation::{Presentation, PresentationState};
use kivori::device::runtime::{FramePlan, RenderOutcome, Runtime, RuntimeConfig, Tick};
use kivori::device::state::{DeviceEvent, DeviceState};
use kivori::device::wire::{
    DeviceIdentity, FirmwareVersion,
    Capabilities, Diagnostic, ErrorCategory, Health, Pong, ProtoError, SeqClass,
};
use kivori::model::{CompanionState, Direction, InputLevels, SendableState};

type Disp = Dispatcher<u8>;

fn ident(capabilities: Capabilities) -> DeviceIdentity {
    DeviceIdentity {
        device_id: [0xAB; 16],
        firmware_version: FirmwareVersion { major: 1, minor: 0, patch: 0 },
        capabilities,
    }
}

fn hello(nonce: u32, caps: Capabilities) -> Inbound<u8, ()> {
    Inbound::Hello { desktop_caps: caps, nonce }
}

// ---------------------------------------------------------------- health

#[test]
fn pong_echoes_the_timestamp_and_reports_uptime() {
    assert_eq!(build_pong(4242, 900), Pong { t_ms_echo: 4242, uptime_ms: 900 });
    assert_eq!(build_health(4096), Health { free_bytes: 4096 });
}

#[test]
fn every_decoder_error_maps_to_its_safe_category() {
    for e in [
        ProtoError::Cobs,
        ProtoError::TooShort,
        ProtoError::BadMagic,
        ProtoError::LengthMismatch,
        ProtoError::BufferOverflow,
    ] {
        assert_eq!(RejectReason::of(&e), RejectReason::Framing);
    }
    assert_eq!(RejectReason::of(&ProtoError::BadCrc), RejectReason::Checksum);
    assert_eq!(RejectReason::of(&ProtoError::UnsupportedVersion), RejectReason::Version);
    assert_eq!(RejectReason::of(&ProtoError::PayloadTooLarge), RejectReason::Payload);
    assert_eq!(RejectReason::of(&ProtoError::Postcard), RejectReason::Payload);
    assert_eq!(RejectReason::Payload.category(), ErrorCategory::BadPayload);
}

#[test]
fn diagnostics_have_fixed_codes_categories_and_labels() {
    let all = [
        (DeviceDiagnostic::FrameRejected(RejectReason::Framing), 1, ErrorCategory::Framing, "frame-rejected-framing"),
        (DeviceDiagnostic::FrameRejected(RejectReason::Checksum), 2, ErrorCategory::Checksum, "frame-rejected-checksum"),
        (DeviceDiagnostic::FrameRejected(RejectReason::Version), 3, ErrorCategory::Version, "frame-rejected-version"),
        (DeviceDiagnostic::FrameRejected(RejectReason::Payload), 4, ErrorCategory::BadPayload, "frame-rejected-payload"),
        (DeviceDiagnostic::SequenceGap, 5, ErrorCategory::Framing, "sequence-gap"),
        (DeviceDiagnostic::DisplayFault, 6, ErrorCategory::Io, "display-fault"),
        (DeviceDiagnostic::LinkLost, 7, ErrorCategory::Io, "link-lost"),
    ];
    for (d, code, category, label) in all {
        assert_eq!(d.code(), code);
        assert_eq!(d.category(), category);
        assert_eq!(d.label(), label);
        assert_eq!(build_diagnostic(d), Diagnostic { category, code });
    }
}

#[test]
fn only_a_sequence_gap_is_reportable() {
    assert_eq!(diagnostic_for_sequence(SeqClass::Gap(3)), Some(DeviceDiagnostic::SequenceGap));
    assert_eq!(diagnostic_for_sequence(SeqClass::First), None);
    assert_eq!(diagnostic_for_sequence(SeqClass::Expected), None);
    assert_eq!(diagnostic_for_sequence(SeqClass::Duplicate), None);
}

// ---------------------------------------------------------------- lifecycle

#[test]
fn boot_ends_in_offline_and_link_loss_returns_there() {
    let mut d = DeviceState::new();
    assert_eq!(d.current(), CompanionState::Booting);
    assert_eq!(d.apply(DeviceEvent::BootComplete), Some(CompanionState::Offline));
    assert_eq!(d.apply(DeviceEvent::BootComplete), None);
    assert_eq!(d.apply(DeviceEvent::LinkUp), None);
    assert_eq!(d.apply(DeviceEvent::SetState(SendableState::Happy)), Some(CompanionState::Happy));
    assert_eq!(d.apply(DeviceEvent::SetState(SendableState::Happy)), None);
    assert_eq!(d.apply(DeviceEvent::LinkDown), Some(CompanionState::Offline));
    assert_eq!(d.apply(DeviceEvent::BootComplete), None);
    assert_eq!(DeviceState::default().current(), CompanionState::Booting);
}

// ---------------------------------------------------------------- dispatcher

#[test]
fn responds_to_hello_with_nonce_echo_and_accepts_the_session() {
    let mut d = Disp::new(ident(Capabilities::none()));
    let mut dev = DeviceState::new();
    let act = d.handle(SeqClass::First, hello(0xDEAD_BEEF, Capabilities::none()), &mut dev, 10);
    assert_eq!(
        act.reply,
        Some(Reply::HelloAck {
            device_caps: Capabilities::none(),
            device_id: [0xAB; 16],
            firmware_version: FirmwareVersion { major: 1, minor: 0, patch: 0 },
            nonce_echo: 0xDEAD_BEEF,
        })
    );
    assert_eq!(d.hello_acks(), 0);
    d.note_sent(&act.reply.unwrap());
    assert_eq!(d.hello_acks(), 1);
    assert_eq!(d.accepted_session(), Some(0xDEAD_BEEF));
    assert!(d.take_session_ended());
    assert!(!d.take_session_ended());
}

#[test]
fn applies_set_state_and_reports_it_once() {
    let mut d = Disp::new(ident(Capabilities::none()));
    let mut dev = DeviceState::new();
    let act: Action<u8, ()> =
        d.handle(SeqClass::First, Inbound::SetState { desired: SendableState::Idle }, &mut dev, 250);
    assert_eq!(dev.current(), CompanionState::Idle);
    assert_eq!(
        act.reply,
        Some(Reply::StateReport { reported: CompanionState::Idle, elapsed_ms: 250 })
    );
    let again: Action<u8, ()> = d.handle(
        SeqClass::Expected,
        Inbound::SetState { desired: SendableState::Idle },
        &mut dev,
        260,
    );
    assert_eq!(again.reply, None, "an unchanged state is not re-reported");
}

#[test]
fn ping_is_answered_with_pong_echo() {
    let mut d = Disp::new(ident(Capabilities::none()));
    let mut dev = DeviceState::new();
    let act: Action<u8, ()> = d.handle(SeqClass::First, Inbound::Ping { t_ms: 4242 }, &mut dev, 900);
    assert_eq!(act.reply, Some(Reply::Pong(Pong { t_ms_echo: 4242, uptime_ms: 900 })));
    d.note_sent(&act.reply.unwrap());
    assert_eq!(d.pongs(), 1);
}

#[test]
fn duplicate_sequence_is_not_reapplied() {
    let mut d = Disp::new(ident(Capabilities::none()));
    let mut dev = DeviceState::new();
    let _: Action<u8, ()> =
        d.handle(SeqClass::First, Inbound::SetState { desired: SendableState::Busy }, &mut dev, 100);
    let act: Action<u8, ()> = d.handle(
        SeqClass::Duplicate,
        Inbound::SetState { desired: SendableState::Idle },
        &mut dev,
        200,
    );
    assert_eq!(dev.current(), CompanionState::Busy, "duplicate must not change state");
    assert_eq!(act.reply, None, "duplicate must not re-report");
}

#[test]
fn bye_drops_the_link_to_offline_and_reports_it() {
    let mut d = Disp::new(ident(Capabilities::physical_input_v1()));
    let mut dev = DeviceState::new();
    let _ = d.handle(SeqClass::First, hello(1, Capabilities::physical_input_v1()), &mut dev, 0);
    let _: Action<u8, ()> =
        d.handle(SeqClass::Expected, Inbound::SetState { desired: SendableState::Happy }, &mut dev, 0);
    let act: Action<u8, ()> = d.handle(SeqClass::Expected, Inbound::Bye, &mut dev, 1000);
    assert!(act.reset_sequence);
    assert_eq!(dev.current(), CompanionState::Offline);
    assert_eq!(d.take_diagnostic(), Some(DeviceDiagnostic::LinkLost));
    assert_eq!(d.accepted_session(), None);
}

#[test]
fn a_rejected_frame_is_counted_and_reported_safely() {
    let mut d = Disp::new(ident(Capabilities::none()));
    d.on_rejected(&ProtoError::Cobs);
    assert_eq!(d.rejected_frames(), 1);
    assert_eq!(
        d.take_diagnostic(),
        Some(DeviceDiagnostic::FrameRejected(RejectReason::Framing))
    );
    assert_eq!(d.take_diagnostic(), None);
}

#[test]
fn a_sequence_gap_is_reported_and_the_frame_still_served() {
    let mut d = Disp::new(ident(Capabilities::none()));
    let mut dev = DeviceState::new();
    let act: Action<u8, ()> = d.handle(SeqClass::Gap(898), Inbound::Ping { t_ms: 1 }, &mut dev, 5);
    assert!(act.reply.is_some());
    assert_eq!(d.take_diagnostic(), Some(DeviceDiagnostic::SequenceGap));
}

#[test]
fn send_input_event_is_inert_without_a_negotiated_capability() {
    let mut d = Disp::new(ident(Capabilities::physical_input_v1()));
    let mut dev = DeviceState::new();
    let _ = d.handle(SeqClass::First, hello(0xAAAA_BBBB, Capabilities::none()), &mut dev, 0);
    assert_eq!(d.accepted_session(), Some(0xAAAA_BBBB));
    assert_eq!(d.input_event(1, InputKind::GestureStarted, 0), None);
}

#[test]
fn send_input_event_is_inert_without_an_accepted_session() {
    let mut d = Disp::new(ident(Capabilities::physical_input_v1()));
    let mut dev = DeviceState::new();
    let _: Action<u8, ()> = d.handle(
        SeqClass::First,
        Inbound::Ready { negotiated_caps: Capabilities::physical_input_v1() },
        &mut dev,
        0,
    );
    assert_eq!(d.accepted_session(), None);
    assert_eq!(d.input_event(1, InputKind::GestureStarted, 0), None);
}

#[test]
fn send_input_event_emits_once_negotiated_and_accepted() {
    let caps = Capabilities::physical_input_v1().union(Capabilities::presentation_v1());
    let mut d = Disp::new(ident(caps));
    let mut dev = DeviceState::new();
    let _ = d.handle(SeqClass::First, hello(0x1111_2222, caps), &mut dev, 0);
    let _: Action<u8, ()> =
        d.handle(SeqClass::Expected, Inbound::Ready { negotiated_caps: caps }, &mut dev, 0);
    assert_eq!(
        d.input_event(7, InputKind::Detent(Direction::Cw), 42),
        Some(InputEvent {
            session: 0x1111_2222,
            gesture_id: 7,
            control: ControlId::Rotary,
            kind: InputKind::Detent(Direction::Cw),
            device_ms: 42,
        })
    );
}

#[test]
fn send_input_event_is_inert_when_the_desktop_over_claims_a_capability() {
    let mut d = Disp::new(ident(Capabilities::none()));
    let mut dev = DeviceState::new();
    let _ = d.handle(SeqClass::First, hello(0xC0FF_EE00, Capabilities::physical_input_v1()), &mut dev, 0);
    let _: Action<u8, ()> = d.handle(
        SeqClass::Expected,
        Inbound::Ready { negotiated_caps: Capabilities::physical_input_v1() },
        &mut dev,
        0,
    );
    assert!(d.negotiated_caps().is_empty());
    assert_eq!(d.input_event(1, InputKind::GestureStarted, 0), None);
}

#[test]
fn a_mascot_action_needs_the_negotiated_capability() {
    let caps = Capabilities::mascot_interaction();
    let mut d = Disp::new(ident(caps));
    let mut dev = DeviceState::new();
    let act: Action<u8, ()> = d.handle(SeqClass::First, Inbound::PlayMascotAction(3), &mut dev, 5);
    assert_eq!(act.reply, None);
    assert_eq!(d.take_mascot_action(), None);
    let _ = d.handle(SeqClass::Expected, hello(9, caps), &mut dev, 6);
    let _: Action<u8, ()> =
        d.handle(SeqClass::Expected, Inbound::Ready { negotiated_caps: caps }, &mut dev, 7);
    let act: Action<u8, ()> = d.handle(SeqClass::Expected, Inbound::PlayMascotAction(3), &mut dev, 8);
    assert_eq!(act.reply, Some(Reply::MascotActionApplied { action: 3, applied_at_ms: 8 }));
    assert_eq!(d.take_mascot_action(), Some(3));
    assert_eq!(d.take_mascot_action(), None, "actions never queue");
}

#[test]
fn a_lost_link_closes_the_session() {
    let caps = Capabilities::physical_input_v1();
    let mut d = Disp::new(ident(caps));
    let mut dev = DeviceState::new();
    let _ = d.handle(SeqClass::First, hello(5, caps), &mut dev, 0);
    let _: Action<u8, ()> =
        d.handle(SeqClass::Expected, Inbound::Ready { negotiated_caps: caps }, &mut dev, 0);
    let _ = d.take_session_ended();
    assert!(d.input_event(1, InputKind::GestureStarted, 0).is_some());
    d.link_lost();
    assert!(d.take_session_ended());
    assert_eq!(d.accepted_session(), None);
    assert_eq!(d.input_event(1, InputKind::GestureStarted, 0), None);
}

#[test]
fn transmitted_frames_take_consecutive_sequence_numbers() {
    let mut d = Disp::new(ident(Capabilities::none()));
    assert_eq!(d.claim_seq(), 0);
    assert_eq!(d.claim_seq(), 1);
    for _ in 2..u16::MAX as u32 + 1 {
        d.claim_seq();
    }
    assert_eq!(d.claim_seq(), 0, "the sequence wraps");
}

// ---------------------------------------------------------------- framing

#[test]
fn packets_split_on_the_delimiter_and_oversized_ones_are_skipped() {
    let mut rx = RxBuffer::new();
    rx.extend(&[1, 2, 0, 0, 9, 9, 9, 9, 9, 0, 7]);
    assert_eq!(rx.next_packet(4), Some(Some(vec![1, 2])));
    assert_eq!(rx.next_packet(4), Some(None), "empty packet");
    assert_eq!(rx.next_packet(4), Some(None), "oversized packet");
    assert_eq!(rx.next_packet(4), None, "no delimiter yet");
    assert_eq!(rx.len(), 1);
    rx.extend(&[8, 0]);
    assert_eq!(rx.take_packet(), Some(vec![7, 8]));
}

#[test]
fn an_overflowing_buffer_resynchronises_on_the_next_byte() {
    let mut rx = RxBuffer::new();
    rx.extend(&vec![1u8; RX_CAPACITY]);
    assert_eq!(rx.len(), RX_CAPACITY);
    assert_eq!(rx.take_packet(), None);
    rx.extend(&[4, 0]);
    assert_eq!(rx.take_packet(), Some(vec![4]));
    assert_eq!(rx.len(), 0);
}

// ---------------------------------------------------------------- presentation

fn pres(session: u32, revision: u32, percent: u8, transient_ms: u16) -> Presentation<u8, u8> {
    Presentation { session, revision, primary: 1, value: Some(percent), transient_ms }
}

#[test]
fn a_newer_revision_is_accepted_and_an_older_one_is_dropped() {
    let mut state = PresentationState::<u8, u8>::new(0);
    state.begin_session(0xAAAA);
    assert!(state.apply(&pres(0xAAAA, 5, 50, 800), 1_000));
    assert!(!state.apply(&pres(0xAAAA, 4, 10, 800), 1_010), "older revision");
    assert!(!state.apply(&pres(0xAAAA, 5, 10, 800), 1_020), "same revision");
    assert!(state.apply(&pres(0xAAAA, 6, 60, 800), 1_030));
}

#[test]
fn a_presentation_from_another_session_is_dropped() {
    let mut state = PresentationState::<u8, u8>::new(0);
    state.begin_session(0xAAAA);
    assert!(state.apply(&pres(0xAAAA, 5, 50, 800), 1_000));
    assert!(
        !state.apply(&pres(0xBBBB, 900, 10, 800), 1_010),
        "a stale high-revision presentation from a previous session must not render"
    );
}

#[test]
fn a_new_session_accepts_revision_one_again() {
    let mut state = PresentationState::<u8, u8>::new(0);
    state.begin_session(0xAAAA);
    assert!(state.apply(&pres(0xAAAA, 743, 50, 800), 1_000));
    state.begin_session(0xBBBB);
    assert!(state.apply(&pres(0xBBBB, 1, 20, 800), 2_000), "a restarted desktop must not be rejected as stale");
}

#[test]
fn the_transient_overlay_expires_locally_back_to_primary() {
    let mut state = PresentationState::<u8, u8>::new(0);
    state.begin_session(0xAAAA);
    state.apply(&pres(0xAAAA, 1, 50, 800), 1_000);
    assert!(state.value_at(1_799).is_some(), "still inside the window");
    assert!(state.value_at(1_800).is_none(), "expired overlays restore the underlying primary state");
    assert_eq!(state.primary(), 1);
}

#[test]
fn a_persistent_presentation_never_expires() {
    let mut state = PresentationState::<u8, u8>::new(0);
    state.begin_session(0xAAAA);
    state.apply(&pres(0xAAAA, 1, 50, 0), 1_000);
    assert!(state.value_at(600_000).is_some());
}

#[test]
fn transient_expiry_is_wrap_safe_across_a_device_uptime_rollover() {
    let mut state = PresentationState::<u8, u8>::new(0);
    state.begin_session(0xAAAA);
    let applied_at = u32::MAX - 100;
    assert!(state.apply(&pres(0xAAAA, 1, 50, 800), applied_at));
    assert!(state.value_at(applied_at + 50).is_some());
    assert!(state.value_at(applied_at.wrapping_add(800)).is_none());
}

#[test]
fn a_presentation_before_any_session_is_dropped() {
    let mut state = PresentationState::<u8, u8>::new(0);
    assert!(!state.apply(&pres(0, 1, 50, 0), 10));
    assert_eq!(state.primary(), 0);
    assert_eq!(state.value_at(10), None);
}

// ---------------------------------------------------------------- runtime

type Rt = Runtime<u8, u8, u8>;

fn runtime(caps: Capabilities) -> Rt {
    Rt::new(ident(caps), RuntimeConfig::default(), 0)
}

#[test]
fn runtime_config_defaults_to_thirty_frames_and_one_second_health() {
    let c = RuntimeConfig::default();
    assert_eq!(c.frame_interval_ms, 33);
    assert_eq!(c.health_interval_ms, 1000);
}

#[test]
fn boot_transitions_to_offline_exactly_once() {
    let mut rt = runtime(Capabilities::none());
    assert_eq!(rt.state(), CompanionState::Booting);
    assert_eq!(rt.boot(), Some(CompanionState::Offline));
    assert_eq!(rt.boot(), None);
    assert_eq!(rt.state(), CompanionState::Offline);
}

#[test]
fn a_late_frame_keeps_the_original_cadence_without_queuing_stale_frames() {
    let mut rt = runtime(Capabilities::none());
    rt.boot();
    let first = rt.frame_due(0).expect("first frame");
    assert!(first.invalidate, "the first frame flushes everything");
    assert!(rt.frame_due(1).is_none());
    assert!(rt.frame_due(50).is_some(), "the overdue frame renders once");
    assert!(rt.frame_due(65).is_none(), "the next anchored deadline is 66 ms");
    assert!(rt.frame_due(66).is_some(), "the 66 ms deadline is preserved");
    assert!(rt.frame_due(1000).is_some());
    assert!(rt.frame_due(1022).is_none());
    assert!(rt.frame_due(1023).is_some(), "1023 is on the 33 ms grid");
}

#[test]
fn a_state_change_invalidates_the_next_frame() {
    let mut rt = runtime(Capabilities::none());
    rt.boot();
    rt.frame_due(0);
    let quiet = rt.frame_due(33).unwrap();
    assert!(!quiet.invalidate);
    let _ = rt.receive(SeqClass::First, Inbound::SetState { desired: SendableState::Happy }, 40);
    let changed = rt.frame_due(66).unwrap();
    assert_eq!(changed.state, CompanionState::Happy);
    assert!(changed.invalidate);
}

#[test]
fn the_first_tick_flushes_everything_and_a_repeat_tick_nothing() {
    let mut rt = runtime(Capabilities::none());
    assert_eq!(rt.boot(), Some(CompanionState::Offline));
    assert_eq!(
        rt.frame_due(0),
        Some(FramePlan { state: CompanionState::Offline, invalidate: true })
    );
    assert!(rt.health_due(0));
    assert_eq!(rt.boot(), None);
    assert_eq!(rt.frame_due(0), None);
    assert!(!rt.health_due(0));
}

#[test]
fn health_is_emitted_on_its_own_cadence_not_every_tick() {
    let mut rt = runtime(Capabilities::none());
    assert!(rt.health_due(0), "a report goes out at boot");
    assert!(!rt.health_due(33));
    assert!(rt.health_due(1033), "the next interval fires one report");
    assert!(!rt.health_due(1034));
}

#[test]
fn a_failed_panel_write_is_reported_and_forces_a_full_reflush() {
    let mut rt = runtime(Capabilities::none());
    assert!(rt.rendered(false, true, 10));
    assert_eq!(rt.take_diagnostic(), Some(DeviceDiagnostic::DisplayFault));
    assert!(rt.rendered(false, false, 11));
    assert_eq!(rt.take_diagnostic(), None, "a missing scene is not a panel fault");
    assert!(!rt.rendered(true, false, 12));
}

#[test]
fn a_transport_failure_drops_the_link_and_resets_input() {
    let caps = Capabilities::physical_input_v1();
    let mut rt = runtime(caps);
    rt.boot();
    let _ = rt.receive(SeqClass::First, Inbound::Hello { desktop_caps: caps, nonce: 0xA5 }, 0);
    let _ = rt.receive(SeqClass::Expected, Inbound::Ready { negotiated_caps: caps }, 0);
    assert!(rt.reset_input_on_session_boundary());
    let cw = [(false, false), (false, true), (true, true), (true, false), (false, false)];
    let mut started = None;
    for (t, (a, b)) in cw.iter().enumerate() {
        let ev = rt.sample(InputLevels { a: *a, b: *b, sw: false }, t as u32);
        if ev.started.is_some() {
            started = ev.started;
        }
    }
    assert_eq!(started.map(|e| e.session), Some(0xA5));
    rt.link_failed();
    assert_eq!(rt.state(), CompanionState::Offline);
    assert_eq!(rt.take_diagnostic(), Some(DeviceDiagnostic::LinkLost));
    assert!(rt.reset_input_on_session_boundary());
    for t in 10..400u32 {
        let ev = rt.sample(InputLevels { a: false, b: false, sw: false }, t);
        assert_eq!(ev.ended, None, "no input event after a link loss");
    }
}

#[test]
fn latency_is_measured_from_detent_to_flush_completion() {
    let caps = Capabilities::physical_input_v1().union(Capabilities::presentation_v1());
    let mut rt = runtime(caps);
    rt.boot();
    let _ = rt.receive(SeqClass::First, Inbound::Hello { desktop_caps: caps, nonce: 7 }, 0);
    let _ = rt.receive(SeqClass::Expected, Inbound::Ready { negotiated_caps: caps }, 0);
    let cw = [(false, false), (false, true), (true, true), (true, false), (false, false)];
    for (t, (a, b)) in cw.iter().enumerate() {
        rt.sample(InputLevels { a: *a, b: *b, sw: false }, 100 + t as u32);
    }
    let p = Presentation { session: 7, revision: 1, primary: 2u8, value: Some(40u8), transient_ms: 0 };
    let act = rt.receive(SeqClass::Expected, Inbound::Presentation(p), 130);
    assert_eq!(act.presentation, Some(p));
    assert_eq!(rt.presentation().primary(), 2);
    assert!(!rt.rendered(true, false, 148));
    let r = rt.latency_readout();
    assert_eq!(r.last, Some(44), "the detent left at 104; the flush finished at 148");
    assert_eq!(r.max, Some(44));
}

#[test]
fn the_tick_summary_reports_the_cumulative_counters() {
    let mut rt = runtime(Capabilities::none());
    rt.boot();
    rt.reject(&ProtoError::BadCrc);
    let act = rt.receive(SeqClass::First, Inbound::Ping { t_ms: 3 }, 9);
    rt.note_sent(&act.reply.unwrap());
    let t = rt.tick_summary(Tick::default());
    assert_eq!(t.state, Some(CompanionState::Offline));
    assert_eq!(t.rejected_frames, 1);
    assert_eq!(t.pongs, 1);
    assert_eq!(rt.rejected_frames(), 1);
    assert_eq!(rt.dispatcher().pongs(), 1);
}

// ---------------------------------------------------------------- observation

#[test]
fn marker_tokens_name_states_kinds_and_classes() {
    assert_eq!(state_name(CompanionState::Sleeping), "sleeping");
    assert_eq!(kind_name(MessageKind::MascotActionApplied), "MascotActionApplied");
    assert_eq!(seq_class_name(SeqClass::Expected), "ok");
    assert_eq!(seq_class_name(SeqClass::Gap(2)), "gap");
    assert_eq!(marker_line("KIVORI-EXT", "DROP reason=decode"), "\r\nKIVORI-EXT DROP reason=decode\r\n");
    assert!(sendable_guard());
}

#[test]
fn the_state_cycle_completes_only_after_every_post_condition() {
    let mut c = StateCycle::new();
    c.note_sendable_guard(true);
    c.on_tx(Sent::HelloAck, CompanionState::Offline);
    c.on_tx(Sent::StateReport(CompanionState::Idle), CompanionState::Idle);
    c.on_tx(Sent::StateReport(CompanionState::Happy), CompanionState::Happy);
    assert!(!c.announce_if_complete());
    c.on_drop(CompanionState::Happy, CompanionState::Happy);
    assert!(!c.complete(), "recovery must come after the drop");
    c.on_tx(Sent::Other, CompanionState::Happy);
    assert!(c.announce_if_complete());
    assert!(!c.announce_if_complete(), "announced exactly once");
}

#[test]
fn the_production_runtime_observer_prints_each_marker_once_in_order() {
    let mut o = Observed::new();
    let boot = Tick {
        state: Some(CompanionState::Offline),
        tiles_flushed: 6,
        health_sent: true,
        ..Tick::default()
    };
    assert_eq!(
        o.note(&boot, 0, 6),
        vec![
            "PASS lifecycle-booting-to-offline",
            "PASS first-frame-six-tiles",
            "PASS health-report"
        ]
    );
    let quiet = Tick { state: Some(CompanionState::Offline), ..Tick::default() };
    assert_eq!(o.note(&quiet, 0, 6), vec!["PASS unchanged-frame-no-reflush"]);
    assert!(o.note(&quiet, 0, 6).is_empty());
    let reject = Tick {
        state: Some(CompanionState::Idle),
        diagnostic: Some(DeviceDiagnostic::FrameRejected(RejectReason::Framing)),
        hello_acks: 1,
        ..Tick::default()
    };
    assert_eq!(
        o.note(&reject, 1, 6),
        vec!["PASS state-idle", "PASS hello-ack", "PASS diagnostic label=frame-rejected-framing"]
    );
    let pong = Tick { state: Some(CompanionState::Happy), pongs: 1, ..Tick::default() };
    assert_eq!(
        o.note(&pong, 1, 6),
        vec!["PASS state-happy", "PASS pong", "PASS recovery-after-reject"]
    );
    assert!(o.complete());
    assert!(o.announce_if_complete());
    assert!(!o.announce_if_complete());
}

#[test]
fn outbound_reports_carry_kinds_and_safe_fields_only() {
    assert_eq!(
        tx_report(TxReport::HelloAck { nonce_echo_zero: false, caps_advertised: true }),
        vec!["TX kind=HelloAck nonce=ok".to_string(), "CAPS advertised=some".to_string()]
    );
    assert_eq!(
        tx_report(TxReport::HelloAck { nonce_echo_zero: true, caps_advertised: false }),
        vec!["TX kind=HelloAck nonce=zero".to_string(), "CAPS advertised=none".to_string()]
    );
    assert_eq!(tx_report(TxReport::Pong { echo: 1234 }), vec!["TX kind=Pong echo=1234".to_string()]);
    assert_eq!(
        tx_report(TxReport::StateReport(CompanionState::Sleeping)),
        vec!["TX kind=StateReport reported=sleeping".to_string()]
    );
    assert_eq!(tx_report(TxReport::Other(MessageKind::Bye)), vec!["TX kind=Bye".to_string()]);
}

#[test]
fn emission_order_is_stable() {
    let idle = InputLevels { a: false, b: false, sw: false };
    let done = Some(RenderOutcome { completed: true, sink_failed: false });
    let mut rt = runtime(Capabilities::none());

    assert_eq!(rt.boot(), Some(CompanionState::Offline));
    let mid = rt.after_poll(true, idle, 0);
    assert!(!mid.link_dropped);
    assert_eq!(mid.frame, Some(FramePlan { state: CompanionState::Offline, invalidate: true }));
    let end = rt.finish_tick(done, 0);
    assert!(end.health && end.diagnostic.is_none());
    assert_eq!(rt.state(), CompanionState::Offline);

    assert_eq!(rt.boot(), None);
    let mid = rt.after_poll(true, idle, 0);
    assert_eq!(mid.frame, None);
    assert!(!rt.finish_tick(None, 0).health);

    let mid = rt.after_poll(true, idle, 33);
    assert!(mid.frame.is_some());
    assert!(!rt.finish_tick(done, 33).health);

    let _ = rt.after_poll(true, idle, 1033);
    assert!(rt.finish_tick(done, 1033).health);
}

#[test]
fn a_failed_transport_drops_the_link_and_reports_it_in_the_same_tick() {
    let idle = InputLevels { a: false, b: false, sw: false };
    let mut rt = runtime(Capabilities::none());
    rt.boot();
    let mid = rt.after_poll(false, idle, 0);
    assert!(mid.link_dropped);
    assert!(mid.input_reset);
    assert_eq!(rt.state(), CompanionState::Offline);
    let end = rt.finish_tick(None, 0);
    assert!(!end.invalidate);
    assert_eq!(end.diagnostic, Some(DeviceDiagnostic::LinkLost));
}
