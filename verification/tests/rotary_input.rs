use kivori::device::dispatch::{ControlId, Dispatcher, InputEvent, InputKind};
use kivori::device::wire::Capabilities;
use kivori::sim::handshaken_dispatcher;
use kivori::input::gesture::{RotaryEvent, RotaryGesture};
use kivori::input::quadrature::QuadratureDecoder;
use kivori::model::Direction;

/// Drive the decoder through a sequence of (a, b) levels, collecting emitted detents.
fn drive(seq: &[(bool, bool)]) -> Vec<Direction> {
    let mut d = QuadratureDecoder::new();
    let mut out = Vec::new();
    for &(a, b) in seq {
        if let Some(dir) = d.update(a, b) {
            out.push(dir);
        }
    }
    out
}

/// One full clockwise detent is the four-phase cycle 00 -> 01 -> 11 -> 10 -> 00.
const CW_CYCLE: [(bool, bool); 5] = [
    (false, false),
    (false, true),
    (true, true),
    (true, false),
    (false, false),
];

/// Counter-clockwise is the same cycle traversed in reverse.
const CCW_CYCLE: [(bool, bool); 5] = [
    (false, false),
    (true, false),
    (true, true),
    (false, true),
    (false, false),
];

#[test]
fn full_clockwise_cycle_emits_exactly_one_cw_detent() {
    assert_eq!(drive(&CW_CYCLE), vec![Direction::Cw]);
}

#[test]
fn full_counter_clockwise_cycle_emits_exactly_one_ccw_detent() {
    assert_eq!(drive(&CCW_CYCLE), vec![Direction::Ccw]);
}

#[test]
fn partial_motion_that_returns_emits_no_detent() {
    // Bounce walks to an adjacent Gray state and comes back without completing a detent.
    let seq = [
        (false, false),
        (false, true),
        (false, false),
        (false, true),
        (false, false),
    ];
    assert_eq!(drive(&seq), vec![]);
}

#[test]
fn repeated_identical_samples_emit_nothing() {
    let seq = [(false, false); 8];
    assert_eq!(drive(&seq), vec![]);
}

#[test]
fn illegal_double_bit_transition_is_counted_and_emits_no_detent() {
    let mut d = QuadratureDecoder::new();
    assert_eq!(d.update(false, false), None);
    // 00 -> 11 changes both bits at once: electrically impossible for a real detent.
    assert_eq!(d.update(true, true), None);
    assert_eq!(d.invalid_transitions(), 1);
}

#[test]
fn three_consecutive_cw_cycles_emit_three_cw_detents() {
    let mut seq = Vec::new();
    for _ in 0..3 {
        seq.extend_from_slice(&CW_CYCLE[1..]);
    }
    let mut full = vec![(false, false)];
    full.extend(seq);
    assert_eq!(
        drive(&full),
        vec![Direction::Cw, Direction::Cw, Direction::Cw]
    );
}

#[test]
fn reversal_mid_cycle_does_not_emit_a_detent() {
    // Advance two quarter-steps clockwise, then retreat to the start. No detent completed.
    let seq = [
        (false, false),
        (false, true),
        (true, true),
        (false, true),
        (false, false),
    ];
    assert_eq!(drive(&seq), vec![]);
}

#[test]
fn invalid_transition_discards_quarter_steps_banked_before_it() {
    // 00 -> 01 -> 11 banks two clockwise quarter-steps, then 11 -> 00 is an illegal
    // double-bit transition. Two more clockwise quarter-steps follow. If the banked
    // steps survived the discontinuity they would splice with the steps after it
    // (2 + 2 = 4) and wrongly complete a detent; invariant 42 / R-77 / R-82 require
    // that a detent only ever be emitted for a continuous, fully observed traversal.
    let mut d = QuadratureDecoder::new();
    let mut out = Vec::new();
    for &(a, b) in &[
        (false, false),
        (false, true),
        (true, true),
        (false, false), // illegal: 11 -> 00, both bits change
        (false, true),
        (true, true),
    ] {
        if let Some(dir) = d.update(a, b) {
            out.push(dir);
        }
    }
    assert_eq!(out, vec![]);
    assert_eq!(d.invalid_transitions(), 1);
}

#[test]
fn detent_completes_normally_immediately_after_an_invalid_transition() {
    // After the same illegal 11 -> 00 discontinuity used above, a full, continuous
    // clockwise cycle should still complete cleanly — an invalid transition must not
    // wedge the decoder against ever emitting again.
    let seq = [
        (false, false),
        (false, true),
        (true, true),
        (false, false), // illegal: 11 -> 00, both bits change
        (false, true),
        (true, true),
        (true, false),
        (false, false),
    ];
    assert_eq!(drive(&seq), vec![Direction::Cw]);
}

#[test]
fn reset_drops_both_phase_and_accumulator() {
    // Bank three of the four quarter-steps of a clockwise detent, then reset. If
    // `reset` failed to clear the accumulator, the very next quarter-step after the
    // reset would splice with the stale count and complete a detent one step early.
    let mut d = QuadratureDecoder::new();
    let mut out = Vec::new();

    for &(a, b) in &[
        (false, false), // establish phase 00
        (false, true),  // 01, acc = 1
        (true, true),   // 11, acc = 2
        (true, false),  // 10, acc = 3 (one shy of a detent)
    ] {
        if let Some(dir) = d.update(a, b) {
            out.push(dir);
        }
    }

    d.reset();

    // Re-establishes phase (must not be treated as a transition from the pre-reset
    // phase), then one more quarter-step. If the accumulator had leaked across reset
    // (stale 3 + 1), this would wrongly complete a detent here already.
    for &(a, b) in &[(false, false), (false, true)] {
        if let Some(dir) = d.update(a, b) {
            out.push(dir);
        }
    }
    assert_eq!(out, vec![], "reset must have dropped the stale accumulator");

    // The decoder must not be wedged: a genuine full cycle from here still completes.
    for &(a, b) in &[(true, true), (true, false), (false, false)] {
        if let Some(dir) = d.update(a, b) {
            out.push(dir);
        }
    }
    assert_eq!(out, vec![Direction::Cw]);
}

const GESTURE_END_MS: u32 = 250;

#[test]
fn first_detent_opens_a_gesture_and_reports_the_detent() {
    let mut g = RotaryGesture::new(GESTURE_END_MS);
    let (started, detent) = g.on_detent(Direction::Cw, 1_000);
    assert_eq!(started, Some(RotaryEvent::GestureStarted { gesture_id: 1 }));
    assert_eq!(
        detent,
        RotaryEvent::Detent {
            gesture_id: 1,
            direction: Direction::Cw
        }
    );
}

#[test]
fn detents_inside_the_window_stay_in_one_gesture() {
    let mut g = RotaryGesture::new(GESTURE_END_MS);
    let (started, _) = g.on_detent(Direction::Cw, 1_000);
    assert!(started.is_some());

    // 249 ms later: still the same gesture, so no new GestureStarted.
    let (started, detent) = g.on_detent(Direction::Cw, 1_249);
    assert_eq!(started, None);
    assert_eq!(
        detent,
        RotaryEvent::Detent {
            gesture_id: 1,
            direction: Direction::Cw
        }
    );
}

#[test]
fn gesture_ends_after_the_inactivity_window() {
    let mut g = RotaryGesture::new(GESTURE_END_MS);
    g.on_detent(Direction::Cw, 1_000);

    assert_eq!(
        g.poll(1_249),
        None,
        "must not end before the window elapses"
    );
    assert_eq!(
        g.poll(1_250),
        Some(RotaryEvent::GestureEnded { gesture_id: 1 })
    );
    assert_eq!(g.poll(1_500), None, "GestureEnded is emitted exactly once");
}

#[test]
fn a_detent_after_the_window_opens_a_new_gesture_id() {
    let mut g = RotaryGesture::new(GESTURE_END_MS);
    g.on_detent(Direction::Cw, 1_000);
    assert_eq!(
        g.poll(1_250),
        Some(RotaryEvent::GestureEnded { gesture_id: 1 })
    );

    let (started, detent) = g.on_detent(Direction::Ccw, 2_000);
    assert_eq!(started, Some(RotaryEvent::GestureStarted { gesture_id: 2 }));
    assert_eq!(
        detent,
        RotaryEvent::Detent {
            gesture_id: 2,
            direction: Direction::Ccw
        }
    );
}

#[test]
fn reversal_within_a_gesture_does_not_split_the_gesture() {
    let mut g = RotaryGesture::new(GESTURE_END_MS);
    g.on_detent(Direction::Cw, 1_000);
    let (started, detent) = g.on_detent(Direction::Ccw, 1_100);
    assert_eq!(started, None, "reversal is not a new gesture");
    assert_eq!(
        detent,
        RotaryEvent::Detent {
            gesture_id: 1,
            direction: Direction::Ccw
        }
    );
}

#[test]
fn reset_closes_the_gesture_silently_and_restarts_numbering() {
    let mut g = RotaryGesture::new(GESTURE_END_MS);
    g.on_detent(Direction::Cw, 1_000);
    g.reset();
    assert_eq!(g.poll(5_000), None, "a reset gesture emits no GestureEnded");

    let (started, _) = g.on_detent(Direction::Cw, 6_000);
    assert_eq!(started, Some(RotaryEvent::GestureStarted { gesture_id: 1 }));
}


use kivori::model::InputLevels;
use kivori::ports::{Clock, InputSource, Transport};
use kivori::sim::{drive_rotary, ScriptedInput, SeenInput, SimPipe, VirtualClock};

fn lv(a: bool, b: bool) -> InputLevels {
    InputLevels { a, b, sw: false }
}

#[test]
fn scripted_input_source_replays_levels_then_holds_the_last() {
    let mut src = ScriptedInput::new(vec![lv(false, false), lv(false, true)]);
    assert_eq!(src.sample(), lv(false, false));
    assert_eq!(src.sample(), lv(false, true));
    assert_eq!(src.sample(), lv(false, true));
}

#[test]
fn a_full_cw_cycle_through_the_port_produces_started_detent_ended() {
    let levels = vec![
        lv(false, false),
        lv(false, true),
        lv(true, true),
        lv(true, false),
        lv(false, false),
    ];
    assert_eq!(
        drive_rotary(levels),
        vec![
            SeenInput::GestureStarted { gesture_id: 1 },
            SeenInput::Detent { gesture_id: 1, direction: Direction::Cw },
            SeenInput::GestureEnded { gesture_id: 1 },
        ]
    );
}

#[test]
fn a_reversal_stays_in_one_gesture_and_reports_both_directions() {
    let mut levels = vec![
        lv(false, false),
        lv(false, true),
        lv(true, true),
        lv(true, false),
        lv(false, false),
    ];
    levels.extend_from_slice(&[lv(true, false), lv(true, true), lv(false, true), lv(false, false)]);
    assert_eq!(
        drive_rotary(levels),
        vec![
            SeenInput::GestureStarted { gesture_id: 1 },
            SeenInput::Detent { gesture_id: 1, direction: Direction::Cw },
            SeenInput::Detent { gesture_id: 1, direction: Direction::Ccw },
            SeenInput::GestureEnded { gesture_id: 1 },
        ]
    );
}

#[test]
fn partial_motion_produces_no_events() {
    assert!(drive_rotary(vec![lv(false, false), lv(false, true), lv(false, false)]).is_empty());
}

#[test]
fn the_sim_pipe_carries_bytes_both_ways() {
    let mut pipe = SimPipe::new();
    assert!(pipe.host_send(&[1, 2, 3]).is_ok());
    let mut buf = [0u8; 2];
    assert_eq!(pipe.read(&mut buf), Ok(2));
    assert_eq!(buf, [1, 2]);
    assert_eq!(pipe.read(&mut buf), Ok(1));
    assert_eq!(buf[0], 3);
    assert_eq!(pipe.read(&mut buf), Ok(0));
    assert!(!pipe.host_has_output());
    assert_eq!(pipe.write(&[9, 8]), Ok(2));
    assert!(pipe.host_has_output());
    assert_eq!(pipe.host_recv(), vec![9, 8]);
    assert!(pipe.host_recv().is_empty());
}

#[test]
fn the_sim_pipe_refuses_what_does_not_fit() {
    let mut pipe = SimPipe::new();
    assert!(pipe.host_send(&vec![0u8; kivori::sim::PIPE_CAPACITY + 1]).is_err());
    assert!(pipe.host_send(&vec![0u8; kivori::sim::PIPE_CAPACITY]).is_ok());
    assert!(pipe.host_send(&[1]).is_err());
    assert_eq!(pipe.write(&vec![7u8; kivori::sim::PIPE_CAPACITY + 5]), Ok(kivori::sim::PIPE_CAPACITY));
    assert_eq!(pipe.write(&[1]), Ok(0));
}

use kivori::model::{Rect, Rgb565};
use kivori::ports::DisplaySink;
use kivori::sim::CaptureDisplay;

#[test]
fn the_capture_display_composites_tiles_into_the_frame() {
    let mut display = CaptureDisplay::new();
    assert_eq!(display.pixel(5, 5), Rgb565::from_raw(0));
    let tile: Vec<Rgb565> = (0..6).map(Rgb565::from_raw).collect();
    assert_eq!(display.blit_tile(Rect::new(4, 5, 3, 2), &tile), Ok(()));
    assert_eq!(display.pixel(4, 5).raw(), 0);
    assert_eq!(display.pixel(6, 5).raw(), 2);
    assert_eq!(display.pixel(5, 6).raw(), 4);
    assert_eq!(display.pixel(7, 5).raw(), 0, "outside the tile is untouched");
    assert_eq!(display.blits(), 1);
    assert_eq!(display.frame().len(), 240 * 240);
}

#[test]
fn pixels_falling_off_the_panel_are_dropped() {
    let mut display = CaptureDisplay::new();
    let tile = vec![Rgb565::from_raw(0xFFFF); 4];
    display.blit_tile(Rect::new(239, 239, 2, 2), &tile).unwrap();
    assert_eq!(display.pixel(239, 239).raw(), 0xFFFF);
    assert_eq!(display.frame().iter().filter(|p| p.raw() == 0xFFFF).count(), 1);
}

#[test]
fn the_virtual_clock_is_settable_and_saturates() {
    let mut clock = VirtualClock::new();
    assert_eq!(clock.now_ms(), 0);
    clock.set(100);
    clock.advance(5);
    assert_eq!(clock.now_ms(), 105);
    clock.set(u32::MAX - 1);
    clock.advance(10);
    assert_eq!(clock.now_ms(), u32::MAX);
}

#[test]
fn the_dispatcher_records_the_accepted_session_nonce() {
    let d: Dispatcher<u8> = handshaken_dispatcher(0x1234_5678);
    assert_eq!(d.accepted_session(), Some(0x1234_5678));
}

#[test]
fn a_handshaken_dispatcher_emits_input_for_its_session() {
    let d: Dispatcher<u8> = handshaken_dispatcher(0x1111_2222);
    assert_eq!(d.hello_acks(), 1);
    assert_eq!(
        d.negotiated_caps(),
        Capabilities::physical_input_v1().union(Capabilities::presentation_v1())
    );
    assert_eq!(
        d.input_event(7, InputKind::Detent(Direction::Cw), 42),
        Some(InputEvent {
            session: 0x1111_2222,
            gesture_id: 7,
            control: ControlId::Rotary,
            kind: InputKind::Detent(Direction::Cw),
            device_ms: 42,
        })
    );
}
