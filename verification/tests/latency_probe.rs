use kivori::framebuffer::TileBand;
use kivori::latency_probe::{draw, LatencyProbe, Readout, BOX_X, BOX_Y, EXPIRE_MS, MAX_SHOWN};
use kivori::model::{Rect, Rgb565};

#[test]
fn a_presentation_applied_before_the_detent_does_not_count() {
    let mut probe = LatencyProbe::new();
    probe.on_presentation(10);
    probe.on_detent(20);
    assert_eq!(probe.on_frame_flushed(30), None);
    probe.on_presentation(40);
    assert_eq!(probe.on_frame_flushed(55), Some(35));
    probe.on_detent(100);
    probe.on_presentation(200);
    assert_eq!(
        probe.on_frame_flushed(5_000),
        Some(999),
        "clamped to 3 digits"
    );
}

#[test]
fn a_fresh_probe_shows_nothing() {
    let probe = LatencyProbe::new();
    assert_eq!(probe.readout(), Readout { last: None, max: None });
}

#[test]
fn an_unanswered_detent_expires_after_the_window() {
    let mut probe = LatencyProbe::new();
    probe.on_detent(0);
    probe.on_presentation(EXPIRE_MS);
    assert_eq!(probe.on_frame_flushed(EXPIRE_MS + 5), None);
    assert_eq!(probe.readout(), Readout { last: None, max: None });
}

#[test]
fn an_answer_just_inside_the_window_still_counts() {
    let mut probe = LatencyProbe::new();
    probe.on_detent(0);
    probe.on_presentation(EXPIRE_MS - 1);
    assert_eq!(probe.on_frame_flushed(EXPIRE_MS + 10), Some(999));
}

#[test]
fn the_maximum_keeps_the_larger_reading() {
    let mut probe = LatencyProbe::new();
    probe.on_detent(0);
    probe.on_presentation(10);
    assert_eq!(probe.on_frame_flushed(80), Some(80));
    probe.on_detent(100);
    probe.on_presentation(110);
    assert_eq!(probe.on_frame_flushed(130), Some(30));
    assert_eq!(probe.readout(), Readout { last: Some(30), max: Some(80) });
    assert!(probe.readout().max.unwrap() <= MAX_SHOWN);
}

#[test]
fn later_detents_in_a_burst_keep_the_oldest_start() {
    let mut probe = LatencyProbe::new();
    probe.on_detent(10);
    probe.on_detent(20);
    probe.on_presentation(30);
    assert_eq!(probe.on_frame_flushed(50), Some(40));
}

#[test]
fn the_reading_is_wrap_safe_across_a_clock_rollover() {
    let mut probe = LatencyProbe::new();
    probe.on_detent(u32::MAX - 4);
    probe.on_presentation(2);
    assert_eq!(probe.on_frame_flushed(5), Some(10));
}

const GREY: Rgb565 = Rgb565(0x8410);
const WHITE: Rgb565 = Rgb565(0xFFFF);
const BLACK: Rgb565 = Rgb565(0);

fn band(y: u16) -> TileBand {
    TileBand::new(Rect::new(0, y, 240, 40), vec![GREY; 240 * 40]).unwrap()
}

fn at(band: &TileBand, x: usize, y: usize) -> Rgb565 {
    let r = band.rect();
    band.pixels()[(y - r.y as usize) * 240 + x]
}

fn shown(last: u16, max: u16) -> Readout {
    Readout { last: Some(last), max: Some(max) }
}

#[test]
fn nothing_is_drawn_before_the_first_measurement() {
    let mut b = band(0);
    draw(&mut b, Readout::default());
    assert!(b.pixels().iter().all(|&p| p == GREY));
}

#[test]
fn the_l_label_left_stroke_is_white_on_a_black_box() {
    let mut b = band(0);
    draw(&mut b, shown(42, 42));
    assert_eq!(at(&b, usize::from(BOX_X) + 2, usize::from(BOX_Y) + 4), WHITE);
    assert_eq!(at(&b, usize::from(BOX_X), usize::from(BOX_Y)), BLACK);
    assert_eq!(at(&b, 53, 39), BLACK);
    assert_eq!(at(&b, 54, 10), GREY);
    assert_eq!(at(&b, 3, 10), GREY);
    assert_eq!(at(&b, 100, 20), GREY);
}

#[test]
fn digits_have_leading_blanks_and_clamp_to_three_places() {
    let mut b = band(0);
    draw(&mut b, shown(5, 123));
    // Row 0, hundreds and tens blank: their top segments stay black.
    assert_eq!(at(&b, 20, 6), BLACK);
    assert_eq!(at(&b, 32, 6), BLACK);
    // Row 0 units: `5` lights segment a.
    assert_eq!(at(&b, 44, 6), WHITE);
    // Row 1 (`H123`): `1` lights b but not a.
    assert_eq!(at(&b, 26, 28), WHITE);
    assert_eq!(at(&b, 20, 26), BLACK);
    let mut c = band(0);
    draw(&mut c, shown(5000, 5000));
    // 999: the hundreds `9` lights a and f but not e.
    assert_eq!(at(&c, 20, 6), WHITE);
    assert_eq!(at(&c, 18, 8), WHITE);
    assert_eq!(at(&c, 18, 16), BLACK);
    assert_eq!(MAX_SHOWN, 999);
}

#[test]
fn a_band_below_the_box_is_untouched_and_split_bands_agree() {
    let mut below = band(80);
    draw(&mut below, shown(7, 9));
    assert!(below.pixels().iter().all(|&p| p == GREY));
    let mut top = band(0);
    let mut second = band(40);
    draw(&mut top, shown(7, 9));
    draw(&mut second, shown(7, 9));
    let mut whole = TileBand::new(Rect::new(0, 0, 240, 80), vec![GREY; 240 * 80]).unwrap();
    draw(&mut whole, shown(7, 9));
    let mut joined = top.into_pixels();
    joined.extend(second.into_pixels());
    assert_eq!(joined, whole.into_pixels());
}

#[test]
fn a_band_needs_one_pixel_per_position() {
    assert!(TileBand::new(Rect::new(0, 0, 4, 4), vec![GREY; 15]).is_none());
    let mut b = TileBand::new(Rect::new(10, 10, 4, 4), vec![GREY; 16]).unwrap();
    b.set(9, 10, WHITE);
    b.set(14, 10, WHITE);
    assert!(b.pixels().iter().all(|&p| p == GREY));
    b.set(13, 11, WHITE);
    assert_eq!(b.pixels()[7], WHITE);
}
