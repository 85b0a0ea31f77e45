use kivori::bsp::{clock, DISPLAY_SPI_HZ};
use kivori::clock::{millis_from_micros, EspClock};
use kivori::display::{tile_window, DisplayError, PanelGeometry};
use kivori::model::{DeviceProfile, Rect, Rgb565};
use kivori::profile::physical_st7789::{self, rotary, BL, DC, MOSI, RST, SCK};
use kivori::profile::wokwi::{self, WokwiSpiPins};
use kivori::render::{tile_rect, RenderError, TileCache, TILE_COUNT, TILE_PIXELS};
use kivori::ports::DisplaySink;
use kivori::sim::CaptureDisplay;
use kivori::spi_probe::{
    blit_frame, check, fill_checkerboard, fill_solid, BusCounters, CountingSink, FramePattern,
    PinRole, TileTally, FRAME_COMMAND_BYTES, FRAME_DATA_BYTES, TILE_DATA_BYTES,
};

fn full_panel() -> PanelGeometry {
    PanelGeometry::new(240, 240, 0, 0)
}

#[test]
fn a_tile_window_is_inclusive_of_its_last_row_and_column() {
    let w = tile_window::<()>(full_panel(), Rect::new(0, 40, 240, 40), 9600).ok().unwrap();
    assert_eq!((w.x, w.y, w.end_x, w.end_y), (0, 40, 239, 79));
}

#[test]
fn a_wrong_pixel_count_is_rejected_before_the_bus_is_touched() {
    let r = tile_window::<()>(full_panel(), Rect::new(0, 0, 240, 40), 9599);
    assert!(matches!(r, Err(DisplayError::PixelCountMismatch)));
}

#[test]
fn out_of_bounds_and_empty_tiles_are_rejected() {
    for rect in [Rect::new(0, 220, 240, 40), Rect::new(1, 0, 240, 1), Rect::new(0, 0, 0, 40)] {
        let r = tile_window::<()>(full_panel(), rect, rect.area() as usize);
        assert!(matches!(r, Err(DisplayError::TileOutOfBounds)));
    }
}

#[test]
fn geometry_takes_the_resolution_from_the_profile_and_the_offset_from_the_caller() {
    let g = PanelGeometry::from_profile(&DeviceProfile { width: 240, height: 240 }, 0, 80);
    assert_eq!(g, PanelGeometry { width: 240, height: 240, offset_x: 0, offset_y: 80 });
    assert_eq!(wokwi::geometry(), full_panel());
    assert_eq!(physical_st7789::geometry(), full_panel());
}

#[test]
fn the_rotary_profile_does_not_collide_with_the_display_profile() {
    let display_pins = [SCK, MOSI, DC, RST, BL];
    let r = rotary();
    for pin in [r.clk, r.dt, r.sw] {
        assert!(!display_pins.contains(&pin), "rotary pin {pin} collides with the display profile");
        assert!(pin != 18 && pin != 19, "rotary pin {pin} collides with native USB");
    }
    assert_ne!(r.clk, r.dt);
    assert_ne!(r.clk, r.sw);
    assert_ne!(r.dt, r.sw);
}

#[test]
fn the_simulation_pins_match_the_diagram() {
    assert_eq!(
        [WokwiSpiPins::SCK, WokwiSpiPins::MOSI, WokwiSpiPins::CS, WokwiSpiPins::DC, WokwiSpiPins::RST],
        [4, 5, 6, 7, 10]
    );
    assert_eq!(physical_st7789::CS, None);
    assert_eq!(DISPLAY_SPI_HZ, 20_000_000);
}

#[test]
fn a_full_frame_is_six_tiles_of_9600_pixels() {
    assert_eq!(TILE_COUNT, 6);
    assert_eq!(TILE_PIXELS, 9600);
    let rows: Vec<u16> = (0..TILE_COUNT).map(|t| tile_rect(t).y).collect();
    assert_eq!(rows, vec![0, 40, 80, 120, 160, 200]);
    assert!((0..TILE_COUNT).all(|t| tile_rect(t).x == 0 && tile_rect(t).w == 240));
    assert_eq!(TILE_DATA_BYTES, 19208);
    assert_eq!(FRAME_DATA_BYTES, 6 * TILE_DATA_BYTES);
    assert_eq!(FRAME_COMMAND_BYTES, 18);
}

#[test]
fn an_unchanged_frame_retransmits_nothing_and_a_changed_one_does() {
    let mut cache = TileCache::new();
    assert_eq!(cache.len(), TILE_COUNT);
    let sigs = [1u64, 2, 3, 4, 5, 6];
    assert_eq!(cache.changed(&sigs), vec![0, 1, 2, 3, 4, 5]);
    for (t, s) in sigs.iter().enumerate() {
        assert!(cache.needs_flush(t, *s));
        cache.record(t, *s);
    }
    assert!(cache.changed(&sigs).is_empty());
    assert_eq!(cache.changed(&[1, 2, 9, 4, 5, 7]), vec![2, 5]);
    cache.invalidate();
    assert_eq!(cache.changed(&sigs).len(), TILE_COUNT);
    let _: RenderError<()> = RenderError::MissingScene;
}

#[test]
fn bus_counters_attribute_bytes_to_the_dc_phase() {
    let mut c = BusCounters::new();
    c.note_transaction(1);
    c.note_level(PinRole::Dc, true);
    c.note_level(PinRole::Dc, true);
    c.note_transaction(4);
    assert_eq!(c.command_bytes(), 1);
    assert_eq!(c.data_bytes(), 4);
    assert_eq!(c.transactions(), 2);
    assert_eq!(c.transitions(PinRole::Dc), 1, "a repeated level is not a transition");
    assert!(!c.init_ok());
    c.note_level(PinRole::Reset, false);
    c.note_level(PinRole::Reset, true);
    c.note_level(PinRole::Cs, false);
    c.note_level(PinRole::Cs, true);
    c.note_level(PinRole::Dc, false);
    assert!(c.init_ok());
}

#[test]
fn every_transaction_and_byte_is_counted_once_across_pin_changes() {
    let mut c = BusCounters::new();
    c.note_level(PinRole::Cs, false);
    c.note_transaction(3);
    c.note_level(PinRole::Dc, true);
    c.note_transaction(10);
    c.note_level(PinRole::Dc, false);
    c.note_level(PinRole::Reset, true);
    c.note_transaction(7);
    c.note_level(PinRole::Dc, true);
    c.note_transaction(5);
    assert_eq!(c.transactions(), 4);
    assert_eq!(c.command_bytes() + c.data_bytes(), 25);
    assert_eq!(c.command_bytes(), 10);
    assert_eq!(c.data_bytes(), 15);
}

#[test]
fn the_tally_checks_tile_positions_and_volume() {
    let mut t = TileTally::new();
    for tile in 0..TILE_COUNT {
        t.on_blit(tile_rect(tile), TILE_PIXELS);
    }
    assert!(t.frame_ok());
    t.reset();
    t.on_blit(tile_rect(1), TILE_PIXELS);
    assert!(!t.frame_ok());
    assert_eq!(t.blits(), 1);
}

#[test]
fn solid_and_checkerboard_fills() {
    let mut buf = vec![Rgb565::from_raw(0); TILE_PIXELS];
    fill_solid(&mut buf, 0xF800);
    assert!(buf.iter().all(|p| p.raw() == 0xF800));
    fill_checkerboard(&mut buf, 0, 40);
    assert_eq!(buf[0].raw(), 0x0000, "(0, 40): squares 0 + 5 is odd");
    assert_eq!(buf[8].raw(), 0xFFFF, "(8, 40): squares 1 + 5 is even");
    assert_eq!(buf[240 * 8].raw(), 0xFFFF, "(0, 48): squares 0 + 6 is even");
}

#[test]
fn a_failed_stage_fails_the_whole_probe() {
    let mut pass = true;
    assert_eq!(check(&mut pass, true, "bus-init"), "PASS bus-init");
    assert!(pass);
    assert_eq!(check(&mut pass, false, "tile-count-6"), "FAIL tile-count-6");
    assert_eq!(check(&mut pass, true, "tile-bytes"), "PASS tile-bytes");
    assert!(!pass);
}

#[test]
fn the_clock_converts_microseconds_and_saturates() {
    assert_eq!(millis_from_micros(1_999), 1);
    assert_eq!(millis_from_micros(5_000_000), 5_000);
    assert_eq!(millis_from_micros(u64::MAX), u32::MAX);
    let _: EspClock = clock();
    let _ = EspClock::new();
}

struct FailsAt {
    calls: u32,
    fail_at: u32,
}

impl DisplaySink for FailsAt {
    type Error = u32;

    fn blit_tile(&mut self, _rect: Rect, _pixels: &[Rgb565]) -> Result<(), u32> {
        self.calls += 1;
        if self.calls == self.fail_at {
            Err(self.calls)
        } else {
            Ok(())
        }
    }
}

#[test]
fn a_solid_frame_is_six_correctly_placed_tiles() {
    let mut sink = CountingSink::new(CaptureDisplay::new());
    let mut buf = vec![Rgb565(0); TILE_PIXELS];
    assert!(blit_frame(&mut sink, &mut buf, FramePattern::Solid(0xF800)));
    assert_eq!(sink.blits(), 6);
    assert!(sink.frame_ok());
    let display = sink.into_inner();
    assert!(display.frame().iter().all(|&p| p == Rgb565(0xF800)));
    assert_eq!(display.blits(), 6);
}

#[test]
fn the_checkerboard_frame_follows_panel_coordinates() {
    let mut sink = CountingSink::new(CaptureDisplay::new());
    let mut buf = vec![Rgb565(0); TILE_PIXELS];
    assert!(blit_frame(&mut sink, &mut buf, FramePattern::Checkerboard));
    let display = sink.into_inner();
    assert_eq!(display.pixel(0, 0), Rgb565(0xFFFF));
    assert_eq!(display.pixel(8, 0), Rgb565(0x0000));
    assert_eq!(display.pixel(8, 8), Rgb565(0xFFFF));
    assert_eq!(display.pixel(7, 47), Rgb565(0x0000));
    assert_eq!(display.pixel(239, 239), Rgb565(0xFFFF));
}

#[test]
fn a_failed_blit_ends_the_frame_and_fails_the_stage() {
    let mut sink = CountingSink::new(FailsAt { calls: 0, fail_at: 3 });
    let mut buf = vec![Rgb565(0); TILE_PIXELS];
    assert!(!blit_frame(&mut sink, &mut buf, FramePattern::Solid(0x001F)));
    assert_eq!(sink.blits(), 3);
    assert_eq!(sink.inner().calls, 3);
    // The next frame starts from a clean tally.
    sink.reset();
    assert_eq!(sink.blits(), 0);
}

#[test]
fn a_misplaced_tile_spoils_the_tally() {
    let mut sink = CountingSink::new(CaptureDisplay::new());
    let pixels = vec![Rgb565(0); TILE_PIXELS];
    for tile in [0usize, 2, 1, 3, 4, 5] {
        sink.blit_tile(tile_rect(tile), &pixels).unwrap();
    }
    assert_eq!(sink.blits(), 6);
    assert!(!sink.frame_ok());
}
