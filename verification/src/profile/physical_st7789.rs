//! The ESP32-C3 + ST7789 240x240 hardware profile.
//!
//! The display pins were verified against a real board. The rotary encoder pin map is a
//! specification, not yet measured evidence: CLK = GPIO4, DT = GPIO5, SW = GPIO10. GPIO9 is
//! avoided for the switch because holding it low at reset enters ROM download mode, and the
//! switch is the recovery control. The encoder lines are wired active-low and read with internal
//! pull-ups.

use crate::display::PanelGeometry;
use vstd::prelude::*;

verus! {

/// SPI clock pin.
pub const SCK: u8 = 6;
/// SPI MOSI pin.
pub const MOSI: u8 = 7;
/// Display data/command pin.
pub const DC: u8 = 2;
/// Display reset pin.
pub const RST: u8 = 3;
/// Display backlight pin.
pub const BL: u8 = 8;
/// This physical panel does not use chip select.
pub const CS: Option<u8> = None;
/// Verified SPI clock.
pub const SPI_CLOCK_HZ: u32 = 20_000_000;
/// Visible panel width.
pub const WIDTH: u16 = 240;
/// Visible panel height.
pub const HEIGHT: u16 = 240;
/// Verified visible-area X offset.
pub const OFFSET_X: u16 = 0;
/// Verified visible-area Y offset.
pub const OFFSET_Y: u16 = 0;
/// Backlight is enabled by driving the pin high.
pub const BACKLIGHT_ACTIVE_HIGH: bool = true;

/// Verified physical display geometry.
pub fn geometry() -> (g: PanelGeometry)
    ensures
        g == (PanelGeometry {
            width: WIDTH,
            height: HEIGHT,
            offset_x: OFFSET_X,
            offset_y: OFFSET_Y,
        }),
{
    PanelGeometry::new(WIDTH, HEIGHT, OFFSET_X, OFFSET_Y)
}

/// HW-040 rotary encoder pin map.
#[derive(Debug, Clone, Copy, PartialEq, Eq, Structural)]
pub struct RotaryProfile {
    /// Quadrature channel A (CLK) pin.
    pub clk: u8,
    /// Quadrature channel B (DT) pin.
    pub dt: u8,
    /// Push-switch (SW) pin.
    pub sw: u8,
}

/// Quadrature channel A (CLK) pin of the encoder wiring.
pub const ROTARY_CLK: u8 = 4;
/// Quadrature channel B (DT) pin of the encoder wiring.
pub const ROTARY_DT: u8 = 5;
/// Push-switch (SW) pin of the encoder wiring.
pub const ROTARY_SW: u8 = 10;

/// The HW-040 wiring specification decided for this board.
pub fn rotary() -> (r: RotaryProfile)
    ensures
        r == (RotaryProfile { clk: ROTARY_CLK, dt: ROTARY_DT, sw: ROTARY_SW }),
{
    RotaryProfile { clk: ROTARY_CLK, dt: ROTARY_DT, sw: ROTARY_SW }
}

/// Whether `pin` is one of the display's pins.
pub open spec fn display_pin(pin: u8) -> bool {
    pin == SCK || pin == MOSI || pin == DC || pin == RST || pin == BL
}

/// The rotary pins are three distinct pins, none shared with the display, the native USB pair
/// (GPIO18/19) or the download-mode strapping pin (GPIO9).
pub proof fn law_rotary_pins_do_not_collide()
    ensures
        ({
            let r = RotaryProfile { clk: ROTARY_CLK, dt: ROTARY_DT, sw: ROTARY_SW };
            &&& r.clk != r.dt && r.clk != r.sw && r.dt != r.sw
            &&& !display_pin(r.clk) && !display_pin(r.dt) && !display_pin(r.sw)
            &&& r.clk != 18 && r.clk != 19 && r.dt != 18 && r.dt != 19 && r.sw != 18 && r.sw != 19
            &&& r.sw != 9
        }),
{
}

} // verus!
