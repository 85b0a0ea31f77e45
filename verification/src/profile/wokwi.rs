//! The simulation-only profile of the Wokwi SPI diagram.
//!
//! The pins belong only to the Wokwi simulation: GPIO 18/19 carry USB Serial/JTAG, and 2, 8 and
//! 9 are strapping pins, so none of them is used.

use crate::display::PanelGeometry;
use vstd::prelude::*;

verus! {

/// Simulation-only SPI pin profile of the Wokwi diagram.
pub struct WokwiSpiPins;

impl WokwiSpiPins {
    /// SPI clock.
    pub const SCK: u8 = 4;
    /// SPI data out.
    pub const MOSI: u8 = 5;
    /// Chip select.
    pub const CS: u8 = 6;
    /// Data/command select.
    pub const DC: u8 = 7;
    /// Panel reset.
    pub const RST: u8 = 10;
}

/// Geometry of the simulated panel: the full 240x240 window at offset `(0, 0)`, correct for the
/// Wokwi part and for nothing else.
pub fn geometry() -> (g: PanelGeometry)
    ensures
        g == (PanelGeometry { width: 240, height: 240, offset_x: 0, offset_y: 0 }),
{
    PanelGeometry::new(240, 240, 0, 0)
}

/// The simulation pins are distinct and avoid the USB pair and the strapping pins.
pub proof fn law_simulation_pins_are_usable()
    ensures
        ({
            let pins = seq![
                WokwiSpiPins::SCK,
                WokwiSpiPins::MOSI,
                WokwiSpiPins::CS,
                WokwiSpiPins::DC,
                WokwiSpiPins::RST,
            ];
            &&& forall|i: int, j: int| 0 <= i < j < 5 ==> pins[i] != pins[j]
            &&& forall|i: int|
                0 <= i < 5 ==> pins[i] != 18 && pins[i] != 19 && pins[i] != 2 && pins[i] != 8
                    && pins[i] != 9
        }),
{
}

} // verus!
