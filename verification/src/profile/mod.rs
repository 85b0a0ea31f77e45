//! Board profiles: the one place concrete panel and pin-map facts are recorded.
//!
//! - [`wokwi`]: simulation-only wiring for the Wokwi test environment.
//! - [`physical_st7789`]: the ESP32-C3 + ST7789 240x240 hardware profile.
//!
//! Simulation values must never be treated as physical hardware evidence.

/// The simulation-only SPI wiring.
pub mod wokwi;
/// The physical ESP32-C3 + ST7789 240x240 profile.
pub mod physical_st7789;
