//! Verified logic of the Kivori desktop companion: rotary input decoding, the device lifecycle
//! and protocol decisions, the link's byte buffering, change-driven tile output, the latency
//! readout, safe diagnostics, panel geometry, SPI probe accounting, asset blob assembly, Wokwi
//! VCD capture analysis and the Wokwi scenario tooling.

pub mod model;
pub mod text;
pub mod buffers;
pub mod ports;
pub mod input;
pub mod device;
pub mod transport;
pub mod framebuffer;
pub mod render;
pub mod display;
pub mod latency_probe;
pub mod raster;
pub mod clock;
pub mod bsp;
pub mod profile;
pub mod spi_probe;
pub mod sim;
pub mod blob;
pub mod vcd;
pub mod scenario;
