# kivori

The device-side logic of Kivori, a physical desktop companion (an ESP32-C3 with a 240x240 SPI
panel and a rotary encoder, linked to the desktop over USB), written in Verus and proved against
its contracts.

## Layout

- `src/` — the verified library.
  - `input/` — quadrature decoding of the encoder and gesture forming.
  - `device/` — wire values, safe diagnostics, the lifecycle state machine, the protocol
    dispatcher's decisions, packet framing, presentation state, the production loop's
    scheduling, and the redacted observation markers of the simulation modes.
  - `transport.rs`, `buffers.rs` — the bounded outbound queue over a small hardware FIFO,
    and the fixed-capacity receive and pipe buffers.
  - `render.rs`, `framebuffer.rs`, `display.rs` — change-driven tile output, frame bands and
    panel geometry checks.
  - `latency_probe.rs` — the detent-to-panel latency measurement and its on-panel readout.
  - `spi_probe.rs`, `vcd.rs` — bus accounting of the SPI probe and analysis of its VCD capture.
  - `scenario.rs` — the Wokwi scenario and vector catalogue text.
  - `blob.rs`, `raster.rs` — asset blob bitmap tables, mascot scenes and pack assembly, blob
    framing, and RGB565 pixel encoding.
  - `sim.rs` — host simulation adapters (scripted input, in-memory pipe, capture display).
  - `ports.rs` — the hardware-neutral traits the core is written against.
- `tests/` — tests run against the compiled library with the real outside crates linked.
- `app/` — the command line (`vcd`, `rasterize`, `assets`) and the board adapters that plug `mipidsi`
  and `embedded-hal` devices into the library's ports.
