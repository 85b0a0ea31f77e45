//! Plain value types shared by the device logic: rotation direction, companion states, tile
//! rectangles, RGB565 colours and sampled input levels.

use vstd::prelude::*;

verus! {

/// Milliseconds of device uptime.
pub type ElapsedMs = u32;

/// Rotational direction of one validated detent.
#[derive(Debug, Clone, Copy, PartialEq, Eq, Structural)]
pub enum Direction {
    /// Clockwise.
    Cw,
    /// Counter-clockwise.
    Ccw,
}

/// The companion state the device displays.
#[derive(Debug, Clone, Copy, PartialEq, Eq, Structural)]
pub enum CompanionState {
    /// Power-on / self-test. Device-originated.
    Booting,
    /// Connected and idle.
    Idle,
    /// Connected and happy.
    Happy,
    /// Connected and busy.
    Busy,
    /// Connected and sleeping.
    Sleeping,
    /// No host session. Device-originated.
    Offline,
}

impl CompanionState {
    /// Whether only the device itself may enter this state (`booting`, `offline`).
    pub open spec fn device_originated(self) -> bool {
        self is Booting || self is Offline
    }

    /// Whether only the device itself may enter this state.
    pub fn is_device_originated(self) -> (b: bool)
        ensures
            b == self.device_originated(),
    {
        match self {
            CompanionState::Booting | CompanionState::Offline => true,
            _ => false,
        }
    }
}

/// A state the host may command. `booting` and `offline` are unrepresentable here.
#[derive(Debug, Clone, Copy, PartialEq, Eq, Structural)]
pub enum SendableState {
    /// Idle.
    Idle,
    /// Happy.
    Happy,
    /// Busy.
    Busy,
    /// Sleeping.
    Sleeping,
}

impl SendableState {
    /// Every sendable state.
    pub const ALL: [SendableState; 4] = [
        SendableState::Idle,
        SendableState::Happy,
        SendableState::Busy,
        SendableState::Sleeping,
    ];

    /// The companion state a sendable state denotes.
    pub open spec fn companion(self) -> CompanionState {
        match self {
            SendableState::Idle => CompanionState::Idle,
            SendableState::Happy => CompanionState::Happy,
            SendableState::Busy => CompanionState::Busy,
            SendableState::Sleeping => CompanionState::Sleeping,
        }
    }

    /// The companion state a sendable state denotes.
    pub fn to_companion(self) -> (c: CompanionState)
        ensures
            c == self.companion(),
            !c.device_originated(),
    {
        match self {
            SendableState::Idle => CompanionState::Idle,
            SendableState::Happy => CompanionState::Happy,
            SendableState::Busy => CompanionState::Busy,
            SendableState::Sleeping => CompanionState::Sleeping,
        }
    }
}

/// An axis-aligned pixel rectangle.
#[derive(Debug, Clone, Copy, PartialEq, Eq, Structural)]
pub struct Rect {
    /// Left edge.
    pub x: u16,
    /// Top edge.
    pub y: u16,
    /// Width.
    pub w: u16,
    /// Height.
    pub h: u16,
}

impl Rect {
    /// A rectangle at `(x, y)` of size `w x h`.
    pub fn new(x: u16, y: u16, w: u16, h: u16) -> (r: Self)
        ensures
            r == (Rect { x, y, w, h }),
    {
        Rect { x, y, w, h }
    }

    /// Whether the rectangle covers no pixel.
    pub fn is_empty(&self) -> (b: bool)
        ensures
            b == (self.w == 0 || self.h == 0),
    {
        self.w == 0 || self.h == 0
    }

    /// One past the right-most column.
    pub fn right(&self) -> (r: u32)
        ensures
            r == self.x + self.w,
    {
        self.x as u32 + self.w as u32
    }

    /// One past the bottom-most row.
    pub fn bottom(&self) -> (b: u32)
        ensures
            b == self.y + self.h,
    {
        self.y as u32 + self.h as u32
    }

    /// Number of pixels covered.
    pub fn area(&self) -> (a: u32)
        ensures
            a == self.w * self.h,
    {
        assert(self.w * self.h <= 65535 * 65535) by (nonlinear_arith)
            requires
                self.w <= 65535,
                self.h <= 65535,
        ;
        self.w as u32 * self.h as u32
    }
}

/// A 16-bit RGB565 colour (5 bits red, 6 green, 5 blue).
#[derive(Debug, Clone, Copy, PartialEq, Eq, Structural)]
pub struct Rgb565(pub u16);

/// The RGB565 encoding of an 8-bit-per-channel colour.
pub open spec fn rgb565_of(r: u8, g: u8, b: u8) -> u16 {
    (((r as u16) >> 3u16) << 11u16) | (((g as u16) >> 2u16) << 5u16) | ((b as u16) >> 3u16)
}

impl Rgb565 {
    /// A colour from its raw 16-bit encoding.
    pub fn from_raw(raw: u16) -> (c: Self)
        ensures
            c.0 == raw,
    {
        Rgb565(raw)
    }

    /// The raw 16-bit encoding.
    pub fn raw(&self) -> (r: u16)
        ensures
            r == self.0,
    {
        self.0
    }

    /// The nearest RGB565 colour to an 8-bit-per-channel colour (low bits dropped).
    pub fn from_rgb888(r: u8, g: u8, b: u8) -> (c: Self)
        ensures
            c.0 == rgb565_of(r, g, b),
    {
        Rgb565((((r as u16) >> 3u16) << 11u16) | (((g as u16) >> 2u16) << 5u16) | ((b as u16)
            >> 3u16))
    }
}

/// One sample of the rotary encoder's logical line levels (`true` = active).
#[derive(Debug, Clone, Copy, PartialEq, Eq, Structural)]
pub struct InputLevels {
    /// Quadrature channel A (CLK).
    pub a: bool,
    /// Quadrature channel B (DT).
    pub b: bool,
    /// Push switch.
    pub sw: bool,
}

/// The rendering-relevant facts of a device: its panel resolution.
#[derive(Debug, Clone, Copy, PartialEq, Eq, Structural)]
pub struct DeviceProfile {
    /// Panel width in pixels.
    pub width: u16,
    /// Panel height in pixels.
    pub height: u16,
}

} // verus!
