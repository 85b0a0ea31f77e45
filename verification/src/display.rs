//! Panel geometry and the checks a windowed tile write needs before it touches the bus.
//!
//! A panel write takes an address window and exactly `w * h` RGB565 pixels, with no bounds
//! checking of its own: handed the wrong pixel count it wraps around. So a tile is checked
//! first: it must be non-empty, lie inside the visible panel, and come with exactly one pixel
//! per position. Panel offsets are a panel fact, not a code default: [`PanelGeometry`] takes
//! them explicitly and has no `Default`.

use crate::model::{DeviceProfile, Rect};
use vstd::prelude::*;

verus! {

/// The visible panel window inside the controller's framebuffer.
#[derive(Debug, Clone, Copy, PartialEq, Eq, Structural)]
pub struct PanelGeometry {
    /// Visible width in pixels.
    pub width: u16,
    /// Visible height in pixels.
    pub height: u16,
    /// Visible-area x origin inside the controller framebuffer.
    pub offset_x: u16,
    /// Visible-area y origin inside the controller framebuffer.
    pub offset_y: u16,
}

impl PanelGeometry {
    /// Geometry from an explicit size and controller-frame offset.
    pub fn new(width: u16, height: u16, offset_x: u16, offset_y: u16) -> (g: Self)
        ensures
            g == (PanelGeometry { width, height, offset_x, offset_y }),
    {
        PanelGeometry { width, height, offset_x, offset_y }
    }

    /// Geometry taking the resolution from `profile` and the offset from the caller. The
    /// profile carries resolution; the offset is a panel measurement, not a rendering parameter.
    pub fn from_profile(profile: &DeviceProfile, offset_x: u16, offset_y: u16) -> (g: Self)
        ensures
            g == (PanelGeometry {
                width: profile.width,
                height: profile.height,
                offset_x,
                offset_y,
            }),
    {
        Self::new(profile.width, profile.height, offset_x, offset_y)
    }
}

/// Why a tile could not be blitted.
#[derive(Debug, Clone, Copy, PartialEq, Eq)]
pub enum DisplayError<E> {
    /// The tile rectangle is empty, or extends past the visible panel area.
    TileOutOfBounds,
    /// The pixel count did not equal `rect.w * rect.h`, so the window would under- or over-run.
    PixelCountMismatch,
    /// The display interface (SPI write or D/C toggle) failed.
    Interface(E),
}

/// Whether `rect` is non-empty and inside the visible panel.
pub open spec fn tile_fits(g: PanelGeometry, rect: Rect) -> bool {
    rect.w > 0 && rect.h > 0 && rect.x + rect.w <= g.width && rect.y + rect.h <= g.height
}

/// The inclusive address window of a tile that passed the checks.
pub struct Window {
    /// First column.
    pub x: u16,
    /// First row.
    pub y: u16,
    /// Last column, inclusive.
    pub end_x: u16,
    /// Last row, inclusive.
    pub end_y: u16,
}

/// Checks a tile of `pixel_count` pixels for `rect` against the panel, before any bus traffic,
/// and gives the inclusive window to write.
pub fn tile_window<E>(g: PanelGeometry, rect: Rect, pixel_count: usize) -> (r: Result<
    Window,
    DisplayError<E>,
>)
    ensures
        !tile_fits(g, rect) ==> r is Err && r->Err_0 is TileOutOfBounds,
        tile_fits(g, rect) && pixel_count != rect.w * rect.h ==> r is Err
            && r->Err_0 is PixelCountMismatch,
        tile_fits(g, rect) && pixel_count == rect.w * rect.h ==> r is Ok && r->Ok_0 == (Window {
            x: rect.x,
            y: rect.y,
            end_x: (rect.x + rect.w - 1) as u16,
            end_y: (rect.y + rect.h - 1) as u16,
        }),
{
    if rect.is_empty() || rect.right() > g.width as u32 || rect.bottom() > g.height as u32 {
        return Err(DisplayError::TileOutOfBounds);
    }
    if pixel_count as u64 != rect.area() as u64 {
        return Err(DisplayError::PixelCountMismatch);
    }
    Ok(Window { x: rect.x, y: rect.y, end_x: rect.x + rect.w - 1, end_y: rect.y + rect.h - 1 })
}

} // verus!
