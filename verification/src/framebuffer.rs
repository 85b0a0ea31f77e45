//! A horizontal band of the frame, as the renderer and overlays draw into it.
//!
//! A band covers a rectangle of the panel and holds its pixels row-major. Drawing addresses
//! pixels by frame-absolute coordinates; a write outside the band is ignored, so a shape can be
//! drawn across band boundaries one band at a time.

use crate::model::{Rect, Rgb565};
use vstd::prelude::*;

verus! {

/// Whether frame pixel `(x, y)` lies inside `r`.
pub open spec fn covers(r: Rect, x: int, y: int) -> bool {
    r.x <= x < r.x + r.w && r.y <= y < r.y + r.h
}

/// Position in a band's row-major pixels of frame pixel `(x, y)`.
pub open spec fn band_index(r: Rect, x: int, y: int) -> int {
    (y - r.y) * r.w + (x - r.x)
}

/// Frame column of the band's `k`-th pixel.
pub open spec fn band_x(r: Rect, k: int) -> int {
    r.x + k % (r.w as int)
}

/// Frame row of the band's `k`-th pixel.
pub open spec fn band_y(r: Rect, k: int) -> int {
    r.y + k / (r.w as int)
}

/// Pixels of a band: `r.w * r.h` of them, row-major.
pub struct TileBand {
    rect: Rect,
    pixels: Vec<Rgb565>,
}

impl TileBand {
    /// The covered rectangle.
    pub closed spec fn rect_spec(&self) -> Rect {
        self.rect
    }

    /// The pixels, row-major.
    pub closed spec fn view(&self) -> Seq<Rgb565> {
        self.pixels@
    }

    /// There is exactly one pixel per covered position.
    pub open spec fn wf(&self) -> bool {
        self@.len() == self.rect_spec().w * self.rect_spec().h
    }

    /// A band over `rect` holding `pixels`; `None` unless there is exactly one pixel per
    /// position.
    pub fn new(rect: Rect, pixels: Vec<Rgb565>) -> (b: Option<Self>)
        ensures
            b is Some <==> pixels@.len() == rect.w * rect.h,
            b matches Some(band) ==> band.rect_spec() == rect && band@ == pixels@ && band.wf(),
    {
        if pixels.len() as u64 == rect.area() as u64 {
            Some(TileBand { rect, pixels })
        } else {
            None
        }
    }

    /// Number of pixels: one per covered position.
    pub fn len(&self) -> (n: usize)
        ensures
            n == self@.len(),
    {
        self.pixels.len()
    }

    /// The covered rectangle.
    pub fn rect(&self) -> (r: Rect)
        ensures
            r == self.rect_spec(),
    {
        self.rect
    }

    /// The pixels, row-major.
    pub fn pixels(&self) -> (p: &[Rgb565])
        ensures
            p@ == self@,
    {
        self.pixels.as_slice()
    }

    /// Gives the pixels back.
    pub fn into_pixels(self) -> (v: Vec<Rgb565>)
        ensures
            v@ == self@,
    {
        self.pixels
    }

    /// Sets frame pixel `(x, y)` to `color`; a position outside the band is ignored.
    pub fn set(&mut self, x: u16, y: u16, color: Rgb565)
        requires
            old(self).wf(),
        ensures
            final(self).wf(),
            final(self).rect_spec() == old(self).rect_spec(),
            covers(old(self).rect_spec(), x as int, y as int) ==> final(self)@ == old(self)@.update(
                band_index(old(self).rect_spec(), x as int, y as int),
                color,
            ),
            !covers(old(self).rect_spec(), x as int, y as int) ==> final(self)@ == old(self)@,
    {
        let r = self.rect;
        if x < r.x || y < r.y || x as u32 >= r.x as u32 + r.w as u32 || y as u32 >= r.y as u32
            + r.h as u32 {
            return ;
        }
        let lx: usize = (x - r.x) as usize;
        let ly: usize = (y - r.y) as usize;
        let w: usize = r.w as usize;
        let h: usize = r.h as usize;
        proof {
            lemma_local_index(lx as int, ly as int, w as int, h as int);
        }
        let i = ly * w + lx;
        self.pixels.set(i, color);
    }
}

/// A position inside a `w x h` band has an index inside it.
pub proof fn lemma_local_index(lx: int, ly: int, w: int, h: int)
    requires
        0 <= lx < w,
        0 <= ly < h,
        w <= 65535,
        h <= 65535,
    ensures
        0 <= ly * w + lx < w * h,
        w * h <= 65535 * 65535,
{
    assert(ly * w <= (h - 1) * w) by (nonlinear_arith)
        requires
            0 <= ly <= h - 1,
            0 <= w,
    ;
    assert((h - 1) * w + w == w * h) by (nonlinear_arith);
    assert(w * h <= 65535 * 65535) by (nonlinear_arith)
        requires
            0 <= w <= 65535,
            0 <= h <= 65535,
    ;
    assert(0 <= ly * w) by (nonlinear_arith)
        requires
            0 <= ly,
            0 <= w,
    ;
}

} // verus!
