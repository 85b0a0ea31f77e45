//! Pixel encoding for rasterized artwork: 8-bit RGB pixels to canonical RGB565, little-endian.
//!
//! Rendering an SVG happens outside this library (it is floating-point work); what comes out of
//! the renderer, demultiplied to 8-bit RGB, is encoded here.

use crate::model::{rgb565_of, Rgb565};
use vstd::prelude::*;

verus! {

/// Error rasterizing an SVG.
#[derive(Debug, Clone, Copy, PartialEq, Eq)]
pub enum RasterError {
    /// The SVG failed to parse.
    Parse,
    /// The target pixmap could not be allocated (zero or too-large dimensions).
    Alloc,
}

/// The two little-endian bytes of an RGB565 value.
pub open spec fn le_bytes(v: u16) -> Seq<u8> {
    seq![(v % 256) as u8, (v / 256) as u8]
}

/// The RGB565 little-endian encoding of row-major RGB pixels (three bytes each), two bytes per
/// pixel.
pub open spec fn rgb565_le_spec(rgb: Seq<u8>) -> Seq<u8>
    decreases rgb.len(),
{
    if rgb.len() < 3 {
        Seq::empty()
    } else {
        let n = rgb.len() - 3;
        rgb565_le_spec(rgb.take(n)) + le_bytes(rgb565_of(rgb[n], rgb[n + 1], rgb[n + 2]))
    }
}

/// Encodes row-major 8-bit RGB pixels (`r, g, b` per pixel) as RGB565, two little-endian bytes
/// per pixel.
pub fn rgb888_to_rgb565_le(rgb: &[u8]) -> (out: Vec<u8>)
    requires
        rgb@.len() % 3 == 0,
    ensures
        out@ == rgb565_le_spec(rgb@),
        out@.len() == rgb@.len() / 3 * 2,
{
    let total = rgb.len();
    let pixels = total / 3;
    assert(rgb@.len() == 3 * pixels);
    let mut out: Vec<u8> = Vec::new();
    let mut i: usize = 0;
    while i < pixels
        invariant
            total == rgb@.len(),
            total == 3 * pixels,
            i <= pixels,
            out@ == rgb565_le_spec(rgb@.take(3 * i)),
            out@.len() == 2 * i,
        decreases pixels - i,
    {
        let base = 3 * i;
        let c = Rgb565::from_rgb888(rgb[base], rgb[base + 1], rgb[base + 2]);
        let v = c.raw();
        out.push((v % 256) as u8);
        out.push((v / 256) as u8);
        proof {
            let next = rgb@.take(3 * i + 3);
            assert(next.take(3 * i) =~= rgb@.take(3 * i));
            assert(next[3 * i] == rgb@[3 * i]);
            assert(next[3 * i + 1] == rgb@[3 * i + 1]);
            assert(next[3 * i + 2] == rgb@[3 * i + 2]);
            assert(out@ =~= rgb565_le_spec(next));
        }
        i = i + 1;
    }
    proof {
        assert(rgb@.take(3 * i) =~= rgb@);
    }
    out
}

} // verus!
