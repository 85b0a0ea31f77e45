//! Detent to on-panel feedback latency probe.
//!
//! One clock, the device's own millisecond clock, spans the whole loop: a detent leaves the
//! device at `t_detent`; the desktop answers with a presentation; the first frame composed after
//! that presentation was applied finishes its tile writes at `t_flush_done`. The readout shows
//! `t_flush_done - t_detent` (last) and the running maximum.
//!
//! Only the oldest unmatched detent is tracked: later detents in the same burst are not measured
//! separately, so each reading is the worst case for its burst.

use crate::framebuffer::{band_index, band_x, band_y, covers, lemma_local_index, TileBand};
use crate::input::gesture::elapsed;
use crate::model::Rgb565;
use vstd::arithmetic::div_mod::{
    lemma_div_pos_is_pos, lemma_fundamental_div_mod, lemma_fundamental_div_mod_converse,
    lemma_mod_bound, lemma_multiply_divide_lt,
};
use vstd::prelude::*;

verus! {

/// A detent with no applied presentation within this window is dropped.
pub const EXPIRE_MS: u32 = 1000;
/// Readings clamp to three digits.
pub const MAX_SHOWN: u16 = 999;

/// What the panel shows: last reading and running max, `None` until a first measurement.
#[derive(Debug, Default, Clone, Copy, PartialEq, Eq, Structural)]
pub struct Readout {
    /// Most recent latency, ms.
    pub last: Option<u16>,
    /// Largest latency seen since boot, ms.
    pub max: Option<u16>,
}

/// The probe's logical state.
pub struct ProbeState {
    /// When the pending detent was transmitted.
    pub detent_at: Option<u32>,
    /// Whether an answering presentation was applied for it.
    pub presented: bool,
    /// The values on the panel.
    pub readout: Readout,
}

/// The pending detent is dropped once its window elapsed without an answer.
pub open spec fn expire_spec(s: ProbeState, now: u32) -> ProbeState {
    match s.detent_at {
        Some(start) => if !s.presented && elapsed(start, now) >= EXPIRE_MS {
            ProbeState { detent_at: None, ..s }
        } else {
            s
        },
        None => s,
    }
}

/// A detent transmitted at `now`.
pub open spec fn detent_spec(s: ProbeState, now: u32) -> ProbeState {
    let e = expire_spec(s, now);
    if e.detent_at is None {
        ProbeState { detent_at: Some(now), ..e }
    } else {
        e
    }
}

/// A presentation with a new revision applied at `now`.
pub open spec fn presentation_spec(s: ProbeState, now: u32) -> ProbeState {
    let e = expire_spec(s, now);
    if e.detent_at is Some {
        ProbeState { presented: true, ..e }
    } else {
        e
    }
}

/// The reading for a detent at `start` whose answer finished flushing at `now`, clamped.
pub open spec fn reading(start: u32, now: u32) -> u16 {
    let ms = elapsed(start, now);
    if ms < MAX_SHOWN {
        ms as u16
    } else {
        MAX_SHOWN
    }
}

/// The larger of an optional maximum and a new reading.
pub open spec fn new_max(old: Option<u16>, ms: u16) -> u16 {
    match old {
        Some(m) => if m >= ms {
            m
        } else {
            ms
        },
        None => ms,
    }
}

/// A render pass finished writing every changed tile at `now`: the new state and the reading
/// completed, if any.
pub open spec fn flushed_spec(s: ProbeState, now: u32) -> (ProbeState, Option<u16>) {
    let e = expire_spec(s, now);
    if !e.presented {
        (e, None)
    } else {
        match e.detent_at {
            Some(start) => {
                let ms = reading(start, now);
                (
                    ProbeState {
                        detent_at: None,
                        presented: false,
                        readout: Readout { last: Some(ms), max: Some(new_max(e.readout.max, ms)) },
                    },
                    Some(ms),
                )
            },
            None => (e, None),
        }
    }
}

/// Pairs a detent with the first flushed frame that carries the desktop's answer to it.
#[derive(Debug, Default)]
pub struct LatencyProbe {
    detent_at: Option<u32>,
    presented: bool,
    readout: Readout,
}

impl LatencyProbe {
    /// An answer is only ever recorded for a pending detent.
    #[verifier::type_invariant]
    spec fn inv(self) -> bool {
        self.presented ==> self.detent_at is Some
    }

    /// The logical state.
    pub closed spec fn view(self) -> ProbeState {
        ProbeState { detent_at: self.detent_at, presented: self.presented, readout: self.readout }
    }

    /// No pending detent, no readings.
    pub fn new() -> (p: Self)
        ensures
            p.view() == (ProbeState {
                detent_at: None,
                presented: false,
                readout: Readout { last: None, max: None },
            }),
    {
        LatencyProbe { detent_at: None, presented: false, readout: Readout { last: None, max: None } }
    }

    /// A detent was actually transmitted at `now`.
    pub fn on_detent(&mut self, now: u32)
        ensures
            final(self).view() == detent_spec(old(self).view(), now),
    {
        self.expire(now);
        if self.detent_at.is_none() {
            self.detent_at = Some(now);
        }
    }

    /// A presentation with a new revision was applied at `now`. Only counts if a detent is
    /// already pending, so an answer to an earlier (dropped) detent cannot complete a later one.
    pub fn on_presentation(&mut self, now: u32)
        ensures
            final(self).view() == presentation_spec(old(self).view(), now),
    {
        self.expire(now);
        if self.detent_at.is_some() {
            self.presented = true;
        }
    }

    /// A render pass finished writing every changed tile at `now`. Returns the completed reading.
    pub fn on_frame_flushed(&mut self, now: u32) -> (r: Option<u16>)
        ensures
            (final(self).view(), r) == flushed_spec(old(self).view(), now),
    {
        self.expire(now);
        proof {
            use_type_invariant(&*self);
        }
        if !self.presented {
            return None;
        }
        let start = match self.detent_at {
            Some(start) => start,
            None => {
                return None;
            },
        };
        let elapsed_ms = now.wrapping_sub(start);
        let ms: u16 = if elapsed_ms < MAX_SHOWN as u32 {
            elapsed_ms as u16
        } else {
            MAX_SHOWN
        };
        let max = match self.readout.max {
            Some(m) => if m >= ms {
                m
            } else {
                ms
            },
            None => ms,
        };
        self.presented = false;
        self.detent_at = None;
        self.readout = Readout { last: Some(ms), max: Some(max) };
        Some(ms)
    }

    /// The values the panel should show.
    pub fn readout(&self) -> (r: Readout)
        ensures
            r == self.view().readout,
    {
        self.readout
    }

    fn expire(&mut self, now: u32)
        ensures
            final(self).view() == expire_spec(old(self).view(), now),
    {
        proof {
            use_type_invariant(&*self);
        }
        if let Some(start) = self.detent_at {
            if !self.presented && now.wrapping_sub(start) >= EXPIRE_MS {
                self.detent_at = None;
            }
        }
    }
}

// ---------------------------------------------------------------------------------------------
// The on-panel readout
// ---------------------------------------------------------------------------------------------
//
// `L<last>` over `H<max>` in 7-segment glyphs built from solid rectangles, white on a black box
// in the top-left corner. Segment bits: a=0 b=1 c=2 d=3 e=4 f=5 g=6.

/// Stroke width.
const T: u16 = 2;
/// Segment length.
const S: u16 = 6;
/// Glyph width.
const GW: u16 = S + 2 * T;
/// Glyph height.
const GH: u16 = 2 * S + 3 * T;
/// Margin around and between glyphs.
const GAP: u16 = 2;
/// Top-left of the readout box, frame-absolute.
pub const BOX_X: u16 = 4;
/// Top-left of the readout box, frame-absolute.
pub const BOX_Y: u16 = 4;
/// Readout box width: four glyphs with their gaps.
const BOX_W: u16 = GAP + 4 * (GW + GAP);
/// Readout box height: two rows with their gaps.
const BOX_H: u16 = GAP + 2 * (GH + GAP);
/// The `L` glyph (segments d, e, f).
pub const GLYPH_L: u8 = 0x38;
/// The `H` glyph (segments b, c, e, f, g).
pub const GLYPH_H: u8 = 0x76;

/// The 7-segment pattern of decimal digit `d`.
pub open spec fn digit_pattern(d: int) -> u8 {
    if d == 0 {
        0x3F
    } else if d == 1 {
        0x06
    } else if d == 2 {
        0x5B
    } else if d == 3 {
        0x4F
    } else if d == 4 {
        0x66
    } else if d == 5 {
        0x6D
    } else if d == 6 {
        0x7D
    } else if d == 7 {
        0x07
    } else if d == 8 {
        0x7F
    } else {
        0x6F
    }
}

/// The glyph for the `place` digit of `v`: blank for a leading zero, except in the units.
pub open spec fn place_glyph(v: int, place: int) -> u8 {
    if v >= place || place == 1 {
        digit_pattern((v / place) % 10)
    } else {
        0
    }
}

/// The glyph at position `i` of row `row`: row 0 is `L` and the last reading, row 1 is `H` and
/// the maximum, each value clamped to three digits.
pub open spec fn glyph_at(row: int, i: int, last: u16, max: u16) -> u8 {
    let raw = if row == 0 {
        last
    } else {
        max
    };
    let v: int = if raw > MAX_SHOWN {
        MAX_SHOWN as int
    } else {
        raw as int
    };
    if i == 0 {
        if row == 0 {
            GLYPH_L
        } else {
            GLYPH_H
        }
    } else if i == 1 {
        place_glyph(v, 100)
    } else if i == 2 {
        place_glyph(v, 10)
    } else {
        place_glyph(v, 1)
    }
}

/// Whether glyph `g` lights segment `bit`.
pub open spec fn glyph_has(g: u8, bit: int) -> bool {
    g & (1u8 << (bit as u8)) != 0
}

/// Segment `bit`'s rectangle `(x, y, w, h)` relative to its glyph's top-left corner.
pub open spec fn segment_rect(bit: int) -> (int, int, int, int) {
    if bit == 0 {
        (2, 0, 6, 2)
    } else if bit == 1 {
        (8, 2, 2, 6)
    } else if bit == 2 {
        (8, 10, 2, 6)
    } else if bit == 3 {
        (2, 16, 6, 2)
    } else if bit == 4 {
        (0, 10, 2, 6)
    } else if bit == 5 {
        (0, 2, 2, 6)
    } else {
        (2, 8, 6, 2)
    }
}

/// Whether glyph-relative `(lx, ly)` lies on segment `bit`.
pub open spec fn on_segment_local(lx: int, ly: int, bit: int) -> bool {
    let (sx, sy, sw, sh) = segment_rect(bit);
    sx <= lx < sx + sw && sy <= ly < sy + sh
}

/// Left edge of glyph column `i` (glyph pitch: 10 wide plus a 2-pixel gap).
pub open spec fn glyph_left(i: int) -> int {
    6 + 12 * i
}

/// Top edge of glyph row `row` (row pitch: 18 high plus a 2-pixel gap).
pub open spec fn glyph_top(row: int) -> int {
    6 + 20 * row
}

/// Whether frame pixel `(x, y)` lies on segment `bit` of glyph `i` in row `row`.
pub open spec fn on_segment(x: int, y: int, row: int, i: int, bit: int) -> bool {
    on_segment_local(x - glyph_left(i), y - glyph_top(row), bit)
}

/// Whether frame pixel `(x, y)` is on a lit segment of the readout.
pub open spec fn lit(x: int, y: int, last: u16, max: u16) -> bool {
    exists|row: int, i: int, bit: int|
        0 <= row < 2 && 0 <= i < 4 && 0 <= bit < 7 && glyph_has(glyph_at(row, i, last, max), bit)
            && #[trigger] on_segment(x, y, row, i, bit)
}

/// Whether frame pixel `(x, y)` lies in the readout box (50 x 42 at `(BOX_X, BOX_Y)`).
pub open spec fn in_box(x: int, y: int) -> bool {
    4 <= x < 54 && 4 <= y < 46
}

/// Frame pixel `(x, y)` after drawing `readout` over `under`: nothing is drawn before the first
/// measurement; then the box is black with the lit segments white.
pub open spec fn readout_pixel(readout: Readout, x: int, y: int, under: Rgb565) -> Rgb565 {
    match (readout.last, readout.max) {
        (Some(l), Some(m)) => if in_box(x, y) {
            if lit(x, y, l, m) {
                Rgb565(0xFFFF)
            } else {
                Rgb565(0)
            }
        } else {
            under
        },
        _ => under,
    }
}

/// A lit pixel lies inside its glyph's cell, and the cell is found from the pixel by division.
proof fn lemma_segment_cell(x: int, y: int, row: int, i: int, bit: int)
    requires
        0 <= row < 2,
        0 <= i < 4,
        0 <= bit < 7,
        on_segment(x, y, row, i, bit),
    ensures
        x >= 6,
        y >= 6,
        (x - 6) / 12 == i,
        (y - 6) / 20 == row,
        (x - 6) % 12 == x - glyph_left(i),
        (y - 6) % 20 == y - glyph_top(row),
        x - glyph_left(i) < 10,
        y - glyph_top(row) < 18,
{
    lemma_fundamental_div_mod_converse(x - 6, 12, i, x - glyph_left(i));
    lemma_fundamental_div_mod_converse(y - 6, 20, row, y - glyph_top(row));
}

/// Where the `k`-th pixel of a non-empty `w x h` band sits.
proof fn lemma_band_position(k: int, w: int, h: int)
    requires
        0 <= k < w * h,
        0 <= w,
        0 <= h,
    ensures
        0 < w,
        0 <= k % w < w,
        0 <= k / w < h,
        k == w * (k / w) + k % w,
{
    assert(0 < w) by (nonlinear_arith)
        requires
            0 <= k < w * h,
            0 <= w,
            0 <= h,
    ;
    lemma_mod_bound(k, w);
    lemma_div_pos_is_pos(k, w);
    lemma_multiply_divide_lt(k, w, h);
    lemma_fundamental_div_mod(k, w);
}

/// The pattern of decimal digit `d`.
fn digit_glyph(d: u16) -> (g: u8)
    requires
        d < 10,
    ensures
        g == digit_pattern(d as int),
{
    match d {
        0 => 0x3F,
        1 => 0x06,
        2 => 0x5B,
        3 => 0x4F,
        4 => 0x66,
        5 => 0x6D,
        6 => 0x7D,
        7 => 0x07,
        8 => 0x7F,
        _ => 0x6F,
    }
}

/// The glyph at position `i` of row `row`.
fn glyph(row: u32, i: u32, last: u16, max: u16) -> (g: u8)
    requires
        row < 2,
        i < 4,
    ensures
        g == glyph_at(row as int, i as int, last, max),
{
    if i == 0 {
        return if row == 0 {
            GLYPH_L
        } else {
            GLYPH_H
        };
    }
    let raw = if row == 0 {
        last
    } else {
        max
    };
    let v = if raw > MAX_SHOWN {
        MAX_SHOWN
    } else {
        raw
    };
    let place: u16 = if i == 1 {
        100
    } else if i == 2 {
        10
    } else {
        1
    };
    if v >= place || place == 1 {
        digit_glyph(v / place % 10)
    } else {
        0
    }
}

/// Segment `bit`'s rectangle relative to its glyph.
fn segment(bit: u8) -> (r: (u32, u32, u32, u32))
    requires
        bit < 7,
    ensures
        (r.0 as int, r.1 as int, r.2 as int, r.3 as int) == segment_rect(bit as int),
{
    match bit {
        0 => (2, 0, 6, 2),
        1 => (8, 2, 2, 6),
        2 => (8, 10, 2, 6),
        3 => (2, 16, 6, 2),
        4 => (0, 10, 2, 6),
        5 => (0, 2, 2, 6),
        _ => (2, 8, 6, 2),
    }
}

/// Whether frame pixel `(x, y)` is on a lit segment of the readout.
fn lit_at(x: u32, y: u32, last: u16, max: u16) -> (b: bool)
    ensures
        b == lit(x as int, y as int, last, max),
{
    if x < 6 || y < 6 {
        proof {
            assert forall|row: int, i: int, bit: int|
                0 <= row < 2 && 0 <= i < 4 && 0 <= bit < 7 implies !#[trigger] on_segment(
                x as int,
                y as int,
                row,
                i,
                bit,
            ) by {
                if on_segment(x as int, y as int, row, i, bit) {
                    lemma_segment_cell(x as int, y as int, row, i, bit);
                }
            }
        }
        return false;
    }
    let dx = x - 6;
    let dy = y - 6;
    let col = dx / 12;
    let lx = dx % 12;
    let row = dy / 20;
    let ly = dy % 20;
    if col >= 4 || row >= 2 || lx >= 10 || ly >= 18 {
        proof {
            assert forall|r: int, i: int, bit: int|
                0 <= r < 2 && 0 <= i < 4 && 0 <= bit < 7 implies !#[trigger] on_segment(
                x as int,
                y as int,
                r,
                i,
                bit,
            ) by {
                if on_segment(x as int, y as int, r, i, bit) {
                    lemma_segment_cell(x as int, y as int, r, i, bit);
                }
            }
        }
        return false;
    }
    let g = glyph(row, col, last, max);
    let mut bit: u8 = 0;
    while bit < 7
        invariant
            bit <= 7,
            x >= 6,
            y >= 6,
            col == (x - 6) / 12,
            lx == (x - 6) % 12,
            row == (y - 6) / 20,
            ly == (y - 6) % 20,
            col < 4,
            row < 2,
            g == glyph_at(row as int, col as int, last, max),
            forall|b: int|
                0 <= b < bit ==> !(glyph_has(g, b) && #[trigger] on_segment_local(
                    lx as int,
                    ly as int,
                    b,
                )),
        decreases 7 - bit,
    {
        let (sx, sy, sw, sh) = segment(bit);
        if g & (1u8 << bit) != 0 && sx <= lx && lx < sx + sw && sy <= ly && ly < sy + sh {
            proof {
                lemma_fundamental_div_mod(x - 6, 12);
                lemma_fundamental_div_mod(y - 6, 20);
                assert(on_segment(x as int, y as int, row as int, col as int, bit as int));
            }
            return true;
        }
        bit = bit + 1;
    }
    proof {
        assert forall|r: int, i: int, b: int|
            0 <= r < 2 && 0 <= i < 4 && 0 <= b < 7 && glyph_has(glyph_at(r, i, last, max), b)
                implies !#[trigger] on_segment(x as int, y as int, r, i, b) by {
            if on_segment(x as int, y as int, r, i, b) {
                lemma_segment_cell(x as int, y as int, r, i, b);
                assert(on_segment_local(lx as int, ly as int, b));
            }
        }
    }
    false
}

/// Draws `L<last>` over `H<max>` into `band` as the final layer. Draws nothing before the first
/// measurement (so the frame is pixel-identical to one without the probe until then); pixels of
/// the band outside the readout box are left untouched.
pub fn draw(band: &mut TileBand, readout: Readout)
    requires
        old(band).wf(),
    ensures
        final(band).wf(),
        final(band).rect_spec() == old(band).rect_spec(),
        forall|k: int|
            0 <= k < old(band)@.len() ==> #[trigger] final(band)@[k] == readout_pixel(
                readout,
                band_x(old(band).rect_spec(), k),
                band_y(old(band).rect_spec(), k),
                old(band)@[k],
            ),
{
    let (last, max) = match (readout.last, readout.max) {
        (Some(l), Some(m)) => (l, m),
        _ => {
            return ;
        },
    };
    let r = band.rect();
    let rx = r.x as u32;
    let ry = r.y as u32;
    let w = r.w as u32;
    let h = r.h as u32;
    let bx0 = BOX_X as u32;
    let bx1 = (BOX_X + BOX_W) as u32;
    let by0 = BOX_Y as u32;
    let by1 = (BOX_Y + BOX_H) as u32;
    let ghost under = band@;
    let ghost n = under.len();
    if rx >= bx1 || rx + w <= bx0 || ry >= by1 || ry + h <= by0 {
        proof {
            assert forall|k: int| 0 <= k < n implies #[trigger] band@[k] == readout_pixel(
                readout,
                band_x(r, k),
                band_y(r, k),
                under[k],
            ) by {
                lemma_band_position(k, w as int, h as int);
            }
        }
        return ;
    }
    let lx0 = if bx0 > rx {
        bx0 - rx
    } else {
        0
    };
    let lx1 = if bx1 - rx < w {
        bx1 - rx
    } else {
        w
    };
    let ly0 = if by0 > ry {
        by0 - ry
    } else {
        0
    };
    let ly1 = if by1 - ry < h {
        by1 - ry
    } else {
        h
    };
    proof {
        assert forall|k: int| 0 <= k < n implies #[trigger] band@[k] == if k / (w as int) < ly0 {
            readout_pixel(readout, band_x(r, k), band_y(r, k), under[k])
        } else {
            under[k]
        } by {
            lemma_band_position(k, w as int, h as int);
        }
    }
    let mut ly = ly0;
    while ly < ly1
        invariant
            band.wf(),
            band.rect_spec() == r,
            band@.len() == n,
            n == w * h,
            rx == r.x,
            ry == r.y,
            w == r.w,
            h == r.h,
            lx1 <= w,
            ly1 <= h,
            ly0 <= ly <= ly1,
            lx0 <= lx1,
            rx + lx1 <= 54,
            ry + ly1 <= 46,
            rx < 54 && rx + w > 4 && ry < 46 && ry + h > 4,
            lx0 == (if 4 > rx { 4 - rx } else { 0 }),
            lx1 == (if 54 - rx < w { 54 - rx } else { w as int }),
            ly0 == (if 4 > ry { 4 - ry } else { 0 }),
            ly1 == (if 46 - ry < h { 46 - ry } else { h as int }),
            readout.last == Some(last),
            readout.max == Some(max),
            forall|k: int|
                0 <= k < n ==> #[trigger] band@[k] == if k / (w as int) < ly {
                    readout_pixel(readout, band_x(r, k), band_y(r, k), under[k])
                } else {
                    under[k]
                },
        decreases ly1 - ly,
    {
        proof {
            assert forall|k: int| 0 <= k < n implies #[trigger] band@[k] == if k / (w as int) < ly
                || (k / (w as int) == ly && k % (w as int) < lx0) {
                readout_pixel(readout, band_x(r, k), band_y(r, k), under[k])
            } else {
                under[k]
            } by {
                lemma_band_position(k, w as int, h as int);
            }
        }
        let mut lx = lx0;
        while lx < lx1
            invariant
                band.wf(),
                band.rect_spec() == r,
                band@.len() == n,
                n == w * h,
                rx == r.x,
                ry == r.y,
                w == r.w,
                h == r.h,
                lx1 <= w,
                ly1 <= h,
                ly0 <= ly < ly1,
                lx0 <= lx <= lx1,
                rx + lx1 <= 54,
                ry + ly1 <= 46,
                rx < 54 && rx + w > 4 && ry < 46 && ry + h > 4,
                lx0 == (if 4 > rx { 4 - rx } else { 0 }),
                lx1 == (if 54 - rx < w { 54 - rx } else { w as int }),
                ly0 == (if 4 > ry { 4 - ry } else { 0 }),
                ly1 == (if 46 - ry < h { 46 - ry } else { h as int }),
                readout.last == Some(last),
                readout.max == Some(max),
                forall|k: int|
                    0 <= k < n ==> #[trigger] band@[k] == if k / (w as int) < ly || (k / (w as int)
                        == ly && k % (w as int) < lx) {
                        readout_pixel(readout, band_x(r, k), band_y(r, k), under[k])
                    } else {
                        under[k]
                    },
            decreases lx1 - lx,
        {
            let x = rx + lx;
            let y = ry + ly;
            let color = if lit_at(x, y, last, max) {
                Rgb565(0xFFFF)
            } else {
                Rgb565(0)
            };
            let ghost before = band@;
            let xs = x as u16;
            let ys = y as u16;
            assert(xs == x && ys == y);
            assert(covers(r, xs as int, ys as int));
            band.set(xs, ys, color);
            proof {
                let idx = ly * w + lx;
                lemma_fundamental_div_mod_converse(idx as int, w as int, ly as int, lx as int);
                assert(band_index(r, x as int, y as int) == idx);
                assert(band@ == before.update(idx as int, color));
                lemma_local_index(lx as int, ly as int, w as int, h as int);
                assert forall|k: int| 0 <= k < n implies #[trigger] band@[k] == if k / (w as int)
                    < ly || (k / (w as int) == ly && k % (w as int) < lx + 1) {
                    readout_pixel(readout, band_x(r, k), band_y(r, k), under[k])
                } else {
                    under[k]
                } by {
                    lemma_band_position(k, w as int, h as int);
                    if k == idx {
                        assert(in_box(x as int, y as int));
                        assert(band_x(r, k) == x && band_y(r, k) == y);
                    } else {
                        assert(band@[k] == before[k]);
                        if k / (w as int) == ly && k % (w as int) == lx {
                            assert(k == idx) by (nonlinear_arith)
                                requires
                                    k == w * (k / (w as int)) + k % (w as int),
                                    k / (w as int) == ly,
                                    k % (w as int) == lx,
                                    idx == ly * w + lx,
                            ;
                        }
                    }
                }
            }
            lx = lx + 1;
        }
        proof {
            assert forall|k: int| 0 <= k < n implies #[trigger] band@[k] == if k / (w as int) < ly
                + 1 {
                readout_pixel(readout, band_x(r, k), band_y(r, k), under[k])
            } else {
                under[k]
            } by {
                lemma_band_position(k, w as int, h as int);
            }
        }
        ly = ly + 1;
    }
    proof {
        assert forall|k: int| 0 <= k < n implies #[trigger] band@[k] == readout_pixel(
            readout,
            band_x(r, k),
            band_y(r, k),
            under[k],
        ) by {
            lemma_band_position(k, w as int, h as int);
        }
    }
}

// ---------------------------------------------------------------------------------------------
// Laws
// ---------------------------------------------------------------------------------------------

/// Whether the readout is consistent: both values or neither, and the maximum is at least the
/// last reading, and neither exceeds the clamp.
pub open spec fn readout_consistent(r: Readout) -> bool {
    match (r.last, r.max) {
        (Some(l), Some(m)) => l <= m && m <= MAX_SHOWN,
        (None, None) => true,
        _ => false,
    }
}

/// Every operation keeps the readout consistent.
pub proof fn law_readout_stays_consistent(s: ProbeState, now: u32)
    requires
        readout_consistent(s.readout),
    ensures
        readout_consistent(detent_spec(s, now).readout),
        readout_consistent(presentation_spec(s, now).readout),
        readout_consistent(flushed_spec(s, now).0.readout),
{
}

/// The running maximum never decreases.
pub proof fn law_max_is_monotone(s: ProbeState, now: u32)
    requires
        readout_consistent(s.readout),
    ensures
        s.readout.max matches Some(m) ==> (flushed_spec(s, now).0.readout.max matches Some(m2)
            && m <= m2),
{
}

/// A presentation applied while no detent is pending is ignored: it cannot complete a later
/// detent's measurement.
pub proof fn law_early_presentation_is_ignored(s: ProbeState, now: u32)
    requires
        expire_spec(s, now).detent_at is None,
    ensures
        presentation_spec(s, now) == expire_spec(s, now),
{
}

/// A frame flushed without an answered detent completes nothing and changes nothing but expiry.
pub proof fn law_flush_without_answer_measures_nothing(s: ProbeState, now: u32)
    requires
        !expire_spec(s, now).presented,
    ensures
        flushed_spec(s, now) == (expire_spec(s, now), None::<u16>),
{
}

/// The readout changes only pixels inside its box, and none before the first measurement.
pub proof fn law_readout_stays_in_its_box(readout: Readout, x: int, y: int, under: Rgb565)
    ensures
        !in_box(x, y) ==> readout_pixel(readout, x, y, under) == under,
        readout.last is None ==> readout_pixel(readout, x, y, under) == under,
{
}

} // verus!
