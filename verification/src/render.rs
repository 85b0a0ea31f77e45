//! Change-driven tile output.
//!
//! The panel is covered by full-width bands. Each pass composes every tile, takes a content
//! signature, and flushes only tiles whose signature changed since they were last flushed, the
//! bandwidth discipline the SPI panel needs. Invalidating forgets every signature, so the next
//! pass flushes everything (after a state change, a display re-init, or a failed pass).

use crate::model::{Rect, Rgb565};
use crate::ports::DisplaySink;
use vstd::prelude::*;

verus! {

/// Tile width: a full-width band.
pub const TILE_W: u16 = 240;
/// Tile height.
pub const TILE_H: u16 = 40;
/// Panel width in pixels.
pub const PANEL_W: u16 = 240;
/// Panel height in pixels.
pub const PANEL_H: u16 = 240;
/// Pixels per tile.
pub const TILE_PIXELS: usize = 9600;
/// Number of tile columns covering the panel.
pub const TILE_COLS: usize = 1;
/// Number of tiles covering the panel.
pub const TILE_COUNT: usize = 6;
/// Pixels in a full frame.
pub const FRAME_PIXELS: usize = 57600;

/// Why a render pass failed.
#[derive(Debug, Clone, Copy, PartialEq, Eq)]
pub enum RenderError<E> {
    /// The blob has no scene for the requested state.
    MissingScene,
    /// The tile buffer size did not match the tile rectangle.
    Band,
    /// The shared compositor rejected the scene.
    Compositor,
    /// The display sink failed.
    Sink(E),
}

/// Where tile `tile` lies, in row-major order.
pub open spec fn tile_rect_spec(tile: int) -> Rect {
    Rect {
        x: ((tile % TILE_COLS as int) * TILE_W) as u16,
        y: ((tile / TILE_COLS as int) * TILE_H) as u16,
        w: TILE_W,
        h: TILE_H,
    }
}

/// The rectangle of tile `tile`.
pub fn tile_rect(tile: usize) -> (r: Rect)
    requires
        tile < TILE_COUNT,
    ensures
        r == tile_rect_spec(tile as int),
{
    let x: u16 = (tile % TILE_COLS) as u16 * TILE_W;
    let y: u16 = (tile / TILE_COLS) as u16 * TILE_H;
    Rect { x, y, w: TILE_W, h: TILE_H }
}

/// The tiles exactly cover the panel: full-width bands stacked top to bottom, each
/// `TILE_PIXELS` pixels.
pub proof fn law_tiles_cover_the_panel(tile: int)
    requires
        0 <= tile < TILE_COUNT,
    ensures
        TILE_PIXELS == TILE_W * TILE_H,
        TILE_COUNT * TILE_PIXELS == FRAME_PIXELS,
        FRAME_PIXELS == PANEL_W * PANEL_H,
        TILE_COLS * TILE_W == PANEL_W,
        tile_rect_spec(tile).x == 0,
        tile_rect_spec(tile).y == tile * TILE_H,
        tile_rect_spec(tile).y + TILE_H <= PANEL_H,
{
}

/// The last-flushed signature of every tile.
pub struct TileCache {
    signatures: Vec<Option<u64>>,
}

impl TileCache {
    /// The signature each tile was last flushed with.
    pub closed spec fn view(&self) -> Seq<Option<u64>> {
        self.signatures@
    }

    /// One entry per tile.
    #[verifier::type_invariant]
    spec fn inv(self) -> bool {
        self.signatures@.len() == TILE_COUNT
    }

    /// Nothing flushed yet.
    pub fn new() -> (c: Self)
        ensures
            c@ == Seq::new(TILE_COUNT as nat, |i: int| None::<u64>),
    {
        let mut signatures: Vec<Option<u64>> = Vec::new();
        let mut i: usize = 0;
        while i < TILE_COUNT
            invariant
                i <= TILE_COUNT,
                signatures@ == Seq::new(i as nat, |k: int| None::<u64>),
            decreases TILE_COUNT - i,
        {
            signatures.push(None);
            i = i + 1;
            proof {
                assert(signatures@ =~= Seq::new(i as nat, |k: int| None::<u64>));
            }
        }
        TileCache { signatures }
    }

    /// The number of tiles.
    pub fn len(&self) -> (n: usize)
        ensures
            n == self@.len(),
            n == TILE_COUNT,
    {
        proof {
            use_type_invariant(self);
        }
        self.signatures.len()
    }

    /// Forces every tile to be re-flushed on the next pass.
    pub fn invalidate(&mut self)
        ensures
            final(self)@ == Seq::new(TILE_COUNT as nat, |i: int| None::<u64>),
    {
        *self = TileCache::new();
    }

    /// Whether tile `tile`, now with content signature `signature`, must be flushed.
    pub fn needs_flush(&self, tile: usize, signature: u64) -> (b: bool)
        requires
            tile < TILE_COUNT,
        ensures
            b == (self@[tile as int] != Some(signature)),
    {
        proof {
            use_type_invariant(self);
        }
        match self.signatures[tile] {
            Some(s) => s != signature,
            None => true,
        }
    }

    /// Records that tile `tile` was flushed with content signature `signature`.
    pub fn record(&mut self, tile: usize, signature: u64)
        requires
            tile < TILE_COUNT,
        ensures
            final(self)@ == old(self)@.update(tile as int, Some(signature)),
    {
        proof {
            use_type_invariant(&*self);
        }
        let mut sigs: Vec<Option<u64>> = Vec::new();
        let mut i: usize = 0;
        while i < self.signatures.len()
            invariant
                i <= self.signatures@.len(),
                self.signatures@.len() == TILE_COUNT,
                tile < TILE_COUNT,
                sigs@ == self.signatures@.update(tile as int, Some(signature)).take(i as int),
            decreases self.signatures@.len() - i,
        {
            if i == tile {
                sigs.push(Some(signature));
            } else {
                sigs.push(self.signatures[i]);
            }
            i = i + 1;
            proof {
                assert(sigs@ =~= self.signatures@.update(tile as int, Some(signature)).take(
                    i as int,
                ));
            }
        }
        proof {
            assert(sigs@ =~= self.signatures@.update(tile as int, Some(signature)));
        }
        self.signatures = sigs;
    }

    /// The tiles of a composed frame whose signatures differ from the last flush, in order.
    pub fn changed(&self, prepared: &[u64]) -> (tiles: Vec<usize>)
        requires
            prepared@.len() == TILE_COUNT,
        ensures
            forall|k: int|
                0 <= k < tiles@.len() ==> #[trigger] tiles@[k] < TILE_COUNT && self@[tiles@[k] as int]
                    != Some(prepared@[tiles@[k] as int]),
            forall|t: int|
                0 <= t < TILE_COUNT && self@[t] != Some(prepared@[t]) ==> tiles@.contains(
                    t as usize,
                ),
            forall|a: int, b: int| 0 <= a < b < tiles@.len() ==> tiles@[a] < tiles@[b],
    {
        proof {
            use_type_invariant(self);
        }
        let mut out: Vec<usize> = Vec::new();
        let mut t: usize = 0;
        while t < TILE_COUNT
            invariant
                t <= TILE_COUNT,
                self@.len() == TILE_COUNT,
                prepared@.len() == TILE_COUNT,
                forall|k: int|
                    0 <= k < out@.len() ==> #[trigger] out@[k] < t && self@[out@[k] as int]
                        != Some(prepared@[out@[k] as int]),
                forall|u: int|
                    0 <= u < t && self@[u] != Some(prepared@[u]) ==> out@.contains(u as usize),
                forall|a: int, b: int| 0 <= a < b < out@.len() ==> out@[a] < out@[b],
            decreases TILE_COUNT - t,
        {
            if self.needs_flush(t, prepared[t]) {
                let ghost before = out@;
                out.push(t);
                proof {
                    assert forall|u: int|
                        0 <= u < t + 1 && self@[u] != Some(prepared@[u]) implies out@.contains(
                        u as usize,
                    ) by {
                        if u == t {
                            assert(out@[out@.len() - 1] == u as usize);
                        } else {
                            assert(before.contains(u as usize));
                            let j = choose|j: int| 0 <= j < before.len() && before[j] == u as usize;
                            assert(out@[j] == u as usize);
                        }
                    }
                }
            }
            t = t + 1;
        }
        out
    }
}

/// Flushes tile `tile` (its composed `pixels`, with content signature `signature`) if it changed
/// since it was last flushed, then records it. A failed write leaves the tile unrecorded, so the
/// next pass retries it.
pub fn flush_if_changed<S: DisplaySink>(
    cache: &mut TileCache,
    tile: usize,
    pixels: &[Rgb565],
    signature: u64,
    sink: &mut S,
) -> (r: Result<bool, RenderError<S::Error>>)
    requires
        tile < TILE_COUNT,
        pixels@.len() == TILE_PIXELS,
    ensures
        old(cache)@[tile as int] == Some(signature) ==> r == Ok::<bool, RenderError<S::Error>>(
            false,
        ) && final(cache)@ == old(cache)@ && (S::keeps_log() ==> final(sink).written() == old(
            sink,
        ).written()),
        old(cache)@[tile as int] != Some(signature) ==> match r {
            Ok(flushed) => flushed && final(cache)@ == old(cache)@.update(
                tile as int,
                Some(signature),
            ) && (S::keeps_log() ==> final(sink).written() == old(sink).written().push(
                (tile_rect_spec(tile as int), pixels@),
            )),
            Err(e) => e is Sink && final(cache)@ == old(cache)@ && (S::keeps_log() ==> final(sink).written() == old(sink).written()),
        },
{
    if !cache.needs_flush(tile, signature) {
        return Ok(false);
    }
    let rect = tile_rect(tile);
    match sink.blit_tile(rect, pixels) {
        Ok(()) => {},
        Err(e) => {
            return Err(RenderError::Sink(e));
        },
    }
    cache.record(tile, signature);
    Ok(true)
}

/// Tile `t` of a composed frame, row-major tile after tile.
pub open spec fn frame_tile(frame: Seq<Rgb565>, t: int) -> Seq<Rgb565> {
    frame.subrange(t * TILE_PIXELS, (t + 1) * TILE_PIXELS)
}

/// What flushing tiles `0 .. t` of `frame` writes to the sink, against the signatures `cache`
/// the tiles were last flushed with: each changed tile once, in order, and nothing for the
/// others.
pub open spec fn flush_writes(
    cache: Seq<Option<u64>>,
    frame: Seq<Rgb565>,
    prepared: Seq<u64>,
    t: nat,
) -> Seq<(Rect, Seq<Rgb565>)>
    decreases t,
{
    if t == 0 {
        Seq::empty()
    } else {
        let i = t - 1;
        flush_writes(cache, frame, prepared, i as nat) + if cache[i] != Some(prepared[i]) {
            seq![(tile_rect_spec(i), frame_tile(frame, i))]
        } else {
            Seq::empty()
        }
    }
}

/// Flushes the changed tiles of a fully composed `frame` (row-major, tile after tile), whose
/// tiles have content signatures `prepared`. Composition is over before the first write, so
/// the panel keeps the old image until the new one goes out. On a failed write the tiles
/// already written stay recorded and the rest keep their old signatures, so the next pass
/// resumes with them.
pub fn flush_frame<S: DisplaySink>(
    cache: &mut TileCache,
    frame: &[Rgb565],
    prepared: &[u64],
    sink: &mut S,
) -> (r: Result<(), RenderError<S::Error>>)
    requires
        frame@.len() == FRAME_PIXELS,
        prepared@.len() == TILE_COUNT,
    ensures
        r is Ok ==> forall|t: int| 0 <= t < TILE_COUNT ==> #[trigger] final(cache)@[t] == Some(
            prepared@[t],
        ),
        S::keeps_log() ==> (r is Ok ==> final(sink).written() == old(sink).written()
            + flush_writes(old(cache)@, frame@, prepared@, TILE_COUNT as nat)),
        r matches Err(e) ==> e is Sink && exists|t: int|
            0 <= t < TILE_COUNT && #[trigger] final(cache)@[t] == old(cache)@[t]
                && old(cache)@[t] != Some(prepared@[t]) && (S::keeps_log() ==> final(sink).written() == old(sink).written() + flush_writes(
                old(cache)@,
                frame@,
                prepared@,
                t as nat,
            )),
        forall|t: int|
            0 <= t < TILE_COUNT ==> #[trigger] final(cache)@[t] == old(cache)@[t]
                || final(cache)@[t] == Some(prepared@[t]),
{
    let ghost start = cache@;
    proof {
        use_type_invariant(&*cache);
    }
    let mut tile: usize = 0;
    while tile < TILE_COUNT
        invariant
            tile <= TILE_COUNT,
            start == old(cache)@,
            frame@.len() == FRAME_PIXELS,
            prepared@.len() == TILE_COUNT,
            cache@.len() == TILE_COUNT,
            start.len() == TILE_COUNT,
            forall|t: int| 0 <= t < tile ==> #[trigger] cache@[t] == Some(prepared@[t]),
            forall|t: int| tile <= t < TILE_COUNT ==> #[trigger] cache@[t] == start[t],
            S::keeps_log() ==> sink.written() == old(sink).written() + flush_writes(
                start,
                frame@,
                prepared@,
                tile as nat,
            ),
        decreases TILE_COUNT - tile,
    {
        let begin = tile * TILE_PIXELS;
        let pixels = vstd::slice::slice_subrange(frame, begin, begin + TILE_PIXELS);
        match flush_if_changed(cache, tile, pixels, prepared[tile], sink) {
            Ok(_) => {},
            Err(e) => {
                proof {
                    assert(cache@[tile as int] == start[tile as int]);
                    assert(start[tile as int] != Some(prepared@[tile as int]));
                }
                return Err(e);
            },
        }
        proof {
            assert(pixels@ =~= frame_tile(frame@, tile as int));
            if S::keeps_log() {
                assert(sink.written() =~= old(sink).written() + flush_writes(
                    start,
                    frame@,
                    prepared@,
                    (tile + 1) as nat,
                ));
            }
        }
        tile = tile + 1;
    }
    Ok(())
}

/// An unchanged frame flushes nothing: once every tile was recorded with its signature, the
/// same signatures need no flush.
pub proof fn law_unchanged_frame_flushes_nothing(cache: Seq<Option<u64>>, sigs: Seq<u64>, t: int)
    requires
        cache.len() == TILE_COUNT,
        sigs.len() == TILE_COUNT,
        forall|i: int| 0 <= i < TILE_COUNT ==> cache[i] == Some(sigs[i]),
        0 <= t < TILE_COUNT,
    ensures
        !(cache[t] != Some(sigs[t])),
{
}

/// After invalidation every tile is flushed, whatever its content.
pub proof fn law_invalidation_flushes_everything(sig: u64, t: int)
    requires
        0 <= t < TILE_COUNT,
    ensures
        Seq::new(TILE_COUNT as nat, |i: int| None::<u64>)[t] != Some(sig),
{
}

/// The signatures of a cache that flushed nothing yet, or was invalidated.
pub open spec fn no_flushes() -> Seq<Option<u64>> {
    Seq::new(TILE_COUNT as nat, |i: int| None::<u64>)
}

/// A frame whose every tile was flushed with its current signature writes nothing to the
/// panel: no tile whose content did not change is written again.
pub proof fn law_unchanged_frame_writes_nothing(
    cache: Seq<Option<u64>>,
    frame: Seq<Rgb565>,
    prepared: Seq<u64>,
    t: nat,
)
    requires
        t <= TILE_COUNT,
        cache.len() == TILE_COUNT,
        prepared.len() == TILE_COUNT,
        forall|i: int| 0 <= i < TILE_COUNT ==> cache[i] == Some(prepared[i]),
    ensures
        flush_writes(cache, frame, prepared, t) == Seq::<(Rect, Seq<Rgb565>)>::empty(),
    decreases t,
{
    if t > 0 {
        law_unchanged_frame_writes_nothing(cache, frame, prepared, (t - 1) as nat);
        assert(flush_writes(cache, frame, prepared, t) =~= Seq::<(Rect, Seq<Rgb565>)>::empty());
    }
}

/// After invalidation a frame goes out whole: every tile, as full-width bands top to bottom,
/// each with its own pixels.
pub proof fn law_invalidated_frame_writes_every_band(
    frame: Seq<Rgb565>,
    prepared: Seq<u64>,
    t: nat,
)
    requires
        t <= TILE_COUNT,
    ensures
        flush_writes(no_flushes(), frame, prepared, t).len() == t,
        forall|i: int|
            0 <= i < t ==> #[trigger] flush_writes(no_flushes(), frame, prepared, t)[i] == (Rect { x: 0, y: (i * 40) as u16, w: 240, h: 40 }, frame_tile(frame, i)),
    decreases t,
{
    if t > 0 {
        law_invalidated_frame_writes_every_band(frame, prepared, (t - 1) as nat);
    }
}

} // verus!
