use kivori::model::{Rect, Rgb565};
use kivori::ports::DisplaySink;
use kivori::render::{
    flush_frame, flush_if_changed, RenderError, TileCache, FRAME_PIXELS, TILE_COUNT, TILE_PIXELS,
};

/// Records the tiles it receives; fails the blits whose ordinal is listed.
struct Recorder {
    calls: u32,
    fail_on: Vec<u32>,
    tiles: Vec<Rect>,
    first_pixels: Vec<Rgb565>,
}

impl Recorder {
    fn new(fail_on: Vec<u32>) -> Self {
        Recorder { calls: 0, fail_on, tiles: Vec::new(), first_pixels: Vec::new() }
    }
}

impl DisplaySink for Recorder {
    type Error = &'static str;

    fn blit_tile(&mut self, rect: Rect, pixels: &[Rgb565]) -> Result<(), &'static str> {
        self.calls += 1;
        if self.fail_on.contains(&self.calls) {
            return Err("bus");
        }
        self.tiles.push(rect);
        self.first_pixels.push(pixels[0]);
        Ok(())
    }
}

fn frame() -> Vec<Rgb565> {
    (0..FRAME_PIXELS).map(|i| Rgb565((i / TILE_PIXELS) as u16)).collect()
}

#[test]
fn a_buffered_frame_flushes_each_changed_tile_once() {
    let mut cache = TileCache::new();
    let mut sink = Recorder::new(vec![]);
    let sigs = [10u64, 11, 12, 13, 14, 15];
    assert_eq!(flush_frame(&mut cache, &frame(), &sigs, &mut sink), Ok(()));
    assert_eq!(sink.tiles.len(), TILE_COUNT);
    assert_eq!(sink.tiles[3], Rect::new(0, 120, 240, 40));
    assert_eq!(sink.first_pixels[3], Rgb565(3));
    // The same frame again: nothing to write.
    assert_eq!(flush_frame(&mut cache, &frame(), &sigs, &mut sink), Ok(()));
    assert_eq!(sink.tiles.len(), TILE_COUNT);
    // One tile changed: only it goes out.
    let changed = [10u64, 11, 99, 13, 14, 15];
    assert_eq!(flush_frame(&mut cache, &frame(), &changed, &mut sink), Ok(()));
    assert_eq!(sink.tiles.len(), TILE_COUNT + 1);
    assert_eq!(sink.tiles[TILE_COUNT], Rect::new(0, 80, 240, 40));
}

#[test]
fn a_failed_transfer_is_retried_on_the_next_pass() {
    let mut cache = TileCache::new();
    let mut sink = Recorder::new(vec![3]);
    let sigs = [1u64, 2, 3, 4, 5, 6];
    assert_eq!(
        flush_frame(&mut cache, &frame(), &sigs, &mut sink),
        Err(RenderError::Sink("bus"))
    );
    assert_eq!(sink.tiles.len(), 2);
    assert_eq!(flush_frame(&mut cache, &frame(), &sigs, &mut sink), Ok(()));
    assert_eq!(sink.tiles.len(), TILE_COUNT);
    assert_eq!(sink.tiles[2], Rect::new(0, 80, 240, 40));
}

#[test]
fn an_invalidated_cache_reflushes_everything() {
    let mut cache = TileCache::new();
    let mut sink = Recorder::new(vec![]);
    let sigs = [7u64; 6];
    assert_eq!(flush_frame(&mut cache, &frame(), &sigs, &mut sink), Ok(()));
    cache.invalidate();
    assert_eq!(flush_frame(&mut cache, &frame(), &sigs, &mut sink), Ok(()));
    assert_eq!(sink.tiles.len(), 2 * TILE_COUNT);
}

#[test]
fn an_unchanged_tile_is_not_written() {
    let mut cache = TileCache::new();
    let mut sink = Recorder::new(vec![2]);
    let pixels = vec![Rgb565(9); TILE_PIXELS];
    assert_eq!(flush_if_changed(&mut cache, 1, &pixels, 42, &mut sink), Ok(true));
    assert_eq!(flush_if_changed(&mut cache, 1, &pixels, 42, &mut sink), Ok(false));
    assert_eq!(
        flush_if_changed(&mut cache, 1, &pixels, 43, &mut sink),
        Err(RenderError::Sink("bus"))
    );
    assert!(cache.needs_flush(1, 43));
    assert!(!cache.needs_flush(1, 42));
    assert_eq!(sink.calls, 2);
}
