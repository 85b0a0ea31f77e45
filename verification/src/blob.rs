//! Deterministic assembly of the compiled asset blob: its bitmap table and pool, its scenes,
//! the mascot pack built from rendered layers, and the blob's framing.
//!
//! Bitmaps live in one byte pool; the table records where each bitmap's RGB565 pixels (and, for
//! a masked bitmap, its packed alpha) sit in the pool. Adding a bitmap equal to one already in
//! the table (same size, frame count, pixels and alpha) returns the existing id instead of
//! storing it twice. Alpha is packed as 4-bit samples, two per byte: even pixels in the low
//! nibble, odd pixels in the high nibble.

use crate::model::{rgb565_of, CompanionState, DeviceProfile, Rgb565};
use crate::text::{collect_chars, find_from, first_occurrence, occurs_at, push_chars};
use vstd::prelude::*;

verus! {

/// A bitmap frame size in pixels.
#[derive(Debug, Clone, Copy, PartialEq, Eq, Structural)]
pub struct Size {
    /// Width.
    pub w: u16,
    /// Height.
    pub h: u16,
}

/// A byte range of the pool.
#[derive(Debug, Clone, Copy, PartialEq, Eq, Structural)]
pub struct PoolRef {
    /// First byte.
    pub offset: u32,
    /// Length in bytes.
    pub len: u32,
}

/// One bitmap of the table.
#[derive(Debug, Clone, Copy, PartialEq, Eq, Structural)]
pub struct BitmapEntry {
    /// Frame size.
    pub size: Size,
    /// Number of frames, stacked.
    pub frames: u16,
    /// The RGB565 pixels.
    pub data: PoolRef,
    /// The packed alpha, for a masked bitmap.
    pub alpha: Option<PoolRef>,
}

/// A point in panel pixels.
#[derive(Debug, Clone, Copy, PartialEq, Eq, Structural)]
pub struct Point {
    /// Column.
    pub x: i16,
    /// Row.
    pub y: i16,
}

/// What a scene layer is for.
#[derive(Debug, Clone, Copy, PartialEq, Eq, Structural)]
pub enum LayerRole {
    /// A still, full-frame picture.
    Static,
    /// The mascot's body.
    Body,
    /// The cap, drawn over the body.
    Cap,
    /// One of the mascot's eyes.
    Eyes,
    /// The mascot's mouth.
    Mouth,
}

/// What a layer draws.
#[derive(Debug, Clone, Copy, PartialEq, Eq, Structural)]
pub enum LayerKind {
    /// Frames of bitmap `asset`, each `frame_size`.
    Sprite { asset: u16, frame_size: Size },
}

/// A layer's placement and visibility from a moment of the scene on.
#[derive(Debug, Clone, Copy, PartialEq, Eq, Structural)]
pub struct Keyframe {
    /// When it takes effect, from the start of the scene.
    pub at_ms: u32,
    /// Offset from the layer's origin.
    pub offset: Point,
    /// Sprite frame shown.
    pub sprite_frame: u16,
    /// Whether the layer is drawn.
    pub visible: bool,
}

/// One layer of a scene.
#[derive(Debug)]
pub struct LayerDef {
    /// What the layer is for.
    pub role: LayerRole,
    /// What it draws.
    pub kind: LayerKind,
    /// Where its top-left corner sits.
    pub origin: Point,
    /// Its keyframes, in time order.
    pub keyframes: Vec<Keyframe>,
}

/// A layer as the contracts read it.
pub struct LayerView {
    /// What the layer is for.
    pub role: LayerRole,
    /// What it draws.
    pub kind: LayerKind,
    /// Where its top-left corner sits.
    pub origin: Point,
    /// Its keyframes, in time order.
    pub keyframes: Seq<Keyframe>,
}

impl LayerDef {
    /// The layer as the contracts read it.
    pub open spec fn view(&self) -> LayerView {
        LayerView {
            role: self.role,
            kind: self.kind,
            origin: self.origin,
            keyframes: self.keyframes@,
        }
    }
}

/// The scene shown for one companion state.
#[derive(Debug)]
pub struct SceneDef {
    /// The state it is shown for.
    pub id: CompanionState,
    /// Background colour.
    pub background: Rgb565,
    /// Frames per second.
    pub fps: u8,
    /// Frames in one loop of the scene.
    pub frame_count: u16,
    /// Its layers, bottom first.
    pub layers: Vec<LayerDef>,
}

/// A scene as the contracts read it.
pub struct SceneView {
    /// The state it is shown for.
    pub id: CompanionState,
    /// Background colour.
    pub background: Rgb565,
    /// Frames per second.
    pub fps: u8,
    /// Frames in one loop of the scene.
    pub frame_count: u16,
    /// Its layers, bottom first.
    pub layers: Seq<LayerView>,
}

impl SceneDef {
    /// The scene as the contracts read it.
    pub open spec fn view(&self) -> SceneView {
        SceneView {
            id: self.id,
            background: self.background,
            fps: self.fps,
            frame_count: self.frame_count,
            layers: self.layers@.map_values(|l: LayerDef| l.view()),
        }
    }
}

/// A sprite layer that shows frame 0 of `asset` at `origin`, visible from the start.
pub open spec fn sprite_layer_spec(role: LayerRole, asset: u16, size: Size, origin: Point) -> LayerView {
    LayerView {
        role,
        kind: LayerKind::Sprite { asset, frame_size: size },
        origin,
        keyframes: seq![Keyframe { at_ms: 0, offset: Point { x: 0, y: 0 }, sprite_frame: 0, visible: true }],
    }
}

/// The mascot scene of `state`: a 120-frame, 30 fps loop on a dark background, with the body,
/// the cap over it, two eyes and the mouth as sprite layers, bottom first.
pub open spec fn mascot_scene_spec(
    state: CompanionState,
    body: u16,
    cap: u16,
    eyes: u16,
    mouth: u16,
) -> SceneView {
    SceneView {
        id: state,
        background: Rgb565(rgb565_of(10, 14, 24)),
        fps: 30,
        frame_count: 120,
        layers: seq![
            sprite_layer_spec(LayerRole::Body, body, Size { w: 152, h: 118 }, Point { x: 44, y: 88 }),
            sprite_layer_spec(LayerRole::Cap, cap, Size { w: 156, h: 112 }, Point { x: 42, y: 56 }),
            sprite_layer_spec(LayerRole::Eyes, eyes, Size { w: 32, h: 40 }, Point { x: 88, y: 96 }),
            sprite_layer_spec(LayerRole::Eyes, eyes, Size { w: 32, h: 40 }, Point { x: 120, y: 96 }),
            sprite_layer_spec(LayerRole::Mouth, mouth, Size { w: 24, h: 11 }, Point { x: 108, y: 139 }),
        ],
    }
}

/// A still scene of `id`: one full-frame opaque sprite layer of `asset` over `background`, at one
/// frame per second.
pub open spec fn full_sprite_scene_spec(id: CompanionState, background: Rgb565, asset: u16) -> SceneView {
    SceneView {
        id,
        background,
        fps: 1,
        frame_count: 1,
        layers: seq![
            sprite_layer_spec(LayerRole::Static, asset, Size { w: 240, h: 240 }, Point { x: 0, y: 0 }),
        ],
    }
}

/// A sprite layer that shows frame 0 of `asset` at `origin`, visible from the start.
fn sprite_layer(role: LayerRole, asset: u16, size: Size, origin: Point) -> (l: LayerDef)
    ensures
        l.view() == sprite_layer_spec(role, asset, size, origin),
{
    let mut keyframes: Vec<Keyframe> = Vec::new();
    keyframes.push(Keyframe { at_ms: 0, offset: Point { x: 0, y: 0 }, sprite_frame: 0, visible: true });
    let l = LayerDef { role, kind: LayerKind::Sprite { asset, frame_size: size }, origin, keyframes };
    proof {
        assert(l.view().keyframes =~= sprite_layer_spec(role, asset, size, origin).keyframes);
    }
    l
}

/// Side of the full frame layers are rendered at before cropping.
pub const DIM: u16 = 240;

/// Rows `y .. y + h` of a row-major buffer with `stride` bytes per row, each row cut to the
/// bytes `x .. x + w`, concatenated.
pub open spec fn crop_spec(src: Seq<u8>, stride: int, x: int, y: int, w: int, h: nat) -> Seq<u8>
    decreases h,
{
    if h == 0 {
        Seq::empty()
    } else {
        let row = y + h - 1;
        crop_spec(src, stride, x, y, w, (h - 1) as nat) + src.subrange(
            row * stride + x,
            row * stride + x + w,
        )
    }
}

/// The bytes of rows `y .. y + h`, columns `x .. x + w` (in bytes) of `src`, row by row.
fn crop_bytes(src: &[u8], stride: usize, x: usize, y: usize, w: usize, h: usize) -> (out: Vec<u8>)
    requires
        0 < stride,
        x + w <= stride,
        (y + h) * stride <= src@.len(),
    ensures
        out@ == crop_spec(src@, stride as int, x as int, y as int, w as int, h as nat),
{
    let len = src.len();
    assert(y + h <= (y + h) * stride) by (nonlinear_arith)
        requires
            0 < stride,
            0 <= y + h,
    ;
    let mut out: Vec<u8> = Vec::new();
    let mut r: usize = 0;
    while r < h
        invariant
            r <= h,
            0 < stride,
            len == src@.len(),
            y + h <= len,
            x + w <= stride,
            (y + h) * stride <= src@.len(),
            out@ == crop_spec(src@, stride as int, x as int, y as int, w as int, r as nat),
        decreases h - r,
    {
        let row = y + r;
        assert((row + 1) * stride <= (y + h) * stride) by (nonlinear_arith)
            requires
                row + 1 <= y + h,
                0 <= stride,
        ;
        assert((row + 1) * stride == row * stride + stride) by (nonlinear_arith);
        assert(row * stride + x + w <= len);
        let start = row * stride + x;
        let mut c: usize = 0;
        let ghost before = out@;
        while c < w
            invariant
                c <= w,
                start == row * stride + x,
                len == src@.len(),
                start + w <= src@.len(),
                out@ == before + src@.subrange(start as int, start + c),
            decreases w - c,
        {
            out.push(src[start + c]);
            c = c + 1;
            proof {
                assert(out@ =~= before + src@.subrange(start as int, start + c));
            }
        }
        r = r + 1;
    }
    out
}

/// Cuts the `w x h` window at `(x, y)` out of a full `DIM x DIM` layer: its RGB565 pixels (two
/// bytes each) and its 8-bit alpha (one byte each), row by row.
pub fn crop_layer(pixels: &[u8], alpha: &[u8], x: u16, y: u16, w: u16, h: u16) -> (out: (
    Vec<u8>,
    Vec<u8>,
))
    requires
        pixels@.len() == DIM * DIM * 2,
        alpha@.len() == DIM * DIM,
        x + w <= DIM,
        y + h <= DIM,
    ensures
        out.0@ == crop_spec(pixels@, DIM * 2, x * 2, y as int, w * 2, h as nat),
        out.1@ == crop_spec(alpha@, DIM as int, x as int, y as int, w as int, h as nat),
{
    let x = x as usize;
    let y = y as usize;
    let w = w as usize;
    let h = h as usize;
    assert((y + h) * 480 <= 240 * 240 * 2) by (nonlinear_arith)
        requires
            y + h <= 240,
    ;
    assert((y + h) * 240 <= 240 * 240) by (nonlinear_arith)
        requires
            y + h <= 240,
    ;
    let cropped = crop_bytes(pixels, 480, x * 2, y, w * 2, h);
    let cropped_alpha = crop_bytes(alpha, 240, x, y, w, h);
    (cropped, cropped_alpha)
}

/// Whether `open` and `close` delimit the definitions block of an SVG source: the first
/// `<defs>`, and the first `</defs>` after it.
pub open spec fn defs_block(source: Seq<char>, open: int, close: int) -> bool {
    &&& first_occurrence(source, "<defs>"@, 0, open)
    &&& first_occurrence(source, "</defs>"@, open + "<defs>"@.len(), close)
}

/// A full-frame SVG holding the definitions `defs` and showing only the element `id`.
pub open spec fn layer_svg_spec(defs: Seq<char>, id: Seq<char>) -> Seq<char> {
    "<svg xmlns=\"http://www.w3.org/2000/svg\" width=\"240\" height=\"240\" viewBox=\"0 0 240 240\"><defs>"@
        + defs + "</defs><use href=\"#"@ + id + "\"/></svg>"@
}

/// The SVG of one layer of a multi-layer `source`: the source's definitions block and a use of
/// the element `id`, on a full frame. The source must have a definitions block.
pub fn layer_svg(source: &str, id: &str) -> (svg: String)
    requires
        exists|open: int, close: int| defs_block(source@, open, close),
    ensures
        exists|open: int, close: int|
            defs_block(source@, open, close) && svg@ == layer_svg_spec(
                source@.subrange(open + "<defs>"@.len(), close),
                id@,
            ),
{
    let text = collect_chars(source);
    let open_tag = collect_chars("<defs>");
    let close_tag = collect_chars("</defs>");
    let open = match find_from(text.as_slice(), open_tag.as_slice(), 0) {
        Some(at) => at,
        None => {
            proof {
                let (o, c) = choose|o: int, c: int| defs_block(source@, o, c);
                assert(occurs_at(text@, open_tag@, o));
            }
            return String::new();
        },
    };
    let n = text.len();
    assert(open + open_tag@.len() <= n);
    let start = open + open_tag.len();
    let close = match find_from(text.as_slice(), close_tag.as_slice(), start) {
        Some(at) => at,
        None => {
            proof {
                let (o, c) = choose|o: int, c: int| defs_block(source@, o, c);
                if o < open {
                    assert(!occurs_at(text@, open_tag@, o));
                } else if open < o {
                    assert(!occurs_at(text@, open_tag@, open as int));
                }
                assert(occurs_at(text@, close_tag@, c));
            }
            return String::new();
        },
    };
    let defs = vstd::slice::slice_subrange(text.as_slice(), start, close);
    let mut svg = String::from_str(
        "<svg xmlns=\"http://www.w3.org/2000/svg\" width=\"240\" height=\"240\" viewBox=\"0 0 240 240\"><defs>",
    );
    push_chars(&mut svg, defs);
    svg.append("</defs><use href=\"#");
    svg.append(id);
    svg.append("\"/></svg>");
    proof {
        assert(defs_block(source@, open as int, close as int));
    }
    svg
}

/// The bytes a pool range holds.
pub open spec fn slice_of(pool: Seq<u8>, r: PoolRef) -> Seq<u8> {
    pool.subrange(r.offset as int, r.offset + r.len)
}

/// Whether a pool range lies inside the pool.
pub open spec fn in_pool(pool: Seq<u8>, r: PoolRef) -> bool {
    r.offset + r.len <= pool.len()
}

/// Whether entry `e` stores exactly this bitmap.
pub open spec fn entry_matches(
    pool: Seq<u8>,
    e: BitmapEntry,
    size: Size,
    frames: u16,
    pixels: Seq<u8>,
    alpha: Option<Seq<u8>>,
) -> bool {
    &&& e.size == size
    &&& e.frames == frames
    &&& slice_of(pool, e.data) == pixels
    &&& match (e.alpha, alpha) {
        (None, None) => true,
        (Some(r), Some(a)) => slice_of(pool, r) == a,
        _ => false,
    }
}

/// The 4-bit sample of an 8-bit alpha value.
pub open spec fn nibble(a: u8) -> u8 {
    a / 17
}

/// Packed alpha: byte `k` holds sample `2k` in its low nibble and sample `2k + 1` (if any) in
/// its high nibble.
pub open spec fn packed_spec(alpha: Seq<u8>) -> Seq<u8> {
    Seq::new(
        ((alpha.len() + 1) / 2) as nat,
        |k: int|
            if 2 * k + 1 < alpha.len() {
                (nibble(alpha[2 * k]) + 16 * nibble(alpha[2 * k + 1])) as u8
            } else {
                nibble(alpha[2 * k])
            },
    )
}

/// Packs 8-bit alpha samples two per byte, even pixels low, odd pixels high.
pub fn pack_alpha(alpha: &[u8]) -> (packed: Vec<u8>)
    ensures
        packed@ == packed_spec(alpha@),
{
    let n = alpha.len();
    let mut packed: Vec<u8> = Vec::new();
    let mut k: usize = 0;
    while k < n / 2 + n % 2
        invariant
            n == alpha@.len(),
            k <= n / 2 + n % 2,
            packed@ == packed_spec(alpha@).take(k as int),
        decreases n / 2 + n % 2 - k,
    {
        let lo = alpha[2 * k] / 17;
        let byte = if 2 * k + 1 < n {
            let hi = alpha[2 * k + 1] / 17;
            assert(lo < 16 && hi < 16 ==> lo | (hi << 4u8) == lo + 16 * hi) by (bit_vector);
            lo | (hi << 4)
        } else {
            lo
        };
        packed.push(byte);
        k = k + 1;
        proof {
            assert(packed@ =~= packed_spec(alpha@).take(k as int));
        }
    }
    proof {
        assert(packed@ =~= packed_spec(alpha@));
    }
    packed
}

/// The builder's logical state.
pub struct BuilderState {
    /// The device profile the blob is for.
    pub profile: DeviceProfile,
    /// The byte pool.
    pub pool: Seq<u8>,
    /// The bitmap table.
    pub bitmaps: Seq<BitmapEntry>,
}

/// Whether `id` is the first table entry storing this bitmap.
pub open spec fn first_match(
    s: BuilderState,
    size: Size,
    frames: u16,
    pixels: Seq<u8>,
    alpha: Option<Seq<u8>>,
    id: int,
) -> bool {
    &&& 0 <= id < s.bitmaps.len()
    &&& entry_matches(s.pool, s.bitmaps[id], size, frames, pixels, alpha)
    &&& forall|j: int|
        0 <= j < id ==> !entry_matches(s.pool, #[trigger] s.bitmaps[j], size, frames, pixels, alpha)
}

/// Whether the table already stores this bitmap.
pub open spec fn has_match(
    s: BuilderState,
    size: Size,
    frames: u16,
    pixels: Seq<u8>,
    alpha: Option<Seq<u8>>,
) -> bool {
    exists|j: int|
        0 <= j < s.bitmaps.len() && entry_matches(
            s.pool,
            #[trigger] s.bitmaps[j],
            size,
            frames,
            pixels,
            alpha,
        )
}

/// The state after storing a new bitmap: pixels then alpha appended to the pool, and the entry
/// appended to the table.
pub open spec fn stored(
    s: BuilderState,
    size: Size,
    frames: u16,
    pixels: Seq<u8>,
    alpha: Option<Seq<u8>>,
) -> BuilderState {
    let data = PoolRef { offset: s.pool.len() as u32, len: pixels.len() as u32 };
    let pool1 = s.pool + pixels;
    match alpha {
        Some(a) => BuilderState {
            pool: pool1 + a,
            bitmaps: s.bitmaps.push(
                BitmapEntry {
                    size,
                    frames,
                    data,
                    alpha: Some(PoolRef { offset: pool1.len() as u32, len: a.len() as u32 }),
                },
            ),
            ..s
        },
        None => BuilderState {
            pool: pool1,
            bitmaps: s.bitmaps.push(BitmapEntry { size, frames, data, alpha: None }),
            ..s
        },
    }
}

/// Assembles the bitmap table and pool of a compiled asset blob.
pub struct BlobBuilder {
    profile: DeviceProfile,
    pool: Vec<u8>,
    bitmaps: Vec<BitmapEntry>,
    scenes: Vec<SceneDef>,
}

/// Every table entry points inside the pool, and the pool is addressable with 32 bits.
pub open spec fn table_sound(s: BuilderState) -> bool {
    &&& s.pool.len() <= u32::MAX
    &&& forall|i: int|
        0 <= i < s.bitmaps.len() ==> in_pool(s.pool, (#[trigger] s.bitmaps[i]).data) && match s.bitmaps[i].alpha {
            Some(r) => in_pool(s.pool, r),
            None => true,
        }
}

impl BlobBuilder {
    /// The logical state.
    pub closed spec fn view(&self) -> BuilderState {
        BuilderState { profile: self.profile, pool: self.pool@, bitmaps: self.bitmaps@ }
    }

    /// The scenes added so far, in order.
    pub closed spec fn scenes_spec(&self) -> Seq<SceneView> {
        self.scenes@.map_values(|d: SceneDef| d.view())
    }

    /// Every table entry points inside the pool.
    pub closed spec fn wf(&self) -> bool {
        table_sound(self.view())
    }

    /// An empty builder for `profile`.
    pub fn new(profile: DeviceProfile) -> (b: Self)
        ensures
            b@ == (BuilderState { profile, pool: Seq::empty(), bitmaps: Seq::empty() }),
            b.scenes_spec() == Seq::<SceneView>::empty(),
            b.wf(),
    {
        BlobBuilder { profile, pool: Vec::new(), bitmaps: Vec::new(), scenes: Vec::new() }
    }

    /// The number of bitmaps in the table.
    pub fn bitmap_count(&self) -> (n: usize)
        ensures
            n == self@.bitmaps.len(),
    {
        self.bitmaps.len()
    }

    /// The table entry of bitmap `id`.
    pub fn bitmap(&self, id: u16) -> (e: Option<BitmapEntry>)
        ensures
            (id as int) < self@.bitmaps.len() ==> e == Some(self@.bitmaps[id as int]),
            (id as int) >= self@.bitmaps.len() ==> e is None,
    {
        if (id as usize) < self.bitmaps.len() {
            Some(self.bitmaps[id as usize])
        } else {
            None
        }
    }

    /// The bytes of a pool range of this builder's table.
    pub fn pool_slice(&self, r: PoolRef) -> (bytes: Vec<u8>)
        requires
            in_pool(self@.pool, r),
        ensures
            bytes@ == slice_of(self@.pool, r),
    {
        let n = self.pool.len();
        let start = r.offset as usize;
        let end = r.offset as usize + r.len as usize;
        let mut out: Vec<u8> = Vec::new();
        let mut i = start;
        while i < end
            invariant
                start <= i <= end,
                end <= self.pool@.len(),
                out@ == self.pool@.subrange(start as int, i as int),
            decreases end - i,
        {
            out.push(self.pool[i]);
            i = i + 1;
            proof {
                assert(out@ =~= self.pool@.subrange(start as int, i as int));
            }
        }
        out
    }

    /// The packed alpha of bitmap `id`, if it is a masked bitmap of the table.
    pub fn bitmap_alpha(&self, id: u16) -> (a: Option<Vec<u8>>)
        requires
            self.wf(),
        ensures
            match a {
                Some(bytes) => (id as int) < self@.bitmaps.len() && (self@.bitmaps[id as int].alpha
                    matches Some(r) && bytes@ == slice_of(self@.pool, r)),
                None => (id as int) >= self@.bitmaps.len() || self@.bitmaps[id as int].alpha is None,
            },
    {
        if (id as usize) >= self.bitmaps.len() {
            return None;
        }
        match self.bitmaps[id as usize].alpha {
            Some(r) => Some(self.pool_slice(r)),
            None => None,
        }
    }

    /// Whether the pool range `r` holds exactly `bytes`.
    fn pool_equals(&self, r: PoolRef, bytes: &[u8]) -> (b: bool)
        requires
            in_pool(self@.pool, r),
        ensures
            b == (slice_of(self@.pool, r) == bytes@),
    {
        let n = self.pool.len();
        if r.len as usize != bytes.len() {
            return false;
        }
        let start = r.offset as usize;
        let mut i: usize = 0;
        while i < bytes.len()
            invariant
                i <= bytes@.len(),
                r.len == bytes@.len(),
                start == r.offset,
                start + bytes@.len() <= self.pool@.len(),
                self.pool@.len() == n,
                forall|k: int| 0 <= k < i ==> self.pool@[start + k] == bytes@[k],
            decreases bytes@.len() - i,
        {
            if self.pool[start + i] != bytes[i] {
                proof {
                    assert(slice_of(self@.pool, r)[i as int] != bytes@[i as int]);
                }
                return false;
            }
            i = i + 1;
        }
        proof {
            assert(slice_of(self@.pool, r) =~= bytes@);
        }
        true
    }

    /// Appends `bytes` to the pool.
    fn push_pool(&mut self, bytes: &[u8]) -> (r: PoolRef)
        requires
            old(self).wf(),
            old(self)@.pool.len() + bytes@.len() <= u32::MAX,
        ensures
            r == (PoolRef { offset: old(self)@.pool.len() as u32, len: bytes@.len() as u32 }),
            final(self)@ == (BuilderState { pool: old(self)@.pool + bytes@, ..old(self)@ }),
            final(self).wf(),
            final(self).scenes_spec() == old(self).scenes_spec(),
    {
        let offset = self.pool.len() as u32;
        let mut pool: Vec<u8> = Vec::new();
        std::mem::swap(&mut pool, &mut self.pool);
        let ghost start = pool@;
        let mut i: usize = 0;
        while i < bytes.len()
            invariant
                i <= bytes@.len(),
                pool@ == start + bytes@.take(i as int),
            decreases bytes@.len() - i,
        {
            pool.push(bytes[i]);
            i = i + 1;
            proof {
                assert(pool@ =~= start + bytes@.take(i as int));
            }
        }
        proof {
            assert(pool@ =~= start + bytes@);
            assert forall|k: int| 0 <= k < self.bitmaps@.len() implies in_pool(
                pool@,
                (#[trigger] self.bitmaps@[k]).data,
            ) && match self.bitmaps@[k].alpha {
                Some(r) => in_pool(pool@, r),
                None => true,
            } by {}
        }
        self.pool = pool;
        PoolRef { offset, len: bytes.len() as u32 }
    }

    fn add_bitmap_inner(
        &mut self,
        size: Size,
        frames: u16,
        pixels: &[u8],
        alpha: Option<&[u8]>,
    ) -> (id: u16)
        requires
            old(self).wf(),
            old(self)@.bitmaps.len() < 0x1_0000,
            old(self)@.pool.len() + pixels@.len() + match alpha {
                Some(a) => a@.len() as int,
                None => 0int,
            } <= u32::MAX,
        ensures
            final(self).scenes_spec() == old(self).scenes_spec(),
            ({
                let a = match alpha {
                    Some(a) => Some(a@),
                    None => None::<Seq<u8>>,
                };
                &&& final(self).wf()
                &&& if has_match(old(self)@, size, frames, pixels@, a) {
                    &&& first_match(old(self)@, size, frames, pixels@, a, id as int)
                    &&& final(self)@ == old(self)@
                } else {
                    &&& id == old(self)@.bitmaps.len()
                    &&& final(self)@ == stored(old(self)@, size, frames, pixels@, a)
                }
            }),
    {
        let ghost a = match alpha {
            Some(a) => Some(a@),
            None => None::<Seq<u8>>,
        };
        let mut i: usize = 0;
        while i < self.bitmaps.len()
            invariant
                i <= self@.bitmaps.len(),
                self@ == old(self)@,
                self@.bitmaps.len() < 0x1_0000,
                table_sound(self@),
                a == match alpha {
                    Some(x) => Some(x@),
                    None => None::<Seq<u8>>,
                },
                forall|j: int|
                    0 <= j < i ==> !entry_matches(
                        self@.pool,
                        #[trigger] self@.bitmaps[j],
                        size,
                        frames,
                        pixels@,
                        a,
                    ),
            decreases self@.bitmaps.len() - i,
        {
            let entry = self.bitmaps[i];
            let shape = entry.size == size && entry.frames == frames && entry.alpha.is_some()
                == alpha.is_some();
            if shape && self.pool_equals(entry.data, pixels) {
                let alpha_same = match (entry.alpha, alpha) {
                    (None, None) => true,
                    (Some(r), Some(x)) => self.pool_equals(r, x),
                    _ => false,
                };
                if alpha_same {
                    return i as u16;
                }
            }
            i = i + 1;
        }
        let data = self.push_pool(pixels);
        let alpha_ref = match alpha {
            Some(x) => Some(self.push_pool(x)),
            None => None,
        };
        let id = self.bitmaps.len() as u16;
        let ghost before = self.bitmaps@;
        let mut table: Vec<BitmapEntry> = Vec::new();
        std::mem::swap(&mut table, &mut self.bitmaps);
        table.push(BitmapEntry { size, frames, data, alpha: alpha_ref });
        self.bitmaps = table;
        proof {
            assert(self@.bitmaps =~= before.push(BitmapEntry { size, frames, data, alpha: alpha_ref }));
            assert(self@.pool =~= match a {
                Some(x) => old(self)@.pool + pixels@ + x,
                None => old(self)@.pool + pixels@,
            });
        }
        id
    }

    /// Adds an opaque RGB565 bitmap, returning its deduplicated id.
    pub fn add_bitmap(&mut self, size: Size, frames: u16, pixels: &[u8]) -> (id: u16)
        requires
            old(self).wf(),
            old(self)@.bitmaps.len() < 0x1_0000,
            old(self)@.pool.len() + pixels@.len() <= u32::MAX,
        ensures
            final(self).scenes_spec() == old(self).scenes_spec(),
            final(self).wf(),
            if has_match(old(self)@, size, frames, pixels@, None) {
                &&& first_match(old(self)@, size, frames, pixels@, None, id as int)
                &&& final(self)@ == old(self)@
            } else {
                &&& id == old(self)@.bitmaps.len()
                &&& final(self)@ == stored(old(self)@, size, frames, pixels@, None)
            },
    {
        self.add_bitmap_inner(size, frames, pixels, None)
    }

    /// Adds RGB565 bytes with one 8-bit alpha sample per pixel, returning the deduplicated id.
    /// The alpha is stored packed two samples per byte.
    pub fn add_masked_bitmap(&mut self, size: Size, frames: u16, pixels: &[u8], alpha: &[u8]) -> (id:
        u16)
        requires
            old(self).wf(),
            pixels@.len() == size.w * size.h * frames * 2,
            alpha@.len() == pixels@.len() / 2,
            old(self)@.bitmaps.len() < 0x1_0000,
            old(self)@.pool.len() + pixels@.len() + (alpha@.len() + 1) / 2 <= u32::MAX,
        ensures
            final(self).scenes_spec() == old(self).scenes_spec(),
            final(self).wf(),
            if has_match(old(self)@, size, frames, pixels@, Some(packed_spec(alpha@))) {
                &&& first_match(
                    old(self)@,
                    size,
                    frames,
                    pixels@,
                    Some(packed_spec(alpha@)),
                    id as int,
                )
                &&& final(self)@ == old(self)@
            } else {
                &&& id == old(self)@.bitmaps.len()
                &&& final(self)@ == stored(old(self)@, size, frames, pixels@, Some(packed_spec(alpha@)))
            },
    {
        let packed = pack_alpha(alpha);
        self.add_bitmap_inner(size, frames, pixels, Some(packed.as_slice()))
    }
}

/// Appending to the pool leaves every range already inside it unchanged.
pub proof fn lemma_slices_survive_extension(pool: Seq<u8>, ext: Seq<u8>, r: PoolRef)
    requires
        in_pool(pool, r),
    ensures
        slice_of(pool + ext, r) == slice_of(pool, r),
{
    assert(slice_of(pool + ext, r) =~= slice_of(pool, r));
}

/// Once a bitmap is stored, adding it again finds it at the id it was stored under: the
/// table never holds two copies of one bitmap.
pub proof fn law_dedup_is_idempotent(
    s: BuilderState,
    size: Size,
    frames: u16,
    pixels: Seq<u8>,
    alpha: Option<Seq<u8>>,
)
    requires
        table_sound(s),
        !has_match(s, size, frames, pixels, alpha),
        s.pool.len() + pixels.len() + match alpha {
            Some(a) => a.len() as int,
            None => 0int,
        } <= u32::MAX,
    ensures
        has_match(stored(s, size, frames, pixels, alpha), size, frames, pixels, alpha),
        first_match(
            stored(s, size, frames, pixels, alpha),
            size,
            frames,
            pixels,
            alpha,
            s.bitmaps.len() as int,
        ),
{
    let s2 = stored(s, size, frames, pixels, alpha);
    let n = s.bitmaps.len() as int;
    let pool1 = s.pool + pixels;
    assert(slice_of(s2.pool, s2.bitmaps[n].data) =~= pixels);
    match alpha {
        Some(a) => {
            assert(slice_of(s2.pool, PoolRef { offset: pool1.len() as u32, len: a.len() as u32 })
                =~= a);
        },
        None => {},
    }
    assert(entry_matches(s2.pool, s2.bitmaps[n], size, frames, pixels, alpha));
    assert forall|j: int| 0 <= j < n implies !entry_matches(
        s2.pool,
        #[trigger] s2.bitmaps[j],
        size,
        frames,
        pixels,
        alpha,
    ) by {
        let e = s.bitmaps[j];
        assert(s2.bitmaps[j] == e);
        assert(!entry_matches(s.pool, e, size, frames, pixels, alpha));
        let ext = s2.pool.subrange(s.pool.len() as int, s2.pool.len() as int);
        assert(s2.pool =~= s.pool + ext);
        lemma_slices_survive_extension(s.pool, ext, e.data);
        if let Some(r) = e.alpha {
            lemma_slices_survive_extension(s.pool, ext, r);
        }
    }
}

impl BlobBuilder {
    /// Adds a still scene of `id`: one full-frame opaque sprite layer of bitmap `asset` over
    /// `background`.
    pub fn add_full_sprite_scene(&mut self, id: CompanionState, background: Rgb565, asset: u16)
        requires
            old(self).wf(),
        ensures
            final(self).wf(),
            final(self)@ == old(self)@,
            final(self).scenes_spec() == old(self).scenes_spec().push(
                full_sprite_scene_spec(id, background, asset),
            ),
    {
        let mut layers: Vec<LayerDef> = Vec::new();
        layers.push(sprite_layer(LayerRole::Static, asset, Size { w: 240, h: 240 }, Point { x: 0, y: 0 }));
        let scene = SceneDef { id, background, fps: 1, frame_count: 1, layers };
        proof {
            assert(scene.view().layers =~= full_sprite_scene_spec(id, background, asset).layers);
        }
        let ghost before = self.scenes@;
        self.scenes.push(scene);
        proof {
            assert(self.scenes@.map_values(|d: SceneDef| d.view()) =~= before.map_values(
                |d: SceneDef| d.view(),
            ).push(full_sprite_scene_spec(id, background, asset)));
        }
    }

    /// Adds the mascot scene of `state`: the body, the cap over it, two eyes and the mouth, from
    /// bitmaps `body`, `cap`, `eyes` and `mouth`, as a 120-frame loop at 30 fps.
    pub fn add_mascot_scene(
        &mut self,
        state: CompanionState,
        body: u16,
        cap: u16,
        eyes: u16,
        mouth: u16,
    )
        requires
            old(self).wf(),
        ensures
            final(self).wf(),
            final(self)@ == old(self)@,
            final(self).scenes_spec() == old(self).scenes_spec().push(
                mascot_scene_spec(state, body, cap, eyes, mouth),
            ),
    {
        let mut layers: Vec<LayerDef> = Vec::new();
        layers.push(sprite_layer(LayerRole::Body, body, Size { w: 152, h: 118 }, Point { x: 44, y: 88 }));
        layers.push(sprite_layer(LayerRole::Cap, cap, Size { w: 156, h: 112 }, Point { x: 42, y: 56 }));
        layers.push(sprite_layer(LayerRole::Eyes, eyes, Size { w: 32, h: 40 }, Point { x: 88, y: 96 }));
        layers.push(sprite_layer(LayerRole::Eyes, eyes, Size { w: 32, h: 40 }, Point { x: 120, y: 96 }));
        layers.push(sprite_layer(LayerRole::Mouth, mouth, Size { w: 24, h: 11 }, Point { x: 108, y: 139 }));
        let background = Rgb565::from_rgb888(10, 14, 24);
        let scene = SceneDef { id: state, background, fps: 30, frame_count: 120, layers };
        proof {
            assert(scene.view().layers =~= mascot_scene_spec(state, body, cap, eyes, mouth).layers);
        }
        let ghost before = self.scenes@;
        self.scenes.push(scene);
        proof {
            assert(self.scenes@.map_values(|d: SceneDef| d.view()) =~= before.map_values(
                |d: SceneDef| d.view(),
            ).push(mascot_scene_spec(state, body, cap, eyes, mouth)));
        }
    }

    /// The scenes added so far, in order.
    pub fn scenes(&self) -> (s: &[SceneDef])
        ensures
            s@.map_values(|d: SceneDef| d.view()) == self.scenes_spec(),
    {
        self.scenes.as_slice()
    }
}

/// A crop of `h` rows of `w` bytes, within bounds, holds `w * h` bytes.
pub proof fn lemma_crop_len(src: Seq<u8>, stride: int, x: int, y: int, w: int, h: nat)
    requires
        0 <= x,
        0 <= w,
        0 <= y,
        x + w <= stride,
        (y + h) * stride <= src.len(),
    ensures
        crop_spec(src, stride, x, y, w, h).len() == w * h,
    decreases h,
{
    if h > 0 {
        let row = y + h - 1;
        assert((y + (h - 1)) * stride <= (y + h) * stride) by (nonlinear_arith)
            requires
                stride >= 0,
                h >= 1,
        ;
        assert(row * stride + x + w <= (y + h) * stride) by (nonlinear_arith)
            requires
                row == y + h - 1,
                x + w <= stride,
        ;
        assert(0 <= row * stride) by (nonlinear_arith)
            requires
                row >= 0,
                stride >= 0,
        ;
        lemma_crop_len(src, stride, x, y, w, (h - 1) as nat);
        let sub = src.subrange(row * stride + x, row * stride + x + w);
        assert(sub.len() == w);
        assert(crop_spec(src, stride, x, y, w, h) == crop_spec(src, stride, x, y, w, (h - 1) as nat)
            + sub);
        assert(w * (h - 1) + w == w * h) by (nonlinear_arith);
    } else {
        assert(w * h == 0) by (nonlinear_arith)
            requires
                h == 0,
        ;
    }
}

/// A full-frame layer: `DIM x DIM` RGB565 pixels (two bytes each) and one alpha byte each.
pub open spec fn full_layer(layer: (Seq<u8>, Seq<u8>)) -> bool {
    layer.0.len() == DIM * DIM * 2 && layer.1.len() == DIM * DIM
}

/// The bytes of rendered layers.
pub open spec fn layers_view(v: Seq<(Vec<u8>, Vec<u8>)>) -> Seq<(Seq<u8>, Seq<u8>)> {
    v.map_values(|l: (Vec<u8>, Vec<u8>)| (l.0@, l.1@))
}

/// The `w x h` window at `(x, y)` of a full-frame layer: its pixels and its alpha.
pub open spec fn layer_crop(layer: (Seq<u8>, Seq<u8>), x: int, y: int, w: int, h: nat) -> (
    Seq<u8>,
    Seq<u8>,
) {
    (
        crop_spec(layer.0, DIM * 2, x * 2, y, w * 2, h),
        crop_spec(layer.1, DIM as int, x, y, w, h),
    )
}

/// A sprite sheet: the same window of each layer in turn, stacked as frames, pixels and alpha
/// each concatenated in the layers' order.
pub open spec fn sheet_spec(layers: Seq<(Seq<u8>, Seq<u8>)>, x: int, y: int, w: int, h: nat) -> (
    Seq<u8>,
    Seq<u8>,
)
    decreases layers.len(),
{
    if layers.len() == 0 {
        (Seq::empty(), Seq::empty())
    } else {
        let before = sheet_spec(layers.drop_last(), x, y, w, h);
        let c = layer_crop(layers.last(), x, y, w, h);
        (before.0 + c.0, before.1 + c.1)
    }
}

/// The window of a full-frame layer has `w * h` pixels.
pub proof fn lemma_layer_crop_len(layer: (Seq<u8>, Seq<u8>), x: int, y: int, w: int, h: nat)
    requires
        full_layer(layer),
        0 <= x,
        0 <= w,
        0 <= y,
        x + w <= DIM,
        y + h <= DIM,
    ensures
        layer_crop(layer, x, y, w, h).0.len() == w * h * 2,
        layer_crop(layer, x, y, w, h).1.len() == w * h,
{
    assert((y + h) * (DIM * 2) <= DIM * DIM * 2) by (nonlinear_arith)
        requires
            y + h <= DIM,
            0 <= y + h,
    ;
    assert((y + h) * DIM <= DIM * DIM) by (nonlinear_arith)
        requires
            y + h <= DIM,
            0 <= y + h,
    ;
    lemma_crop_len(layer.0, DIM * 2, x * 2, y, w * 2, h);
    lemma_crop_len(layer.1, DIM as int, x, y, w, h);
    assert(w * 2 * h == w * h * 2) by (nonlinear_arith);
}

/// A sheet of `n` full-frame layers has `n` frames of `w * h` pixels.
pub proof fn lemma_sheet_len(layers: Seq<(Seq<u8>, Seq<u8>)>, x: int, y: int, w: int, h: nat)
    requires
        forall|i: int| 0 <= i < layers.len() ==> full_layer(#[trigger] layers[i]),
        0 <= x,
        0 <= w,
        0 <= y,
        x + w <= DIM,
        y + h <= DIM,
    ensures
        sheet_spec(layers, x, y, w, h).0.len() == w * h * layers.len() * 2,
        sheet_spec(layers, x, y, w, h).1.len() == w * h * layers.len(),
    decreases layers.len(),
{
    if layers.len() > 0 {
        let n = layers.len() - 1;
        assert(full_layer(layers[n as int]));
        lemma_sheet_len(layers.drop_last(), x, y, w, h);
        lemma_layer_crop_len(layers.last(), x, y, w, h);
        assert(w * h * n * 2 + w * h * 2 == w * h * (n + 1) * 2) by (nonlinear_arith);
        assert(w * h * n + w * h == w * h * (n + 1)) by (nonlinear_arith);
    }
}

/// Cuts the same window out of each full-frame layer and stacks the windows as the frames of
/// one sprite sheet, in the layers' order.
pub fn crop_sheet(layers: &Vec<(Vec<u8>, Vec<u8>)>, x: u16, y: u16, w: u16, h: u16) -> (sheet: (
    Vec<u8>,
    Vec<u8>,
))
    requires
        forall|i: int| 0 <= i < layers@.len() ==> full_layer(#[trigger] layers_view(layers@)[i]),
        x + w <= DIM,
        y + h <= DIM,
    ensures
        (sheet.0@, sheet.1@) == sheet_spec(
            layers_view(layers@),
            x as int,
            y as int,
            w as int,
            h as nat,
        ),
{
    let ghost all = layers_view(layers@);
    let mut pixels: Vec<u8> = Vec::new();
    let mut alpha: Vec<u8> = Vec::new();
    let mut i: usize = 0;
    while i < layers.len()
        invariant
            i <= layers@.len(),
            all == layers_view(layers@),
            forall|k: int| 0 <= k < layers@.len() ==> full_layer(#[trigger] all[k]),
            x + w <= DIM,
            y + h <= DIM,
            (pixels@, alpha@) == sheet_spec(
                all.take(i as int),
                x as int,
                y as int,
                w as int,
                h as nat,
            ),
        decreases layers@.len() - i,
    {
        assert(full_layer(all[i as int]));
        let (p, a) = crop_layer(layers[i].0.as_slice(), layers[i].1.as_slice(), x, y, w, h);
        let ghost before = (pixels@, alpha@);
        pixels.append(&mut p.clone());
        alpha.append(&mut a.clone());
        proof {
            assert(all.take(i + 1).drop_last() =~= all.take(i as int));
            assert(all.take(i + 1).last() == all[i as int]);
            assert(pixels@ =~= before.0 + p@);
            assert(alpha@ =~= before.1 + a@);
        }
        i = i + 1;
    }
    proof {
        assert(all.take(layers@.len() as int) =~= all);
    }
    (pixels, alpha)
}

/// Expression frames of the eye and of the mouth sheet.
pub const EXPRESSION_FRAMES: usize = 7;
/// The size budget of the compiled mascot pack: 128 KiB.
pub const MASCOT_PACK_BUDGET: usize = 131072;

/// The mascot's bitmap table, built on an empty builder for `profile`: the body, the cap, the
/// eye sheet and the mouth sheet, each cropped to its layer's window, stored in that order.
pub open spec fn mascot_table(
    profile: DeviceProfile,
    body: (Seq<u8>, Seq<u8>),
    cap: (Seq<u8>, Seq<u8>),
    eyes: Seq<(Seq<u8>, Seq<u8>)>,
    mouths: Seq<(Seq<u8>, Seq<u8>)>,
) -> BuilderState {
    let b = layer_crop(body, 44, 88, 152, 118);
    let c = layer_crop(cap, 42, 56, 156, 112);
    let e = sheet_spec(eyes, 88, 96, 32, 40);
    let m = sheet_spec(mouths, 108, 139, 24, 11);
    let s0 = BuilderState { profile, pool: Seq::empty(), bitmaps: Seq::empty() };
    let s1 = stored(s0, Size { w: 152, h: 118 }, 1, b.0, Some(packed_spec(b.1)));
    let s2 = stored(s1, Size { w: 156, h: 112 }, 1, c.0, Some(packed_spec(c.1)));
    let s3 = stored(s2, Size { w: 32, h: 40 }, 7, e.0, Some(packed_spec(e.1)));
    stored(s3, Size { w: 24, h: 11 }, 7, m.0, Some(packed_spec(m.1)))
}

/// The six mascot scenes, `booting` to `offline`, all over bitmaps 0 to 3 (body, cap, eyes,
/// mouth).
pub open spec fn mascot_scenes() -> Seq<SceneView> {
    seq![
        mascot_scene_spec(CompanionState::Booting, 0, 1, 2, 3),
        mascot_scene_spec(CompanionState::Idle, 0, 1, 2, 3),
        mascot_scene_spec(CompanionState::Happy, 0, 1, 2, 3),
        mascot_scene_spec(CompanionState::Busy, 0, 1, 2, 3),
        mascot_scene_spec(CompanionState::Sleeping, 0, 1, 2, 3),
        mascot_scene_spec(CompanionState::Offline, 0, 1, 2, 3),
    ]
}

/// Assembles the mascot pack from rendered full-frame layers: the body, the cap, and the eye
/// and mouth expressions in frame order. One body, one cap, one eye sheet and one mouth sheet
/// are shared by the six state scenes.
pub fn assemble_mascot_blob(
    profile: DeviceProfile,
    body: (Vec<u8>, Vec<u8>),
    cap: (Vec<u8>, Vec<u8>),
    eyes: Vec<(Vec<u8>, Vec<u8>)>,
    mouths: Vec<(Vec<u8>, Vec<u8>)>,
) -> (b: BlobBuilder)
    requires
        full_layer((body.0@, body.1@)),
        full_layer((cap.0@, cap.1@)),
        eyes@.len() == EXPRESSION_FRAMES,
        mouths@.len() == EXPRESSION_FRAMES,
        forall|i: int| 0 <= i < eyes@.len() ==> full_layer(#[trigger] layers_view(eyes@)[i]),
        forall|i: int| 0 <= i < mouths@.len() ==> full_layer(#[trigger] layers_view(mouths@)[i]),
    ensures
        b.wf(),
        b@ == mascot_table(
            profile,
            (body.0@, body.1@),
            (cap.0@, cap.1@),
            layers_view(eyes@),
            layers_view(mouths@),
        ),
        b.scenes_spec() == mascot_scenes(),
{
    let ghost bv = (body.0@, body.1@);
    let ghost cv = (cap.0@, cap.1@);
    proof {
        lemma_layer_crop_len(bv, 44, 88, 152, 118);
        lemma_layer_crop_len(cv, 42, 56, 156, 112);
        lemma_sheet_len(layers_view(eyes@), 88, 96, 32, 40);
        lemma_sheet_len(layers_view(mouths@), 108, 139, 24, 11);
    }
    let mut b = BlobBuilder::new(profile);
    let (bp, ba) = crop_layer(body.0.as_slice(), body.1.as_slice(), 44, 88, 152, 118);
    let body_id = b.add_masked_bitmap(Size { w: 152, h: 118 }, 1, bp.as_slice(), ba.as_slice());
    let (cp, ca) = crop_layer(cap.0.as_slice(), cap.1.as_slice(), 42, 56, 156, 112);
    assert(b@.bitmaps[0].size == Size { w: 152u16, h: 118u16 });
    assert(!has_match(b@, Size { w: 156, h: 112 }, 1, cp@, Some(packed_spec(ca@))));
    let cap_id = b.add_masked_bitmap(Size { w: 156, h: 112 }, 1, cp.as_slice(), ca.as_slice());
    let (ep, ea) = crop_sheet(&eyes, 88, 96, 32, 40);
    assert(b@.bitmaps[1].size == Size { w: 156u16, h: 112u16 });
    assert(!has_match(b@, Size { w: 32, h: 40 }, 7, ep@, Some(packed_spec(ea@))));
    let eyes_id = b.add_masked_bitmap(Size { w: 32, h: 40 }, 7, ep.as_slice(), ea.as_slice());
    let (mp, ma) = crop_sheet(&mouths, 108, 139, 24, 11);
    assert(b@.bitmaps[2].size == Size { w: 32u16, h: 40u16 });
    assert(!has_match(b@, Size { w: 24, h: 11 }, 7, mp@, Some(packed_spec(ma@))));
    let mouth_id = b.add_masked_bitmap(Size { w: 24, h: 11 }, 7, mp.as_slice(), ma.as_slice());
    b.add_mascot_scene(CompanionState::Booting, body_id, cap_id, eyes_id, mouth_id);
    b.add_mascot_scene(CompanionState::Idle, body_id, cap_id, eyes_id, mouth_id);
    b.add_mascot_scene(CompanionState::Happy, body_id, cap_id, eyes_id, mouth_id);
    b.add_mascot_scene(CompanionState::Busy, body_id, cap_id, eyes_id, mouth_id);
    b.add_mascot_scene(CompanionState::Sleeping, body_id, cap_id, eyes_id, mouth_id);
    b.add_mascot_scene(CompanionState::Offline, body_id, cap_id, eyes_id, mouth_id);
    assert(b.scenes_spec() =~= mascot_scenes());
    b
}

/// The little-endian bytes of a 16-bit value.
pub open spec fn le16(v: u16) -> Seq<u8> {
    seq![(v % 256) as u8, (v / 256) as u8]
}

/// The little-endian bytes of a 32-bit value.
pub open spec fn le32(v: u32) -> Seq<u8> {
    seq![(v % 256) as u8, ((v / 256) % 256) as u8, ((v / 65536) % 256) as u8, (v / 16777216) as u8]
}

/// The compiled blob: a 16-byte header (the format's magic number and version, two reserved
/// zero bytes, the manifest's length and the pool's length, all little-endian), then the
/// serialized manifest, then the pool.
pub open spec fn blob_spec(magic: u32, format_version: u16, manifest: Seq<u8>, pool: Seq<u8>) -> Seq<
    u8,
> {
    le32(magic) + le16(format_version) + le16(0) + le32(manifest.len() as u32) + le32(
        pool.len() as u32,
    ) + manifest + pool
}

/// Appends `bytes` to `out`.
fn push_bytes(out: &mut Vec<u8>, bytes: &[u8])
    ensures
        final(out)@ == old(out)@ + bytes@,
{
    let ghost start = out@;
    let mut i: usize = 0;
    while i < bytes.len()
        invariant
            i <= bytes@.len(),
            out@ == start + bytes@.take(i as int),
        decreases bytes@.len() - i,
    {
        out.push(bytes[i]);
        i = i + 1;
        proof {
            assert(out@ =~= start + bytes@.take(i as int));
        }
    }
    proof {
        assert(bytes@.take(bytes@.len() as int) =~= bytes@);
    }
}

/// Frames a compiled blob: header, serialized `manifest`, `pool`. `magic` and `format_version`
/// are the asset format's identifiers.
pub fn frame_blob(magic: u32, format_version: u16, manifest: &[u8], pool: &[u8]) -> (blob: Vec<u8>)
    requires
        manifest@.len() <= u32::MAX,
        pool@.len() <= u32::MAX,
    ensures
        blob@ == blob_spec(magic, format_version, manifest@, pool@),
{
    let m = manifest.len() as u32;
    let p = pool.len() as u32;
    let mut blob: Vec<u8> = Vec::new();
    blob.push((magic % 256) as u8);
    blob.push(((magic / 256) % 256) as u8);
    blob.push(((magic / 65536) % 256) as u8);
    blob.push((magic / 16777216) as u8);
    blob.push((format_version % 256) as u8);
    blob.push((format_version / 256) as u8);
    blob.push(0u8);
    blob.push(0u8);
    blob.push((m % 256) as u8);
    blob.push(((m / 256) % 256) as u8);
    blob.push(((m / 65536) % 256) as u8);
    blob.push((m / 16777216) as u8);
    blob.push((p % 256) as u8);
    blob.push(((p / 256) % 256) as u8);
    blob.push(((p / 65536) % 256) as u8);
    blob.push((p / 16777216) as u8);
    proof {
        assert(blob@ =~= le32(magic) + le16(format_version) + le16(0) + le32(m) + le32(p));
    }
    push_bytes(&mut blob, manifest);
    push_bytes(&mut blob, pool);
    blob
}

/// Whether a compiled mascot pack of `len` bytes fits the 128 KiB budget.
pub fn within_pack_budget(len: usize) -> (ok: bool)
    ensures
        ok == (len <= MASCOT_PACK_BUDGET),
{
    len <= MASCOT_PACK_BUDGET
}

impl BlobBuilder {
    /// The device profile the blob is for.
    pub fn profile(&self) -> (p: DeviceProfile)
        ensures
            p == self@.profile,
    {
        self.profile
    }

    /// The byte pool, which follows the manifest in the compiled blob.
    pub fn pool_bytes(&self) -> (p: &[u8])
        ensures
            p@ == self@.pool,
    {
        self.pool.as_slice()
    }
}

/// The SVG element ids of the mascot's layers, in the order [`assemble_mascot_blob`] takes
/// them: the body, the cap, then the eye and the mouth of each expression.
pub open spec fn mascot_layer_ids_spec() -> Seq<Seq<char>> {
    seq![
        "body"@,
        "cap"@,
        "eyes-booting"@,
        "eyes-idle"@,
        "eyes-happy"@,
        "eyes-busy"@,
        "eyes-sleeping"@,
        "eyes-offline"@,
        "eyes-affectionate"@,
        "mouth-booting"@,
        "mouth-idle"@,
        "mouth-happy"@,
        "mouth-busy"@,
        "mouth-sleeping"@,
        "mouth-offline"@,
        "mouth-laughing"@,
    ]
}

/// The SVG element ids of the mascot's layers: see [`mascot_layer_ids_spec`].
pub fn mascot_layer_ids() -> (ids: Vec<String>)
    ensures
        ids@.map_values(|s: String| s@) == mascot_layer_ids_spec(),
{
    let mut ids: Vec<String> = Vec::new();
    ids.push(String::from_str("body"));
    ids.push(String::from_str("cap"));
    ids.push(String::from_str("eyes-booting"));
    ids.push(String::from_str("eyes-idle"));
    ids.push(String::from_str("eyes-happy"));
    ids.push(String::from_str("eyes-busy"));
    ids.push(String::from_str("eyes-sleeping"));
    ids.push(String::from_str("eyes-offline"));
    ids.push(String::from_str("eyes-affectionate"));
    ids.push(String::from_str("mouth-booting"));
    ids.push(String::from_str("mouth-idle"));
    ids.push(String::from_str("mouth-happy"));
    ids.push(String::from_str("mouth-busy"));
    ids.push(String::from_str("mouth-sleeping"));
    ids.push(String::from_str("mouth-offline"));
    ids.push(String::from_str("mouth-laughing"));
    assert(ids@.map_values(|s: String| s@) =~= mascot_layer_ids_spec());
    ids
}

} // verus!
