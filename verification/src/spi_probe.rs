//! Accounting of the generic SPI / RGB565 tile-transfer probe.
//!
//! Counting happens at the bus boundary, so the numbers describe what the firmware genuinely
//! clocked out: transactions, bytes per phase (data while D/C is high, commands while it is
//! low), and level changes of D/C, CS and reset. The probe's tile stream is checked against the
//! exact, deterministic geometry and byte volume of a frame. Nothing here validates a panel
//! controller.

use crate::model::{Rect, Rgb565};
use crate::ports::DisplaySink;
use crate::render::{tile_rect, tile_rect_spec, TILE_COUNT, TILE_H, TILE_PIXELS, TILE_W};
use vstd::prelude::*;

verus! {

/// Bytes a single tile contributes to one frame: two address-window commands with four argument
/// bytes each, plus two bytes per RGB565 pixel.
pub const TILE_DATA_BYTES: u32 = 19208;
/// Data-phase bytes for one full frame.
pub const FRAME_DATA_BYTES: u32 = 115248;
/// Command-phase bytes for one full frame: column window, row window and memory write per tile.
pub const FRAME_COMMAND_BYTES: u32 = 18;

/// The frame byte volumes follow from the tile geometry.
pub proof fn law_frame_volumes()
    ensures
        TILE_DATA_BYTES == 4 + 4 + TILE_PIXELS * 2,
        FRAME_DATA_BYTES == TILE_DATA_BYTES * TILE_COUNT,
        FRAME_COMMAND_BYTES == 3 * TILE_COUNT,
{
}

/// Which line a counted pin drives.
#[derive(Debug, Clone, Copy, PartialEq, Eq, Structural)]
pub enum PinRole {
    /// Data/command select.
    Dc,
    /// Chip select.
    Cs,
    /// Panel reset.
    Reset,
}

/// The counters' logical state.
pub struct CounterState {
    /// Completed SPI transactions.
    pub transactions: u32,
    /// Bytes clocked while D/C was high.
    pub data_bytes: u32,
    /// Bytes clocked while D/C was low.
    pub command_bytes: u32,
    /// D/C level changes.
    pub dc_transitions: u32,
    /// CS level changes.
    pub cs_transitions: u32,
    /// Reset level changes.
    pub reset_transitions: u32,
    /// Current D/C level.
    pub dc_high: bool,
    /// Last CS level.
    pub cs_high: bool,
    /// Last reset level.
    pub reset_high: bool,
}

/// The counters after `role` was driven to `level`: a change of level is one transition.
pub open spec fn pin_spec(c: CounterState, role: PinRole, level: bool) -> CounterState {
    match role {
        PinRole::Dc => if c.dc_high != level {
            CounterState { dc_high: level, dc_transitions: (c.dc_transitions + 1) as u32, ..c }
        } else {
            c
        },
        PinRole::Cs => if c.cs_high != level {
            CounterState { cs_high: level, cs_transitions: (c.cs_transitions + 1) as u32, ..c }
        } else {
            c
        },
        PinRole::Reset => if c.reset_high != level {
            CounterState {
                reset_high: level,
                reset_transitions: (c.reset_transitions + 1) as u32,
                ..c
            }
        } else {
            c
        },
    }
}

/// The counters after one transaction writing `bytes` bytes, attributed to the D/C phase.
pub open spec fn transaction_spec(c: CounterState, bytes: u32) -> CounterState {
    if c.dc_high {
        CounterState {
            data_bytes: (c.data_bytes + bytes) as u32,
            transactions: (c.transactions + 1) as u32,
            ..c
        }
    } else {
        CounterState {
            command_bytes: (c.command_bytes + bytes) as u32,
            transactions: (c.transactions + 1) as u32,
            ..c
        }
    }
}

/// One event the counters observe: a pin driven to a level, or a transaction of some bytes.
#[derive(Debug, Clone, Copy, PartialEq, Eq, Structural)]
pub enum BusEvent {
    /// A pin driven to a level.
    Pin(PinRole, bool),
    /// A transaction writing this many bytes.
    Transaction(u32),
}

/// The counters after observing `events` in order.
pub open spec fn replay(c: CounterState, events: Seq<BusEvent>) -> CounterState
    decreases events.len(),
{
    if events.len() == 0 {
        c
    } else {
        let before = replay(c, events.drop_last());
        match events.last() {
            BusEvent::Pin(role, level) => pin_spec(before, role, level),
            BusEvent::Transaction(bytes) => transaction_spec(before, bytes),
        }
    }
}

/// The transactions among `events`.
pub open spec fn transaction_count(events: Seq<BusEvent>) -> nat
    decreases events.len(),
{
    if events.len() == 0 {
        0
    } else {
        transaction_count(events.drop_last()) + if events.last() is Transaction {
            1nat
        } else {
            0nat
        }
    }
}

/// The bytes the transactions among `events` wrote.
pub open spec fn transaction_bytes(events: Seq<BusEvent>) -> nat
    decreases events.len(),
{
    if events.len() == 0 {
        0
    } else {
        transaction_bytes(events.drop_last()) + match events.last() {
            BusEvent::Transaction(bytes) => bytes as nat,
            BusEvent::Pin(..) => 0nat,
        }
    }
}

/// Across any interleaving of pin changes and transactions, every transaction is counted once
/// and every byte it wrote is counted once, in the data or the command phase; pin changes touch
/// neither count (short of overflowing the counters).
pub proof fn law_counters_account_for_every_transaction(c: CounterState, events: Seq<BusEvent>)
    requires
        c.transactions + transaction_count(events) <= u32::MAX,
        c.data_bytes + c.command_bytes + transaction_bytes(events) <= u32::MAX,
    ensures
        replay(c, events).transactions == c.transactions + transaction_count(events),
        replay(c, events).data_bytes + replay(c, events).command_bytes == c.data_bytes
            + c.command_bytes + transaction_bytes(events),
        replay(c, events).data_bytes >= c.data_bytes,
        replay(c, events).command_bytes >= c.command_bytes,
    decreases events.len(),
{
    if events.len() > 0 {
        law_counters_account_for_every_transaction(c, events.drop_last());
    }
}

/// The D/C level after `events`, starting from `dc`: that of the last D/C change, if any.
pub open spec fn dc_level_after(dc: bool, events: Seq<BusEvent>) -> bool
    decreases events.len(),
{
    if events.len() == 0 {
        dc
    } else {
        match events.last() {
            BusEvent::Pin(PinRole::Dc, level) => level,
            _ => dc_level_after(dc, events.drop_last()),
        }
    }
}

/// The bytes of the transactions among `events` issued while D/C was at `high` (starting from
/// level `dc`).
pub open spec fn phase_bytes(dc: bool, events: Seq<BusEvent>, high: bool) -> nat
    decreases events.len(),
{
    if events.len() == 0 {
        0
    } else {
        phase_bytes(dc, events.drop_last(), high) + match events.last() {
            BusEvent::Transaction(bytes) => if dc_level_after(dc, events.drop_last()) == high {
                bytes as nat
            } else {
                0nat
            },
            BusEvent::Pin(..) => 0nat,
        }
    }
}

/// Across any interleaving, the data count grows by exactly the bytes of the transactions
/// issued while D/C was high, and the command count by those issued while it was low; the D/C
/// level the counters hold is that of the last D/C change (short of overflowing the counters).
pub proof fn law_bytes_follow_the_dc_phase(c: CounterState, events: Seq<BusEvent>)
    requires
        c.data_bytes + phase_bytes(c.dc_high, events, true) <= u32::MAX,
        c.command_bytes + phase_bytes(c.dc_high, events, false) <= u32::MAX,
        c.transactions + transaction_count(events) <= u32::MAX,
    ensures
        replay(c, events).data_bytes == c.data_bytes + phase_bytes(c.dc_high, events, true),
        replay(c, events).command_bytes == c.command_bytes + phase_bytes(c.dc_high, events, false),
        replay(c, events).dc_high == dc_level_after(c.dc_high, events),
    decreases events.len(),
{
    if events.len() > 0 {
        law_bytes_follow_the_dc_phase(c, events.drop_last());
    }
}

/// Bus-activity counters shared by the instrumented SPI device and pins.
#[derive(Debug)]
pub struct BusCounters {
    transactions: u32,
    data_bytes: u32,
    command_bytes: u32,
    dc_transitions: u32,
    cs_transitions: u32,
    reset_transitions: u32,
    dc_high: bool,
    cs_high: bool,
    reset_high: bool,
}

impl BusCounters {
    /// The logical state.
    pub closed spec fn view(&self) -> CounterState {
        CounterState {
            transactions: self.transactions,
            data_bytes: self.data_bytes,
            command_bytes: self.command_bytes,
            dc_transitions: self.dc_transitions,
            cs_transitions: self.cs_transitions,
            reset_transitions: self.reset_transitions,
            dc_high: self.dc_high,
            cs_high: self.cs_high,
            reset_high: self.reset_high,
        }
    }

    /// Fresh counters: D/C low (command phase), CS and reset idle high.
    pub fn new() -> (c: Self)
        ensures
            c@ == (CounterState {
                transactions: 0,
                data_bytes: 0,
                command_bytes: 0,
                dc_transitions: 0,
                cs_transitions: 0,
                reset_transitions: 0,
                dc_high: false,
                cs_high: true,
                reset_high: true,
            }),
    {
        BusCounters {
            transactions: 0,
            data_bytes: 0,
            command_bytes: 0,
            dc_transitions: 0,
            cs_transitions: 0,
            reset_transitions: 0,
            dc_high: false,
            cs_high: true,
            reset_high: true,
        }
    }

    /// Data-phase bytes counted so far.
    pub fn data_bytes(&self) -> (n: u32)
        ensures
            n == self@.data_bytes,
    {
        self.data_bytes
    }

    /// Command-phase bytes counted so far.
    pub fn command_bytes(&self) -> (n: u32)
        ensures
            n == self@.command_bytes,
    {
        self.command_bytes
    }

    /// Completed transactions so far.
    pub fn transactions(&self) -> (n: u32)
        ensures
            n == self@.transactions,
    {
        self.transactions
    }

    /// Whether D/C is high, so bytes now count as data.
    pub fn phase_is_data(&self) -> (b: bool)
        ensures
            b == self@.dc_high,
    {
        self.dc_high
    }

    /// Level changes of a line so far.
    pub fn transitions(&self, role: PinRole) -> (n: u32)
        ensures
            n == match role {
                PinRole::Dc => self@.dc_transitions,
                PinRole::Cs => self@.cs_transitions,
                PinRole::Reset => self@.reset_transitions,
            },
    {
        match role {
            PinRole::Dc => self.dc_transitions,
            PinRole::Cs => self.cs_transitions,
            PinRole::Reset => self.reset_transitions,
        }
    }

    /// Records that `role` was driven to `level`.
    pub fn note_level(&mut self, role: PinRole, level: bool)
        requires
            match role {
                PinRole::Dc => old(self)@.dc_transitions < u32::MAX,
                PinRole::Cs => old(self)@.cs_transitions < u32::MAX,
                PinRole::Reset => old(self)@.reset_transitions < u32::MAX,
            },
        ensures
            final(self)@ == pin_spec(old(self)@, role, level),
    {
        match role {
            PinRole::Dc => {
                if self.dc_high != level {
                    self.dc_high = level;
                    self.dc_transitions = self.dc_transitions + 1;
                }
            },
            PinRole::Cs => {
                if self.cs_high != level {
                    self.cs_high = level;
                    self.cs_transitions = self.cs_transitions + 1;
                }
            },
            PinRole::Reset => {
                if self.reset_high != level {
                    self.reset_high = level;
                    self.reset_transitions = self.reset_transitions + 1;
                }
            },
        }
    }

    /// Records one transaction writing `bytes` bytes, attributed to the current D/C phase.
    pub fn note_transaction(&mut self, bytes: u32)
        requires
            old(self)@.transactions < u32::MAX,
            old(self)@.dc_high ==> old(self)@.data_bytes + bytes <= u32::MAX,
            !old(self)@.dc_high ==> old(self)@.command_bytes + bytes <= u32::MAX,
        ensures
            final(self)@ == transaction_spec(old(self)@, bytes),
    {
        if self.dc_high {
            self.data_bytes = self.data_bytes + bytes;
        } else {
            self.command_bytes = self.command_bytes + bytes;
        }
        self.transactions = self.transactions + 1;
    }

    /// A real bring-up drove reset both ways, separated command from data with D/C, framed
    /// transactions with CS, and clocked at least one opcode.
    pub fn init_ok(&self) -> (ok: bool)
        ensures
            ok == (self@.reset_transitions >= 2 && self@.dc_transitions >= 2
                && self@.cs_transitions >= 2 && self@.command_bytes > 0),
    {
        self.reset_transitions >= 2 && self.dc_transitions >= 2 && self.cs_transitions >= 2
            && self.command_bytes > 0
    }
}

/// The tally of tile blits since the last reset.
pub struct TallyState {
    /// Tiles blitted.
    pub blits: u32,
    /// Pixels blitted.
    pub pixels: u32,
    /// Every tile so far went to its expected position with the expected size.
    pub geometry_ok: bool,
}

/// Whether blit number `index` of a frame is the expected tile.
pub open spec fn expected_tile(index: int, rect: Rect, pixel_count: int) -> bool {
    0 <= index < TILE_COUNT && rect == tile_rect_spec(index) && pixel_count == TILE_PIXELS
}

/// The tally after a blit of `pixel_count` pixels to `rect`.
pub open spec fn blit_spec(t: TallyState, rect: Rect, pixel_count: int) -> TallyState {
    if t.blits < u32::MAX && t.pixels + pixel_count <= u32::MAX {
        TallyState {
            blits: (t.blits + 1) as u32,
            pixels: (t.pixels + pixel_count) as u32,
            geometry_ok: t.geometry_ok && expected_tile(t.blits as int, rect, pixel_count),
        }
    } else {
        TallyState { blits: u32::MAX, pixels: u32::MAX, geometry_ok: false }
    }
}

/// Counts tile blits and pixels and checks each tile's position, so tile geometry can be
/// asserted without a second renderer.
pub struct TileTally {
    blits: u32,
    pixels: u32,
    geometry_ok: bool,
}

impl TileTally {
    /// The logical state.
    pub closed spec fn view(&self) -> TallyState {
        TallyState { blits: self.blits, pixels: self.pixels, geometry_ok: self.geometry_ok }
    }

    /// Nothing blitted yet.
    pub fn new() -> (t: Self)
        ensures
            t@ == (TallyState { blits: 0, pixels: 0, geometry_ok: true }),
    {
        TileTally { blits: 0, pixels: 0, geometry_ok: true }
    }

    /// Forgets the count, to measure the next frame alone.
    pub fn reset(&mut self)
        ensures
            final(self)@ == (TallyState { blits: 0, pixels: 0, geometry_ok: true }),
    {
        self.blits = 0;
        self.pixels = 0;
        self.geometry_ok = true;
    }

    /// Records a blit of `pixel_count` pixels to `rect`. Counts that would overflow stay at
    /// their maximum and mark the tally as not a clean frame.
    pub fn on_blit(&mut self, rect: Rect, pixel_count: usize)
        ensures
            final(self)@ == blit_spec(old(self)@, rect, pixel_count as int),
    {
        let tile = self.blits;
        let fits = if (tile as u64) < (TILE_COUNT as u64) {
            let expected = crate::render::tile_rect(tile as usize);
            rect == expected && pixel_count as u64 == TILE_PIXELS as u64
        } else {
            false
        };
        if self.blits == u32::MAX || pixel_count as u64 > (u32::MAX - self.pixels) as u64 {
            self.geometry_ok = false;
            self.blits = u32::MAX;
            self.pixels = u32::MAX;
            return ;
        }
        if !fits {
            self.geometry_ok = false;
        }
        self.blits = self.blits + 1;
        self.pixels = self.pixels + pixel_count as u32;
    }

    /// Whether the tally is one complete frame of correctly placed tiles.
    pub fn frame_ok(&self) -> (ok: bool)
        ensures
            ok == (self@.blits == TILE_COUNT && self@.pixels == TILE_COUNT * TILE_PIXELS
                && self@.geometry_ok),
    {
        self.blits as u64 == TILE_COUNT as u64 && self.pixels as u64 == (TILE_COUNT * TILE_PIXELS)
            as u64 && self.geometry_ok
    }

    /// Tiles blitted since the last reset.
    pub fn blits(&self) -> (n: u32)
        ensures
            n == self@.blits,
    {
        self.blits
    }
}

/// A [`DisplaySink`] decorator that tallies tile blits before delegating them.
pub struct CountingSink<S> {
    inner: S,
    tally: TileTally,
}

impl<S: DisplaySink> CountingSink<S> {
    /// The tally so far.
    pub closed spec fn tally_spec(&self) -> TallyState {
        self.tally@
    }

    /// Wraps `inner` with an empty tally.
    pub fn new(inner: S) -> (c: Self)
        ensures
            c.tally_spec() == (TallyState { blits: 0, pixels: 0, geometry_ok: true }),
            c.inner_spec() == inner,
    {
        CountingSink { inner, tally: TileTally::new() }
    }

    /// Forgets the tally, to measure the next frame alone.
    pub fn reset(&mut self)
        ensures
            final(self).tally_spec() == (TallyState { blits: 0, pixels: 0, geometry_ok: true }),
            final(self).inner_spec() == old(self).inner_spec(),
    {
        self.tally.reset();
    }

    /// Whether the tally is one complete frame of correctly placed tiles.
    pub fn frame_ok(&self) -> (ok: bool)
        ensures
            ok == (self.tally_spec().blits == TILE_COUNT && self.tally_spec().pixels == TILE_COUNT
                * TILE_PIXELS && self.tally_spec().geometry_ok),
    {
        self.tally.frame_ok()
    }

    /// Tiles blitted since the last reset.
    pub fn blits(&self) -> (n: u32)
        ensures
            n == self.tally_spec().blits,
    {
        self.tally.blits()
    }

    /// The wrapped sink.
    pub closed spec fn inner_spec(&self) -> S {
        self.inner
    }

    /// The wrapped sink.
    pub fn inner(&self) -> (s: &S)
        ensures
            *s == self.inner_spec(),
    {
        &self.inner
    }

    /// Gives the wrapped sink back.
    pub fn into_inner(self) -> (s: S)
        ensures
            s == self.inner_spec(),
    {
        self.inner
    }
}

impl<S: DisplaySink> DisplaySink for CountingSink<S> {
    type Error = S::Error;

    /// A counting sink keeps the log when the sink it wraps does.
    open spec fn keeps_log() -> bool {
        S::keeps_log()
    }

    /// What the wrapped sink was written.
    closed spec fn written(&self) -> Seq<(Rect, Seq<Rgb565>)> {
        self.inner.written()
    }

    /// Tallies the blit, then hands it to the wrapped sink.
    fn blit_tile(&mut self, rect: Rect, pixels: &[Rgb565]) -> (r: Result<(), S::Error>)
        ensures
            final(self).tally_spec() == blit_spec(old(self).tally_spec(), rect, pixels@.len() as int),
    {
        self.tally.on_blit(rect, pixels.len());
        self.inner.blit_tile(rect, pixels)
    }
}

/// How the probe fills each tile of a frame.
#[derive(Debug, Clone, Copy, PartialEq, Eq, Structural)]
pub enum FramePattern {
    /// Every pixel one raw RGB565 colour.
    Solid(u16),
    /// The 8x8 checkerboard of [`checker_at`].
    Checkerboard,
}

/// Blits a full frame tile by tile from `buf`, refilled for each tile with `pattern`. `true`
/// only if every blit succeeded and the tally shows exactly one frame of correctly placed
/// tiles; the first failed blit ends the frame.
pub fn blit_frame<S: DisplaySink>(
    sink: &mut CountingSink<S>,
    buf: &mut Vec<Rgb565>,
    pattern: FramePattern,
) -> (ok: bool)
    requires
        old(buf)@.len() == TILE_PIXELS,
    ensures
        final(buf)@.len() == TILE_PIXELS,
        final(sink).tally_spec().blits <= TILE_COUNT,
        ok ==> final(sink).tally_spec() == (TallyState {
            blits: TILE_COUNT as u32,
            pixels: (TILE_COUNT * TILE_PIXELS) as u32,
            geometry_ok: true,
        }),
        S::keeps_log() ==> ({
            let (before, after) = (old(sink).written(), final(sink).written());
            &&& before.len() <= after.len() <= before.len() + TILE_COUNT
            &&& after.take(before.len() as int) == before
            &&& forall|k: int|
                0 <= k < after.len() - before.len() ==> (#[trigger] after[before.len() + k]).0
                    == tile_rect_spec(k) && after[before.len() + k].1.len() == TILE_PIXELS
            &&& ok <==> after.len() == before.len() + TILE_COUNT
        }),
{
    sink.reset();
    let ghost before = old(sink).written();
    let mut tile: usize = 0;
    while tile < TILE_COUNT
        invariant
            tile <= TILE_COUNT,
            buf@.len() == TILE_PIXELS,
            sink.tally_spec() == (TallyState {
                blits: tile as u32,
                pixels: (tile * TILE_PIXELS) as u32,
                geometry_ok: true,
            }),
            before == old(sink).written(),
            S::keeps_log() ==> sink.written().len() == before.len() + tile,
            S::keeps_log() ==> sink.written().take(before.len() as int) == before,
            S::keeps_log() ==> forall|k: int|
                0 <= k < tile ==> (#[trigger] sink.written()[before.len() + k]).0
                    == tile_rect_spec(k) && sink.written()[before.len() + k].1.len()
                    == TILE_PIXELS,
        decreases TILE_COUNT - tile,
    {
        let rect = tile_rect(tile);
        match pattern {
            FramePattern::Solid(color) => fill_solid(buf, color),
            FramePattern::Checkerboard => fill_checkerboard(buf, rect.x, rect.y),
        }
        let ghost w0 = sink.written();
        if sink.blit_tile(rect, buf.as_slice()).is_err() {
            return false;
        }
        proof {
            if S::keeps_log() {
                let w1 = sink.written();
                assert(w1 == w0.push((rect, buf@)));
                assert(w1.take(before.len() as int) =~= before) by {
                    assert(w0.take(before.len() as int) == before);
                }
                assert forall|k: int| 0 <= k < tile + 1 implies (#[trigger] w1[before.len()
                    + k]).0 == tile_rect_spec(k) && w1[before.len() + k].1.len() == TILE_PIXELS by {
                    if k < tile {
                        assert(w1[before.len() + k] == w0[before.len() + k]);
                    }
                }
            }
        }
        tile = tile + 1;
    }
    sink.frame_ok()
}

/// Fills `buf` with a solid RGB565 colour.
pub fn fill_solid(buf: &mut Vec<Rgb565>, color: u16)
    ensures
        final(buf)@.len() == old(buf)@.len(),
        forall|i: int| 0 <= i < final(buf)@.len() ==> #[trigger] final(buf)@[i] == Rgb565(color),
{
    let n = buf.len();
    let mut i: usize = 0;
    while i < n
        invariant
            i <= n,
            buf@.len() == n,
            forall|k: int| 0 <= k < i ==> #[trigger] buf@[k] == Rgb565(color),
        decreases n - i,
    {
        buf.set(i, Rgb565::from_raw(color));
        i = i + 1;
    }
}

/// The checkerboard colour at panel position `(x, y)`: 8x8 squares, white where the square
/// coordinates sum to an even number.
pub open spec fn checker_at(x: int, y: int) -> Rgb565 {
    if (x / 8 + y / 8) % 2 == 0 {
        Rgb565(0xFFFF)
    } else {
        Rgb565(0x0000)
    }
}

/// Fills `buf` (one tile, row-major) with an 8x8 checkerboard, derived from the tile's origin.
pub fn fill_checkerboard(buf: &mut Vec<Rgb565>, tile_x: u16, tile_y: u16)
    requires
        old(buf)@.len() == TILE_PIXELS,
        tile_x + TILE_W <= u16::MAX,
        tile_y + TILE_H <= u16::MAX,
    ensures
        final(buf)@.len() == TILE_PIXELS,
        forall|i: int|
            0 <= i < TILE_PIXELS ==> #[trigger] final(buf)@[i] == checker_at(
                tile_x + i % (TILE_W as int),
                tile_y + i / (TILE_W as int),
            ),
{
    let mut i: usize = 0;
    while i < TILE_PIXELS
        invariant
            i <= TILE_PIXELS,
            buf@.len() == TILE_PIXELS,
            tile_x + TILE_W <= u16::MAX,
            tile_y + TILE_H <= u16::MAX,
            forall|k: int|
                0 <= k < i ==> #[trigger] buf@[k] == checker_at(
                    tile_x + k % (TILE_W as int),
                    tile_y + k / (TILE_W as int),
                ),
        decreases TILE_PIXELS - i,
    {
        let col: u16 = (i % (TILE_W as usize)) as u16;
        let row: u16 = (i / (TILE_W as usize)) as u16;
        assert(i / 240 < 40) by (nonlinear_arith)
            requires
                i < 9600,
        ;
        let x: u16 = tile_x + col;
        let y: u16 = tile_y + row;
        let on = ((x / 8) + (y / 8)) % 2 == 0;
        buf.set(i, Rgb565::from_raw(if on { 0xFFFF } else { 0x0000 }));
        i = i + 1;
    }
}

/// The marker text of one probe stage.
pub open spec fn stage_marker(ok: bool, stage: Seq<char>) -> Seq<char> {
    if ok {
        "PASS "@ + stage
    } else {
        "FAIL "@ + stage
    }
}

/// Records one stage: folds its result into `pass` and returns the marker text to print.
pub fn check(pass: &mut bool, ok: bool, stage: &str) -> (marker: String)
    ensures
        *final(pass) == (*old(pass) && ok),
        marker@ == stage_marker(ok, stage@),
{
    let mut marker = if ok {
        String::from_str("PASS ")
    } else {
        String::from_str("FAIL ")
    };
    marker.append(stage);
    if !ok {
        *pass = false;
    }
    marker
}

} // verus!
