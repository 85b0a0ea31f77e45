//! Host simulation adapters: a scripted input source, an in-memory byte pipe, and the rotary
//! scenario driver. They let the device core run and be asserted on the host with no hardware.

use crate::device::dispatch::{DispatchState, Dispatcher, Inbound};
use crate::device::runtime::GESTURE_END_MS;
use crate::device::state::DeviceState;
use crate::device::wire::{
    Capabilities, DeviceIdentity, FirmwareVersion, SeqClass, PHYSICAL_INPUT_V1_BIT,
    PRESENTATION_V1_BIT,
};
use crate::input::gesture::{detent_step, poll_step, GestureState, RotaryEvent, RotaryGesture};
use crate::input::quadrature::{decode_step, DecoderState, QuadratureDecoder};
use crate::model::{Direction, ElapsedMs, InputLevels, Rect, Rgb565};
use crate::ports::{Clock, DisplaySink, InputSource, Transport};
use crate::buffers::{pipe_as_slice, pipe_clear, pipe_extend, pipe_held, pipe_len, pipe_new};
pub use crate::buffers::PIPE_CAPACITY;
use heapless::Vec as HVec;
use vstd::prelude::*;

verus! {

/// Replays a fixed level sequence, then holds the final level forever.
pub struct ScriptedInput {
    steps: Vec<InputLevels>,
    index: usize,
}

impl ScriptedInput {
    /// The script.
    pub closed spec fn steps(&self) -> Seq<InputLevels> {
        self.steps@
    }

    /// How many levels were replayed, up to the last one.
    pub closed spec fn position(&self) -> nat {
        self.index as nat
    }

    /// There is always a level to give.
    #[verifier::type_invariant]
    spec fn inv(self) -> bool {
        self.index < self.steps@.len()
    }

    /// A source that replays `steps` in order, then holds the last level. A source with nothing
    /// to replay cannot exist.
    pub fn new(steps: Vec<InputLevels>) -> (s: Self)
        requires
            steps@.len() > 0,
        ensures
            s.steps() == steps@,
            s.position() == 0,
    {
        ScriptedInput { steps, index: 0 }
    }
}

impl InputSource for ScriptedInput {
    fn sample(&mut self) -> (level: InputLevels)
        ensures
            final(self).steps() == old(self).steps(),
            level == old(self).steps()[old(self).position() as int],
            final(self).position() == if old(self).position() + 1 < old(self).steps().len() {
                old(self).position() + 1
            } else {
                old(self).position()
            },
    {
        proof {
            use_type_invariant(&*self);
        }
        let level = self.steps[self.index];
        if self.index < self.steps.len() - 1 {
            self.index = self.index + 1;
        }
        level
    }
}

/// An input event as a host-sim scenario sees it, in emission order.
#[derive(Debug, Clone, Copy, PartialEq, Eq, Structural)]
pub enum SeenInput {
    /// A new gesture opened.
    GestureStarted {
        /// Identifier of the gesture that just opened.
        gesture_id: u16,
    },
    /// One validated detent belonging to a gesture.
    Detent {
        /// Identifier of the gesture this detent belongs to.
        gesture_id: u16,
        /// Rotational direction of the detent.
        direction: Direction,
    },
    /// A gesture closed.
    GestureEnded {
        /// Identifier of the gesture that just closed.
        gesture_id: u16,
    },
}

/// The scenario event a gesture event is seen as.
pub open spec fn seen(e: RotaryEvent) -> SeenInput {
    match e {
        RotaryEvent::GestureStarted { gesture_id } => SeenInput::GestureStarted { gesture_id },
        RotaryEvent::Detent { gesture_id, direction } => SeenInput::Detent {
            gesture_id,
            direction,
        },
        RotaryEvent::GestureEnded { gesture_id } => SeenInput::GestureEnded { gesture_id },
    }
}

/// Replaying `levels`, one per millisecond starting at 0: the decoder and gesture states and
/// the events seen so far.
pub open spec fn drive_prefix(levels: Seq<InputLevels>, end_ms: u32) -> (
    DecoderState,
    GestureState,
    Seq<SeenInput>,
)
    decreases levels.len(),
{
    if levels.len() == 0 {
        (
            DecoderState { phase: None, accumulator: 0, invalid: 0 },
            GestureState { gesture_end_ms: end_ms, last_id: 0, open: None },
            Seq::empty(),
        )
    } else {
        let (d, g, out) = drive_prefix(levels.drop_last(), end_ms);
        let tick = (levels.len() - 1) as u32;
        let l = levels.last();
        let (d2, dir) = decode_step(d, l.a, l.b);
        match dir {
            Some(direction) => {
                let (g2, started, detent) = detent_step(g, direction, tick);
                let out1 = match started {
                    Some(s) => out.push(seen(s)),
                    None => out,
                };
                (d2, g2, out1.push(seen(detent)))
            },
            None => (d2, g, out),
        }
    }
}

/// Every event a level script produces, with the trailing `GestureEnded` once the gesture
/// window has passed after the last level.
pub open spec fn drive_spec(levels: Seq<InputLevels>) -> Seq<SeenInput> {
    let (_, g, out) = drive_prefix(levels, GESTURE_END_MS);
    match poll_step(g, (levels.len() + GESTURE_END_MS) as u32).1 {
        Some(e) => out.push(seen(e)),
        None => out,
    }
}

/// The scenario event a gesture event is seen as.
fn to_seen(e: RotaryEvent) -> (s: SeenInput)
    ensures
        s == seen(e),
{
    match e {
        RotaryEvent::GestureStarted { gesture_id } => SeenInput::GestureStarted { gesture_id },
        RotaryEvent::Detent { gesture_id, direction } => SeenInput::Detent {
            gesture_id,
            direction,
        },
        RotaryEvent::GestureEnded { gesture_id } => SeenInput::GestureEnded { gesture_id },
    }
}

/// Drives the decoder and the gesture former over a level script and collects the emitted
/// events. Each level takes 1 ms; the clock then moves past the production gesture window so a
/// trailing `GestureEnded` comes out deterministically.
pub fn drive_rotary(levels: Vec<InputLevels>) -> (out: Vec<SeenInput>)
    requires
        levels@.len() + GESTURE_END_MS <= u32::MAX,
    ensures
        out@ == drive_spec(levels@),
{
    let script = levels.as_slice();
    let mut decoder = QuadratureDecoder::new();
    let mut gesture = RotaryGesture::new(GESTURE_END_MS);
    let mut out: Vec<SeenInput> = Vec::new();
    let n = script.len();
    let mut i: usize = 0;
    while i < n
        invariant
            i <= n,
            n == script@.len(),
            n + GESTURE_END_MS <= u32::MAX,
            (decoder.view(), gesture.view(), out@) == drive_prefix(
                script@.take(i as int),
                GESTURE_END_MS,
            ),
        decreases n - i,
    {
        let l = script[i];
        proof {
            assert(script@.take(i as int + 1).drop_last() =~= script@.take(i as int));
            assert(script@.take(i as int + 1).last() == l);
        }
        if let Some(direction) = decoder.update(l.a, l.b) {
            let (started, detent) = gesture.on_detent(direction, i as u32);
            if let Some(s) = started {
                out.push(to_seen(s));
            }
            out.push(to_seen(detent));
        }
        i = i + 1;
    }
    proof {
        assert(script@.take(n as int) =~= script@);
    }
    let end_at = n as u32 + GESTURE_END_MS;
    if let Some(e) = gesture.poll(end_at) {
        out.push(to_seen(e));
    }
    out
}

/// A dispatcher that has completed the handshake of session `nonce`: the session's first frame,
/// a `Hello` offering physical input and presentations, was answered and its `HelloAck`
/// transmitted, and the `Ready` that followed negotiated both. The device is `0xEE` sixteen
/// times, firmware 1.0.0, advertising the same two capabilities.
pub fn handshaken_dispatcher<A: Copy>(nonce: u32) -> (d: Dispatcher<A>)
    ensures
        d.view() == (DispatchState::<A> {
            device_caps: Capabilities(PHYSICAL_INPUT_V1_BIT | PRESENTATION_V1_BIT),
            device_id: d.view().device_id,
            firmware_version: FirmwareVersion { major: 1, minor: 0, patch: 0 },
            tx_seq: 1,
            pending: None,
            rejected: 0,
            hello_acks: 1,
            pongs: 0,
            state_reports: 0,
            pending_action: None,
            negotiated_caps: Capabilities(PHYSICAL_INPUT_V1_BIT | PRESENTATION_V1_BIT),
            hello_caps: Some(Capabilities(PHYSICAL_INPUT_V1_BIT | PRESENTATION_V1_BIT)),
            accepted_session: Some(nonce),
            session_ended: true,
        }),
        forall|i: int| 0 <= i < 16 ==> d.view().device_id[i] == 0xEE,
{
    let caps = Capabilities::physical_input_v1().union(Capabilities::presentation_v1());
    let identity = DeviceIdentity {
        device_id: [0xEEu8; 16],
        firmware_version: FirmwareVersion { major: 1, minor: 0, patch: 0 },
        capabilities: caps,
    };
    let mut d: Dispatcher<A> = Dispatcher::new(identity);
    let mut device = DeviceState::new();
    let hello: Inbound<A, ()> = Inbound::Hello { desktop_caps: caps, nonce };
    let act = d.handle(SeqClass::First, hello, &mut device, 0);
    if let Some(reply) = act.reply {
        let _ = d.claim_seq();
        d.note_sent(&reply);
    }
    let ready: Inbound<A, ()> = Inbound::Ready { negotiated_caps: caps };
    let _ = d.handle(SeqClass::Expected, ready, &mut device, 0);
    proof {
        let b = caps.0;
        assert(b & b & b == b) by (bit_vector);
    }
    d
}

/// A bidirectional in-memory byte pipe. The device sees it as a [`Transport`]; a test plays the
/// host through [`SimPipe::host_send`] and [`SimPipe::host_recv`].
pub struct SimPipe {
    to_device: HVec<u8, 8192>,
    to_host: HVec<u8, 8192>,
    sent: Ghost<Seq<u8>>,
    calls: Ghost<Seq<(nat, nat)>>,
    reads: Ghost<Seq<Seq<u8>>>,
}

impl SimPipe {
    /// Bytes waiting for the device.
    pub closed spec fn to_device(&self) -> Seq<u8> {
        pipe_held(self.to_device)
    }

    /// Bytes the device wrote that the host has not taken.
    pub closed spec fn to_host(&self) -> Seq<u8> {
        pipe_held(self.to_host)
    }

    /// An empty pipe.
    pub fn new() -> (p: Self)
        ensures
            p.to_device() == Seq::<u8>::empty(),
            p.to_host() == Seq::<u8>::empty(),
    {
        SimPipe {
            to_device: pipe_new(),
            to_host: pipe_new(),
            sent: Ghost(Seq::empty()),
            calls: Ghost(Seq::empty()),
            reads: Ghost(Seq::empty()),
        }
    }

    /// Host to device: queues `bytes` for the device to read, all or nothing. `Err` if they do
    /// not fit.
    pub fn host_send(&mut self, bytes: &[u8]) -> (r: Result<(), ()>)
        ensures
            old(self).to_device().len() + bytes@.len() <= PIPE_CAPACITY ==> r is Ok
                && final(self).to_device() == old(self).to_device() + bytes@,
            old(self).to_device().len() + bytes@.len() > PIPE_CAPACITY ==> r is Err
                && final(self).to_device() == old(self).to_device(),
            final(self).to_host() == old(self).to_host(),
    {
        pipe_extend(&mut self.to_device, bytes)
    }

    /// Device to host: drains and returns everything the device has written so far.
    pub fn host_recv(&mut self) -> (out: Vec<u8>)
        ensures
            out@ == old(self).to_host(),
            final(self).to_host() == Seq::<u8>::empty(),
            final(self).to_device() == old(self).to_device(),
    {
        let out = vstd::slice::slice_to_vec(pipe_as_slice(&self.to_host));
        pipe_clear(&mut self.to_host);
        out
    }

    /// Whether the device has produced any unread output.
    pub fn host_has_output(&self) -> (b: bool)
        ensures
            b == (self.to_host().len() > 0),
    {
        pipe_len(&self.to_host) > 0
    }
}

impl Transport for SimPipe {
    type Error = ();

    open spec fn keeps_logs() -> bool {
        true
    }

    /// Every byte the device wrote, including those the host already took.
    closed spec fn accepted(&self) -> Seq<u8> {
        self.sent@
    }

    closed spec fn writes(&self) -> Seq<(nat, nat)> {
        self.calls@
    }

    closed spec fn delivered(&self) -> Seq<Seq<u8>> {
        self.reads@
    }

    fn read(&mut self, buf: &mut [u8]) -> (r: Result<usize, ()>)
        ensures
            ({
                let n = if old(buf)@.len() < old(self).to_device().len() {
                    old(buf)@.len()
                } else {
                    old(self).to_device().len()
                };
                &&& r == Ok::<usize, ()>(n as usize)
                &&& final(buf)@.take(n as int) == old(self).to_device().take(n as int)
                &&& final(buf)@.len() == old(buf)@.len()
                &&& final(self).to_device() == old(self).to_device().skip(n as int)
                &&& final(self).to_host() == old(self).to_host()
            }),
    {
        let waiting = pipe_len(&self.to_device);
        let held = pipe_as_slice(&self.to_device);
        let n = if buf.len() < waiting {
            buf.len()
        } else {
            waiting
        };
        let mut i: usize = 0;
        while i < n
            invariant
                i <= n,
                n <= buf@.len(),
                n <= held@.len(),
                held@ == old(self).to_device(),
                buf@.len() == old(buf)@.len(),
                buf@.take(i as int) == held@.take(i as int),
            decreases n - i,
        {
            buf[i] = held[i];
            i = i + 1;
            proof {
                assert(buf@.take(i as int) =~= held@.take(i as int));
            }
        }
        let mut rest = pipe_new();
        let _ = pipe_extend(&mut rest, vstd::slice::slice_subrange(held, n, waiting));
        proof {
            assert(held@.subrange(n as int, held@.len() as int) =~= held@.skip(n as int));
        }
        self.to_device = rest;
        self.reads = Ghost(self.reads@.push(buf@.take(n as int)));
        Ok(n)
    }

    fn write(&mut self, buf: &[u8]) -> (r: Result<usize, ()>)
        ensures
            ({
                let space = PIPE_CAPACITY - old(self).to_host().len();
                let n = if space < buf@.len() {
                    space
                } else {
                    buf@.len() as int
                };
                &&& r == Ok::<usize, ()>(n as usize)
                &&& final(self).to_host() == old(self).to_host() + buf@.take(n)
                &&& final(self).to_device() == old(self).to_device()
            }),
    {
        let space = PIPE_CAPACITY - pipe_len(&self.to_host);
        let n = if space < buf.len() {
            space
        } else {
            buf.len()
        };
        let taken = vstd::slice::slice_subrange(buf, 0, n);
        let _ = pipe_extend(&mut self.to_host, taken);
        self.sent = Ghost(self.sent@ + buf@.take(n as int));
        self.calls = Ghost(self.calls@.push((buf@.len(), n as nat)));
        proof {
            assert(buf@.subrange(0, n as int) =~= buf@.take(n as int));
        }
        Ok(n)
    }
}

/// Simulated panel width.
pub const FRAME_W: usize = 240;
/// Simulated panel height.
pub const FRAME_H: usize = 240;
/// Simulated panel pixel count.
pub const FRAME_PIXELS: usize = 57600;

/// Whether frame position `i` lies inside `rect`.
pub open spec fn covers(rect: Rect, i: int) -> bool {
    let (x, y) = (i % (FRAME_W as int), i / (FRAME_W as int));
    rect.x <= x < rect.x + rect.w && rect.y <= y < rect.y + rect.h
}

/// The frame after blitting `pixels` (row-major, `rect.w` wide) to `rect`: covered positions
/// take the tile's pixel, the rest keep theirs, and whatever falls off the panel is dropped.
pub open spec fn blit_spec(frame: Seq<Rgb565>, rect: Rect, pixels: Seq<Rgb565>) -> Seq<Rgb565> {
    Seq::new(
        frame.len(),
        |i: int|
            if covers(rect, i) {
                pixels[(i / (FRAME_W as int) - rect.y) * rect.w + (i % (FRAME_W as int) - rect.x)]
            } else {
                frame[i]
            },
    )
}

/// A [`DisplaySink`] that composites blitted tiles into a full-frame buffer and counts flushes.
pub struct CaptureDisplay {
    frame: Vec<Rgb565>,
    blits: u32,
    log: Ghost<Seq<(Rect, Seq<Rgb565>)>>,
}

impl CaptureDisplay {
    /// The composited frame, row-major.
    pub closed spec fn frame_spec(&self) -> Seq<Rgb565> {
        self.frame@
    }

    /// Tile blits received.
    pub closed spec fn blits_spec(&self) -> u32 {
        self.blits
    }

    /// One entry per panel pixel.
    #[verifier::type_invariant]
    spec fn inv(self) -> bool {
        self.frame@.len() == FRAME_PIXELS
    }

    /// A capture display cleared to black.
    pub fn new() -> (d: Self)
        ensures
            d.frame_spec() == Seq::new(FRAME_PIXELS as nat, |i: int| Rgb565(0)),
            d.blits_spec() == 0,
    {
        let mut frame: Vec<Rgb565> = Vec::new();
        let mut i: usize = 0;
        while i < FRAME_PIXELS
            invariant
                i <= FRAME_PIXELS,
                frame@ == Seq::new(i as nat, |k: int| Rgb565(0)),
            decreases FRAME_PIXELS - i,
        {
            frame.push(Rgb565(0));
            i = i + 1;
            proof {
                assert(frame@ =~= Seq::new(i as nat, |k: int| Rgb565(0)));
            }
        }
        CaptureDisplay { frame, blits: 0, log: Ghost(Seq::empty()) }
    }

    /// The full composited frame (row-major, `FRAME_W * FRAME_H`).
    pub fn frame(&self) -> (f: &[Rgb565])
        ensures
            f@ == self.frame_spec(),
    {
        self.frame.as_slice()
    }

    /// The pixel at `(x, y)`.
    pub fn pixel(&self, x: usize, y: usize) -> (p: Rgb565)
        requires
            x < FRAME_W,
            y < FRAME_H,
        ensures
            p == self.frame_spec()[y * FRAME_W + x],
    {
        proof {
            use_type_invariant(self);
        }
        assert(y * 240 + x < 57600) by (nonlinear_arith)
            requires
                x < 240,
                y < 240,
        ;
        self.frame[y * FRAME_W + x]
    }

    /// Tile blits received (change-driven rendering flushes only changed tiles).
    pub fn blits(&self) -> (n: u32)
        ensures
            n == self.blits_spec(),
    {
        self.blits
    }
}

impl DisplaySink for CaptureDisplay {
    type Error = ();

    open spec fn keeps_log() -> bool {
        true
    }

    /// Every tile blitted so far.
    closed spec fn written(&self) -> Seq<(Rect, Seq<Rgb565>)> {
        self.log@
    }

    fn blit_tile(&mut self, rect: Rect, pixels: &[Rgb565]) -> (r: Result<(), ()>)
        ensures
            r is Ok,
            final(self).frame_spec() == blit_spec(old(self).frame_spec(), rect, pixels@),
            final(self).blits_spec() == if old(self).blits_spec() < u32::MAX {
                (old(self).blits_spec() + 1) as u32
            } else {
                u32::MAX
            },
    {
        proof {
            use_type_invariant(&*self);
        }
        let ghost start = self.frame@;
        let mut frame: Vec<Rgb565> = Vec::new();
        let mut i: usize = 0;
        while i < FRAME_PIXELS
            invariant
                i <= FRAME_PIXELS,
                start.len() == FRAME_PIXELS,
                self.frame@ == start,
                pixels@.len() == rect.w * rect.h,
                frame@ == blit_spec(start, rect, pixels@).take(i as int),
            decreases FRAME_PIXELS - i,
        {
            let x = i % FRAME_W;
            let y = i / FRAME_W;
            let inside = rect.x as usize <= x && x < rect.x as usize + rect.w as usize
                && rect.y as usize <= y && y < rect.y as usize + rect.h as usize;
            let p = if inside {
                let row = y - rect.y as usize;
                let col = x - rect.x as usize;
                assert(row * (rect.w as int) + col < (rect.w as int) * (rect.h as int))
                    by (nonlinear_arith)
                    requires
                        row < rect.h,
                        col < rect.w,
                ;
                assert(row * (rect.w as int) + col <= 65535 * 65535) by (nonlinear_arith)
                    requires
                        row < rect.h,
                        col < rect.w,
                        rect.w <= 65535,
                        rect.h <= 65535,
                ;
                pixels[row * rect.w as usize + col]
            } else {
                self.frame[i]
            };
            frame.push(p);
            i = i + 1;
            proof {
                assert(frame@ =~= blit_spec(start, rect, pixels@).take(i as int));
            }
        }
        proof {
            assert(frame@ =~= blit_spec(start, rect, pixels@));
        }
        self.frame = frame;
        self.blits = self.blits.saturating_add(1);
        self.log = Ghost(self.log@.push((rect, pixels@)));
        Ok(())
    }
}

/// A settable, monotonic virtual [`Clock`]. It is moved forward through `&mut self`.
pub struct VirtualClock {
    now: ElapsedMs,
}

impl VirtualClock {
    /// The current time.
    pub closed spec fn now_spec(&self) -> ElapsedMs {
        self.now
    }

    /// A clock at `0` ms.
    pub fn new() -> (c: Self)
        ensures
            c.now_spec() == 0,
    {
        VirtualClock { now: 0 }
    }

    /// Sets the current time.
    pub fn set(&mut self, ms: ElapsedMs)
        ensures
            final(self).now_spec() == ms,
    {
        self.now = ms;
    }

    /// Advances the clock by `delta` ms, saturating at the largest time.
    pub fn advance(&mut self, delta: ElapsedMs)
        ensures
            final(self).now_spec() == if old(self).now_spec() + delta > u32::MAX {
                u32::MAX as int
            } else {
                old(self).now_spec() + delta
            },
    {
        self.now = self.now.saturating_add(delta);
    }
}

impl Clock for VirtualClock {
    fn now_ms(&self) -> (t: ElapsedMs)
        ensures
            t == self.now_spec(),
    {
        self.now
    }
}

} // verus!
