use kivori::device::framing::RxBuffer;
use kivori::device::link::{fill_once, write_packet, DispatchError, READ_CHUNK};
use kivori::ports::Transport;
use kivori::raster::{rgb888_to_rgb565_le, RasterError};
use kivori::sim::SimPipe;
use kivori::transport::{TxBuffered, FIFO_BYTES, TX_QUEUE_BYTES};

/// A transport that takes at most `per_call` bytes per write and `room` bytes in all, and can
/// be told to fail.
struct Throttled {
    per_call: usize,
    room: usize,
    fail: bool,
    got: Vec<u8>,
    calls: Vec<usize>,
}

impl Throttled {
    fn new(per_call: usize, room: usize) -> Self {
        Throttled { per_call, room, fail: false, got: Vec::new(), calls: Vec::new() }
    }
}

impl Transport for Throttled {
    type Error = u8;

    fn read(&mut self, _buf: &mut [u8]) -> Result<usize, u8> {
        if self.fail {
            Err(7)
        } else {
            Ok(0)
        }
    }

    fn write(&mut self, buf: &[u8]) -> Result<usize, u8> {
        if self.fail {
            return Err(9);
        }
        self.calls.push(buf.len());
        let n = buf.len().min(self.per_call).min(self.room);
        self.got.extend_from_slice(&buf[..n]);
        self.room -= n;
        Ok(n)
    }
}

fn frame(len: usize) -> Vec<u8> {
    (0..len).map(|i| (i % 251) as u8).collect()
}

#[test]
fn a_whole_frame_reaches_the_host_through_the_queue() {
    let mut link = TxBuffered::new(SimPipe::new());
    let bytes = frame(300);
    assert_eq!(link.write(&bytes), Ok(300));
    assert_eq!(link.pending(), 0);
    assert_eq!(link.inner_mut().host_recv(), bytes);
}

#[test]
fn the_hardware_is_never_offered_more_than_one_fifo_per_write() {
    let mut link = TxBuffered::new(Throttled::new(usize::MAX, usize::MAX));
    let bytes = frame(200);
    assert_eq!(link.write(&bytes), Ok(200));
    assert_eq!(link.pending(), 0);
    assert_eq!(link.inner_mut().calls, vec![FIFO_BYTES, FIFO_BYTES, FIFO_BYTES, 8]);
    assert_eq!(link.inner_mut().got, bytes);
}

#[test]
fn a_full_fifo_keeps_the_rest_queued_in_order() {
    let mut link = TxBuffered::new(Throttled::new(64, 0));
    let bytes = frame(300);
    assert_eq!(link.write(&bytes), Ok(300));
    assert_eq!(link.pending(), 300);
    link.inner_mut().room = 150;
    assert_eq!(link.pump(), Ok(150));
    assert_eq!(link.pending(), 150);
    assert_eq!(link.inner_mut().got, bytes[..150].to_vec());
    link.inner_mut().room = usize::MAX;
    assert_eq!(link.pump(), Ok(150));
    assert_eq!(link.pending(), 0);
    assert_eq!(link.inner_mut().got, bytes);
    assert_eq!(link.pump(), Ok(0));
}

#[test]
fn the_queue_accepts_no_more_than_its_capacity() {
    let mut link = TxBuffered::new(Throttled::new(64, 0));
    let bytes = frame(2000);
    assert_eq!(link.write(&bytes), Ok(TX_QUEUE_BYTES));
    assert_eq!(link.pending(), TX_QUEUE_BYTES);
    assert_eq!(link.write(&bytes), Ok(0));
}

#[test]
fn a_transport_error_surfaces_and_leaves_the_bytes_queued() {
    let mut link = TxBuffered::new(Throttled::new(64, 64));
    link.inner_mut().fail = true;
    assert_eq!(link.write(&frame(10)), Err(9));
    assert_eq!(link.pending(), 10);
    link.inner_mut().fail = false;
    assert_eq!(link.pump(), Ok(10));
    assert_eq!(link.pending(), 0);
}

#[test]
fn reads_go_straight_to_the_wrapped_transport() {
    let mut link = TxBuffered::new(SimPipe::new());
    link.inner_mut().host_send(&[5, 6, 7]).unwrap();
    let mut buf = [0u8; 8];
    assert_eq!(link.read(&mut buf), Ok(3));
    assert_eq!(&buf[..3], &[5, 6, 7]);
}

#[test]
fn fill_once_appends_what_arrived_and_reports_an_empty_read() {
    let mut pipe = SimPipe::new();
    pipe.host_send(&[1, 2, 0, 3]).unwrap();
    let mut rx = RxBuffer::new();
    assert_eq!(fill_once(&mut rx, &mut pipe), Ok(4));
    assert_eq!(rx.take_packet(), Some(vec![1, 2]));
    assert_eq!(rx.len(), 1);
    assert_eq!(fill_once(&mut rx, &mut pipe), Ok(0));
    assert_eq!(rx.len(), 1);
}

#[test]
fn fill_once_reads_at_most_one_chunk() {
    let mut pipe = SimPipe::new();
    pipe.host_send(&frame(300)).unwrap();
    let mut rx = RxBuffer::new();
    assert_eq!(fill_once(&mut rx, &mut pipe), Ok(READ_CHUNK));
    assert_eq!(rx.len(), READ_CHUNK);
}

#[test]
fn fill_once_surfaces_a_read_error() {
    let mut t = Throttled::new(1, 1);
    t.fail = true;
    let mut rx = RxBuffer::new();
    assert_eq!(fill_once(&mut rx, &mut t), Err(DispatchError::Transport(7)));
    assert_eq!(rx.len(), 0);
}

#[test]
fn write_packet_continues_after_short_writes_and_stops_when_full() {
    let mut t = Throttled::new(3, 10);
    let wire = frame(20);
    assert_eq!(write_packet(&mut t, &wire), Ok(10));
    assert_eq!(t.got, wire[..10].to_vec());
    let mut none = Throttled::new(3, 100);
    assert_eq!(write_packet(&mut none, &[]), Ok(0));
    assert!(none.calls.is_empty());
    let mut all = Throttled::new(3, 100);
    assert_eq!(write_packet(&mut all, &wire), Ok(20));
    assert_eq!(all.got, wire);
}

#[test]
fn write_packet_surfaces_a_write_error() {
    let mut t = Throttled::new(3, 10);
    t.fail = true;
    assert_eq!(write_packet(&mut t, &frame(4)), Err(DispatchError::Transport(9)));
}

#[test]
fn rgb888_pixels_become_little_endian_rgb565() {
    let out = rgb888_to_rgb565_le(&[255, 0, 0, 0, 255, 0, 0, 0, 255, 255, 255, 255]);
    assert_eq!(out, vec![0x00, 0xF8, 0xE0, 0x07, 0x1F, 0x00, 0xFF, 0xFF]);
    assert!(rgb888_to_rgb565_le(&[]).is_empty());
}

#[test]
fn raster_errors_are_distinct() {
    assert_ne!(RasterError::Parse, RasterError::Alloc);
}
