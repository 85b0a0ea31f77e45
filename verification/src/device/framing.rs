//! Inbound byte accumulation and packet splitting.
//!
//! Packets on the link are separated by a `0x00` delimiter. Received bytes accumulate in a
//! bounded buffer ([`RX_CAPACITY`] bytes); a buffer that fills up without a delimiter holds
//! unrecoverable garbage, so it is cleared and accumulation restarts with the byte that did not
//! fit, resynchronising on the next delimiter.

use crate::buffers::{rx_as_slice, rx_held, rx_len, rx_new, rx_push, RX_CAPACITY};
use heapless::Vec as HVec;
use vstd::prelude::*;

verus! {

/// The buffer after receiving `b`, with room for `cap` bytes.
pub open spec fn push_byte_spec(s: Seq<u8>, cap: nat, b: u8) -> Seq<u8> {
    if s.len() < cap {
        s.push(b)
    } else {
        seq![b]
    }
}

/// The buffer after receiving `bytes` in order.
pub open spec fn push_all_spec(s: Seq<u8>, cap: nat, bytes: Seq<u8>) -> Seq<u8>
    decreases bytes.len(),
{
    if bytes.len() == 0 {
        s
    } else {
        push_byte_spec(push_all_spec(s, cap, bytes.drop_last()), cap, bytes.last())
    }
}

/// Whether a packet is usable: neither empty (consecutive delimiters) nor longer than one
/// wire packet.
pub open spec fn usable_packet(len: nat, max_wire: nat) -> bool {
    0 < len <= max_wire
}

/// Received bytes not yet split into packets, at most [`RX_CAPACITY`] of them.
pub struct RxBuffer {
    bytes: HVec<u8, 1024>,
}

impl RxBuffer {
    /// The bytes held.
    pub closed spec fn view(&self) -> Seq<u8> {
        rx_held(self.bytes)
    }

    /// An empty buffer.
    pub fn new() -> (b: Self)
        ensures
            b@ == Seq::<u8>::empty(),
    {
        RxBuffer { bytes: rx_new() }
    }

    /// Bytes held.
    pub fn len(&self) -> (n: usize)
        ensures
            n == self@.len(),
            n <= RX_CAPACITY,
    {
        rx_len(&self.bytes)
    }

    /// Receives one byte. On overflow the buffer is reset and keeps only this byte.
    pub fn push(&mut self, b: u8)
        ensures
            final(self)@ == push_byte_spec(old(self)@, RX_CAPACITY as nat, b),
    {
        if rx_len(&self.bytes) < RX_CAPACITY {
            let _ = rx_push(&mut self.bytes, b);
        } else {
            let mut fresh = rx_new();
            let _ = rx_push(&mut fresh, b);
            self.bytes = fresh;
        }
    }

    /// Receives `bytes` in order.
    pub fn extend(&mut self, bytes: &[u8])
        ensures
            final(self)@ == push_all_spec(old(self)@, RX_CAPACITY as nat, bytes@),
    {
        let ghost start = self@;
        let mut i: usize = 0;
        while i < bytes.len()
            invariant
                i <= bytes.len(),
                self@ == push_all_spec(start, RX_CAPACITY as nat, bytes@.take(i as int)),
            decreases bytes.len() - i,
        {
            proof {
                assert(bytes@.take(i as int + 1).drop_last() =~= bytes@.take(i as int));
            }
            self.push(bytes[i]);
            i = i + 1;
        }
        proof {
            assert(bytes@.take(bytes@.len() as int) =~= bytes@);
        }
    }

    /// Removes and returns the bytes before the first delimiter, consuming the delimiter too.
    /// `None`, with nothing consumed, when no delimiter has arrived yet.
    pub fn take_packet(&mut self) -> (p: Option<Vec<u8>>)
        ensures
            match p {
                None => !old(self)@.contains(0u8) && final(self)@ == old(self)@,
                Some(packet) => {
                    &&& !packet@.contains(0u8)
                    &&& old(self)@ == packet@ + seq![0u8] + final(self)@
                },
            },
    {
        let n = rx_len(&self.bytes);
        let held = rx_as_slice(&self.bytes);
        let mut pos: usize = 0;
        while pos < n
            invariant
                pos <= n,
                n == held@.len(),
                forall|j: int| 0 <= j < pos ==> held@[j] != 0u8,
            ensures
                pos <= n,
                forall|j: int| 0 <= j < pos ==> held@[j] != 0u8,
                pos < n ==> held@[pos as int] == 0u8,
            decreases n - pos,
        {
            if held[pos] == 0u8 {
                break;
            }
            pos = pos + 1;
        }
        if pos == n {
            proof {
                assert forall|j: int| 0 <= j < held@.len() implies held@[j] != 0u8 by {}
                assert(!held@.contains(0u8));
            }
            return None;
        }
        let mut packet: Vec<u8> = Vec::new();
        let mut i: usize = 0;
        while i < pos
            invariant
                i <= pos,
                pos < n,
                n == held@.len(),
                packet@ == held@.take(i as int),
            decreases pos - i,
        {
            packet.push(held[i]);
            proof {
                assert(held@.take(i as int + 1) =~= held@.take(i as int).push(held@[i as int]));
            }
            i = i + 1;
        }
        let mut tail = rx_new();
        let mut k: usize = pos + 1;
        while k < n
            invariant
                pos + 1 <= k <= n,
                n == held@.len(),
                n <= RX_CAPACITY,
                rx_held(tail) == held@.subrange(pos as int + 1, k as int),
            decreases n - k,
        {
            let _ = rx_push(&mut tail, held[k]);
            proof {
                assert(held@.subrange(pos as int + 1, k as int + 1) =~= held@.subrange(
                    pos as int + 1,
                    k as int,
                ).push(held@[k as int]));
            }
            k = k + 1;
        }
        proof {
            assert(held@ =~= packet@ + seq![0u8] + rx_held(tail));
            assert(!packet@.contains(0u8)) by {
                assert forall|j: int| 0 <= j < packet@.len() implies packet@[j] != 0u8 by {}
            }
        }
        self.bytes = tail;
        Some(packet)
    }

    /// The next packet under the dispatcher's rule: `None` when no delimiter has arrived;
    /// `Some(None)` for a packet that is skipped (empty, or longer than `max_wire`); otherwise
    /// the packet. Either way the packet and its delimiter are consumed.
    pub fn next_packet(&mut self, max_wire: usize) -> (p: Option<Option<Vec<u8>>>)
        ensures
            match p {
                None => !old(self)@.contains(0u8) && final(self)@ == old(self)@,
                Some(got) => exists|raw: Seq<u8>|
                    {
                        &&& !raw.contains(0u8)
                        &&& old(self)@ == raw + seq![0u8] + final(self)@
                        &&& match got {
                            Some(packet) => packet@ == raw && usable_packet(
                                raw.len(),
                                max_wire as nat,
                            ),
                            None => !usable_packet(raw.len(), max_wire as nat),
                        }
                    },
            },
    {
        match self.take_packet() {
            None => None,
            Some(packet) => {
                let len = packet.len();
                if 0 < len && len <= max_wire {
                    Some(Some(packet))
                } else {
                    proof {
                        assert(!usable_packet(packet@.len(), max_wire as nat));
                    }
                    Some(None)
                }
            },
        }
    }
}

/// Below the capacity nothing is lost: received bytes are held in order.
pub proof fn law_bytes_are_kept_until_full(s: Seq<u8>, cap: nat, bytes: Seq<u8>)
    requires
        s.len() + bytes.len() <= cap,
    ensures
        push_all_spec(s, cap, bytes) == s + bytes,
    decreases bytes.len(),
{
    if bytes.len() > 0 {
        law_bytes_are_kept_until_full(s, cap, bytes.drop_last());
        assert(s + bytes.drop_last() + seq![bytes.last()] =~= s + bytes);
    }
}

/// A packet is recovered exactly: bytes up to the first delimiter determine the packet and the
/// rest, so a delimiter-terminated packet sent on the link is the packet taken from the buffer.
pub proof fn law_packet_split_is_unique(a: Seq<u8>, b: Seq<u8>, ra: Seq<u8>, rb: Seq<u8>)
    requires
        !a.contains(0u8),
        !b.contains(0u8),
        a + seq![0u8] + ra == b + seq![0u8] + rb,
    ensures
        a == b,
        ra == rb,
{
    let x = a + seq![0u8] + ra;
    let y = b + seq![0u8] + rb;
    assert(x == y);
    assert(x.len() == a.len() + 1 + ra.len());
    assert(y.len() == b.len() + 1 + rb.len());
    if a.len() < b.len() {
        assert(x[a.len() as int] == 0u8);
        assert(y[a.len() as int] == b[a.len() as int]);
        assert(b.contains(0u8));
    } else if b.len() < a.len() {
        assert(y[b.len() as int] == 0u8);
        assert(x[b.len() as int] == a[b.len() as int]);
        assert(a.contains(0u8));
    } else {
        assert forall|i: int| 0 <= i < a.len() implies a[i] == b[i] by {
            assert(x[i] == a[i]);
            assert(y[i] == b[i]);
            assert(x[i] == y[i]);
        }
        assert(a =~= b);
        assert(x.len() == y.len());
        assert(ra.len() == rb.len());
        assert forall|i: int| 0 <= i < ra.len() implies ra[i] == rb[i] by {
            assert(x[a.len() + 1 + i] == ra[i]);
            assert(y[b.len() + 1 + i] == rb[i]);
            assert(x[a.len() + 1 + i] == y[a.len() + 1 + i]);
        }
        assert(ra =~= rb);
    }
}

} // verus!
