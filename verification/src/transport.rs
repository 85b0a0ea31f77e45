//! Whole-frame writes over a bounded, non-blocking hardware FIFO.
//!
//! A single hardware `write` can be short: the USB Serial/JTAG endpoint takes at most one
//! 64-byte FIFO per call and stops the moment it is full. [`TxBuffered`] therefore queues what
//! the dispatcher writes (so a frame is never truncated by a full FIFO) and pumps the queue
//! toward the hardware, one FIFO's worth at a time, without blocking.

use crate::ports::Transport;
use heapless::Deque;
use vstd::prelude::*;

verus! {

/// Endpoint FIFO depth in bytes. One `write` call never offers the hardware more than this.
pub const FIFO_BYTES: usize = 64;

/// Outbound queue capacity: room for two whole frames with a partial one still draining.
pub const TX_QUEUE_BYTES: usize = 1024;

#[verifier::external_type_specification]
#[verifier::external_body]
#[verifier::reject_recursive_types(T)]
pub struct ExDeque<T, const N: usize>(Deque<T, N>);

/// The bytes an outbound queue holds, front first.
pub uninterp spec fn queued(q: Deque<u8, 1024>) -> Seq<u8>;

/// An empty queue (`heapless::Deque::new`).
#[verifier::external_body]
fn queue_new() -> (q: Deque<u8, 1024>)
    ensures
        queued(q) == Seq::<u8>::empty(),
{
    Deque::new()
}

/// The number of queued bytes (`heapless::Deque::len`), never more than the capacity.
#[verifier::external_body]
fn queue_len(q: &Deque<u8, 1024>) -> (n: usize)
    ensures
        n == queued(*q).len(),
        n <= TX_QUEUE_BYTES,
{
    q.len()
}

/// Appends `b` at the back (`heapless::Deque::push_back`); a full queue refuses it and is
/// unchanged.
#[verifier::external_body]
fn queue_push_back(q: &mut Deque<u8, 1024>, b: u8) -> (ok: bool)
    ensures
        queued(*old(q)).len() < TX_QUEUE_BYTES ==> ok && queued(*final(q)) == queued(
            *old(q),
        ).push(b),
        queued(*old(q)).len() >= TX_QUEUE_BYTES ==> !ok && queued(*final(q)) == queued(*old(q)),
{
    q.push_back(b).is_ok()
}

/// Removes the front byte (`heapless::Deque::pop_front`).
#[verifier::external_body]
fn queue_pop_front(q: &mut Deque<u8, 1024>) -> (b: Option<u8>)
    ensures
        queued(*old(q)).len() == 0 ==> b is None && queued(*final(q)) == queued(*old(q)),
        queued(*old(q)).len() > 0 ==> b == Some(queued(*old(q))[0]) && queued(*final(q))
            == queued(*old(q)).skip(1),
{
    q.pop_front()
}

/// The queued bytes as two runs that together are the queue in order
/// (`heapless::Deque::as_slices`).
#[verifier::external_body]
fn queue_as_slices(q: &Deque<u8, 1024>) -> (runs: (Vec<u8>, Vec<u8>))
    ensures
        runs.0@ + runs.1@ == queued(*q),
{
    let (a, b) = q.as_slices();
    (a.to_vec(), b.to_vec())
}

/// The first `n` bytes of the queue.
fn front_bytes(q: &Deque<u8, 1024>, n: usize) -> (chunk: Vec<u8>)
    requires
        n <= queued(*q).len(),
    ensures
        chunk@ == queued(*q).take(n as int),
{
    let (a, b) = queue_as_slices(q);
    let ghost all = a@ + b@;
    let mut chunk: Vec<u8> = Vec::new();
    let mut i: usize = 0;
    while i < n
        invariant
            i <= n,
            n <= all.len(),
            all == a@ + b@,
            chunk@ == all.take(i as int),
        decreases n - i,
    {
        let byte = if i < a.len() {
            a[i]
        } else {
            b[i - a.len()]
        };
        chunk.push(byte);
        i = i + 1;
        proof {
            assert(chunk@ =~= all.take(i as int));
        }
    }
    chunk
}

/// The bytes one pump write offers when `remaining` bytes are queued: one FIFO's worth, or
/// what is left.
pub open spec fn fifo_chunk(remaining: int) -> int {
    if remaining < FIFO_BYTES {
        remaining
    } else {
        FIFO_BYTES as int
    }
}

/// Whether `after` is `before` followed by pump writes over a queue of `total` bytes that
/// together took `sent`: each offered the next [`fifo_chunk`] of what was still queued, and
/// each but the last (every one, where `all_full`) took all it was offered.
pub open spec fn pumped_in_turn(
    before: Seq<(nat, nat)>,
    after: Seq<(nat, nat)>,
    total: nat,
    sent: nat,
    all_full: bool,
) -> bool
    decreases after.len(),
{
    if after.len() <= before.len() {
        after == before && sent == 0
    } else {
        let (offered, took) = after.last();
        &&& took <= sent
        &&& offered == fifo_chunk(total - (sent - took))
        &&& offered > 0
        &&& all_full ==> took == offered
        &&& pumped_in_turn(before, after.drop_last(), total, (sent - took) as nat, true)
    }
}

/// A [`Transport`] wrapper giving whole-frame writes over a bounded hardware FIFO: `write`
/// queues, `read` delegates, and [`TxBuffered::pump`] moves queued bytes toward the hardware.
pub struct TxBuffered<T> {
    inner: T,
    queue: Deque<u8, 1024>,
    calls: Ghost<Seq<(nat, nat)>>,
}

impl<T: Transport> TxBuffered<T> {
    /// The queued bytes, front first.
    pub closed spec fn pending_bytes(&self) -> Seq<u8> {
        queued(self.queue)
    }

    /// The wrapped transport.
    pub closed spec fn inner_spec(&self) -> T {
        self.inner
    }

    /// Wraps `inner` with an empty outbound queue.
    pub fn new(inner: T) -> (t: Self)
        ensures
            t.pending_bytes() == Seq::<u8>::empty(),
            t.inner_spec() == inner,
            t.writes() == Seq::<(nat, nat)>::empty(),
    {
        TxBuffered { inner, queue: queue_new(), calls: Ghost(Seq::empty()) }
    }

    /// Bytes still waiting to reach the hardware.
    pub fn pending(&self) -> (n: usize)
        ensures
            n == self.pending_bytes().len(),
    {
        queue_len(&self.queue)
    }

    /// Borrows the wrapped transport, for calls particular to it (such as blocking marker
    /// writes). The queue is untouched.
    pub fn inner_mut(&mut self) -> (r: &mut T)
        ensures
            *r == old(self).inner_spec(),
            final(self).inner_spec() == *final(r),
            final(self).pending_bytes() == old(self).pending_bytes(),
            final(self).writes() == old(self).writes(),
    {
        &mut self.inner
    }

    /// Pushes as much of the queue to the hardware as it accepts right now, one FIFO's worth per
    /// write, stopping at the first short write. Returns bytes written. On a transport error the
    /// bytes already accepted stay sent and the rest stay queued.
    pub fn pump(&mut self) -> (r: Result<usize, T::Error>)
        ensures
            r matches Ok(n) ==> n <= old(self).pending_bytes().len() && final(self).pending_bytes()
                == old(self).pending_bytes().skip(n as int),
            T::keeps_logs() ==> (r matches Ok(n) ==> final(self).inner_spec().accepted() == old(
                self,
            ).inner_spec().accepted() + old(self).pending_bytes().take(n as int)),
            old(self).pending_bytes().len() == 0 ==> (r matches Ok(n) && n == 0),
            final(self).pending_bytes().len() <= old(self).pending_bytes().len(),
            final(self).pending_bytes() == old(self).pending_bytes().skip(
                old(self).pending_bytes().len() - final(self).pending_bytes().len(),
            ),
            T::keeps_logs() ==> (r matches Ok(n) ==> pumped_in_turn(
                old(self).inner_spec().writes(),
                final(self).inner_spec().writes(),
                old(self).pending_bytes().len(),
                n as nat,
                false,
            )),
            T::keeps_logs() ==> (r matches Ok(n) ==> n == old(self).pending_bytes().len() || ({
                let w = final(self).inner_spec().writes();
                w.len() > old(self).inner_spec().writes().len() && w.last().1 < w.last().0
            })),
            final(self).writes() == old(self).writes(),
            T::keeps_logs() ==> final(self).inner_spec().delivered() == old(
                self,
            ).inner_spec().delivered(),
    {
        let ghost start = queued(self.queue);
        let ghost w0 = self.inner.writes();
        let mut len = queue_len(&self.queue);
        let mut written: usize = 0;
        loop
            invariant_except_break
                T::keeps_logs() ==> pumped_in_turn(
                    w0,
                    self.inner.writes(),
                    start.len(),
                    written as nat,
                    true,
                ),
            invariant
                start == old(self).pending_bytes(),
                start.len() <= TX_QUEUE_BYTES,
                written <= start.len(),
                len == start.len() - written,
                queued(self.queue) == start.skip(written as int),
                T::keeps_logs() ==> self.inner.accepted() == old(self).inner.accepted()
                    + start.take(written as int),
                w0 == old(self).inner.writes(),
                self.calls == old(self).calls,
                T::keeps_logs() ==> self.inner.delivered() == old(self).inner.delivered(),
            ensures
                written <= start.len(),
                queued(self.queue) == start.skip(written as int),
                T::keeps_logs() ==> self.inner.accepted() == old(self).inner.accepted()
                    + start.take(written as int),
                T::keeps_logs() ==> pumped_in_turn(
                    w0,
                    self.inner.writes(),
                    start.len(),
                    written as nat,
                    false,
                ),
                T::keeps_logs() ==> (written == start.len() || ({
                    let w = self.inner.writes();
                    w.len() > w0.len() && w.last().1 < w.last().0
                })),
                self.calls == old(self).calls,
                T::keeps_logs() ==> self.inner.delivered() == old(self).inner.delivered(),
            decreases start.len() - written,
        {
            if len == 0 {
                break;
            }
            let n = if len < FIFO_BYTES {
                len
            } else {
                FIFO_BYTES
            };
            let chunk = front_bytes(&self.queue, n);
            let ghost before = self.inner.accepted();
            let ghost log_before = self.inner.writes();
            let taken = match self.inner.write(chunk.as_slice()) {
                Ok(t) => t,
                Err(e) => {
                    return Err(e);
                },
            };
            proof {
                assert(chunk@.take(taken as int) =~= start.skip(written as int).take(
                    taken as int,
                ));
                assert(start.take(written as int) + start.skip(written as int).take(taken as int)
                    =~= start.take(written + taken));
            }
            proof {
                if T::keeps_logs() {
                let log_after = self.inner.writes();
                assert(log_after.drop_last() =~= log_before);
                assert(log_after.last() == (n as nat, taken as nat));
                assert(pumped_in_turn(w0, log_after, start.len(), (written + taken) as nat, false));
                if taken == n {
                    assert(pumped_in_turn(w0, log_after, start.len(), (written + taken) as nat, true));
                }
                assert(self.inner.accepted() =~= old(self).inner.accepted() + start.take(
                    written + taken,
                ));
                }
            }
            let mut k: usize = 0;
            while k < taken
                invariant
                    k <= taken,
                    taken <= n,
                    start.len() <= TX_QUEUE_BYTES,
                    n <= len,
                    len == start.len() - written,
                    written <= start.len(),
                    queued(self.queue) == start.skip(written as int).skip(k as int),
                    T::keeps_logs() ==> self.inner.accepted() == old(self).inner.accepted()
                        + start.take(written + taken),
                    w0 == old(self).inner.writes(),
                    T::keeps_logs() ==> pumped_in_turn(
                        w0,
                        self.inner.writes(),
                        start.len(),
                        (written + taken) as nat,
                        false,
                    ),
                    T::keeps_logs() && taken == n ==> pumped_in_turn(
                        w0,
                        self.inner.writes(),
                        start.len(),
                        (written + taken) as nat,
                        true,
                    ),
                    T::keeps_logs() ==> self.inner.writes().len() > w0.len(),
                    T::keeps_logs() ==> self.inner.writes().last() == (n as nat, taken as nat),
                    self.calls == old(self).calls,
                    T::keeps_logs() ==> self.inner.delivered() == old(self).inner.delivered(),
                decreases taken - k,
            {
                let _ = queue_pop_front(&mut self.queue);
                k = k + 1;
                proof {
                    assert(start.skip(written as int).skip(k as int - 1).skip(1) =~= start.skip(
                        written as int,
                    ).skip(k as int));
                }
            }
            proof {
                assert(start.skip(written as int).skip(taken as int) =~= start.skip(
                    written as int + taken as int,
                ));
            }
            written = written + taken;
            len = len - taken;
            if taken < n {
                break;
            }
        }
        Ok(written)
    }
}

impl<T: Transport> Transport for TxBuffered<T> {
    type Error = T::Error;

    /// The wrapper keeps the logs when the transport it wraps does.
    open spec fn keeps_logs() -> bool {
        T::keeps_logs()
    }

    /// Bytes the wrapped transport took, then those still queued: everything accepted, in
    /// order.
    closed spec fn accepted(&self) -> Seq<u8> {
        self.inner.accepted() + queued(self.queue)
    }

    /// The writes made to this wrapper (not those it made to the wrapped transport).
    closed spec fn writes(&self) -> Seq<(nat, nat)> {
        self.calls@
    }

    /// Reads go straight to the wrapped transport.
    closed spec fn delivered(&self) -> Seq<Seq<u8>> {
        self.inner.delivered()
    }

    /// Reads straight from the wrapped transport; the outbound queue is untouched.
    fn read(&mut self, buf: &mut [u8]) -> (r: Result<usize, T::Error>)
        ensures
            final(self).pending_bytes() == old(self).pending_bytes(),
    {
        self.inner.read(buf)
    }

    /// Queues as much of `buf` as fits and starts draining, so a steady stream never waits for
    /// the next pump alone. Returns the bytes queued.
    fn write(&mut self, buf: &[u8]) -> (r: Result<usize, T::Error>)
        ensures
            r matches Ok(n) ==> n == if buf@.len() <= TX_QUEUE_BYTES - old(
                self,
            ).pending_bytes().len() {
                buf@.len() as int
            } else {
                TX_QUEUE_BYTES - old(self).pending_bytes().len()
            },
            r matches Ok(n) ==> final(self).pending_bytes().len() <= old(self).pending_bytes().len()
                + n && final(self).pending_bytes() == (old(self).pending_bytes() + buf@.take(
                n as int,
            )).skip(old(self).pending_bytes().len() + n - final(self).pending_bytes().len()),
            r is Err ==> exists|taken: int, sent: int|
                0 <= taken <= buf@.len() && 0 <= sent && #[trigger] (old(
                    self,
                ).pending_bytes() + buf@.take(taken)).skip(sent) == final(self).pending_bytes(),
    {
        let ghost start = queued(self.queue);
        let room = TX_QUEUE_BYTES - queue_len(&self.queue);
        let mut accepted: usize = 0;
        while accepted < buf.len() && accepted < room
            invariant
                start == old(self).pending_bytes(),
                self.inner == old(self).inner,
                self.calls == old(self).calls,
                room == TX_QUEUE_BYTES - start.len(),
                accepted <= buf@.len(),
                accepted <= room,
                queued(self.queue) == start + buf@.take(accepted as int),
            ensures
                start == old(self).pending_bytes(),
                self.inner == old(self).inner,
                self.calls == old(self).calls,
                accepted <= buf@.len(),
                start.len() + accepted <= TX_QUEUE_BYTES,
                accepted == buf@.len() || start.len() + accepted == TX_QUEUE_BYTES,
                queued(self.queue) == start + buf@.take(accepted as int),
            decreases buf@.len() - accepted,
        {
            if !queue_push_back(&mut self.queue, buf[accepted]) {
                break;
            }
            accepted = accepted + 1;
            proof {
                assert(queued(self.queue) =~= start + buf@.take(accepted as int));
            }
        }
        let ghost mid = queued(self.queue);
        let pumped = self.pump();
        proof {
            let k = mid.len() - queued(self.queue).len();
            assert((old(self).pending_bytes() + buf@.take(accepted as int)).skip(k)
                == self.pending_bytes());
            if pumped is Ok && T::keeps_logs() {
                assert(mid.take(k) + mid.skip(k) =~= mid);
                assert(self.accepted() =~= old(self).accepted() + buf@.take(accepted as int));
            }
        }
        self.calls = Ghost(self.calls@.push((buf@.len(), accepted as nat)));
        match pumped {
            Ok(_) => Ok(accepted),
            Err(e) => Err(e),
        }
    }
}

} // verus!
