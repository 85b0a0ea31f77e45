//! Moving bytes between the transport and the dispatcher.
//!
//! Inbound, each read's bytes go into the receive buffer; the caller reads again until a read
//! brings nothing. Outbound, a whole wire packet is offered to the transport until it is taken
//! or the transport stops accepting.

use crate::buffers::RX_CAPACITY;
use crate::device::framing::{push_all_spec, RxBuffer};
use crate::ports::Transport;
use vstd::prelude::*;

verus! {

/// A dispatch failure. Malformed protocol input is handled inside the dispatcher (dropped), so
/// only an underlying transport error surfaces.
#[derive(Debug, Clone, Copy, PartialEq, Eq)]
pub enum DispatchError<E> {
    /// The transport read or write failed.
    Transport(E),
}

/// Bytes requested from the transport per read.
pub const READ_CHUNK: usize = 128;

/// Reads once from `transport` and appends what arrived to `rx` (resetting it on overflow, as
/// [`RxBuffer::extend`] does). Returns how many bytes arrived; `0` means the transport had
/// nothing right now. On a transport error `rx` is unchanged.
pub fn fill_once<T: Transport>(rx: &mut RxBuffer, transport: &mut T) -> (r: Result<
    usize,
    DispatchError<T::Error>,
>)
    ensures
        T::keeps_logs() ==> final(transport).accepted() == old(transport).accepted(),
        T::keeps_logs() ==> final(transport).writes() == old(transport).writes(),
        match r {
            Ok(n) => n <= READ_CHUNK && exists|got: Seq<u8>|
                got.len() == n && #[trigger] push_all_spec(old(rx)@, RX_CAPACITY as nat, got)
                    == final(rx)@ && (T::keeps_logs() ==> final(transport).delivered() == old(
                    transport,
                ).delivered().push(got)),
            Err(_) => final(rx)@ == old(rx)@,
        },
{
    let mut chunk: Vec<u8> = vec![0u8; READ_CHUNK];
    let n = match transport.read(chunk.as_mut_slice()) {
        Ok(n) => n,
        Err(e) => {
            return Err(DispatchError::Transport(e));
        },
    };
    let got = vstd::slice::slice_subrange(chunk.as_slice(), 0, n);
    assert(got@ =~= chunk@.take(n as int));
    rx.extend(got);
    Ok(n)
}

/// Whether `after` is `before` followed by writes that each offered the rest of `wire` from
/// where the previous one stopped, starting at its beginning, and together took `sent` bytes.
pub open spec fn offered_in_turn(
    before: Seq<(nat, nat)>,
    after: Seq<(nat, nat)>,
    wire_len: nat,
    sent: nat,
) -> bool
    decreases after.len(),
{
    if after.len() <= before.len() {
        after == before && sent == 0
    } else {
        let (offered, took) = after.last();
        took <= sent && offered == wire_len - (sent - took) && offered_in_turn(
            before,
            after.drop_last(),
            wire_len,
            (sent - took) as nat,
        )
    }
}

/// Offers the whole of `wire` to `transport`, continuing after short writes, until all of it is
/// taken or a write takes nothing (the transport is full; delivery is best-effort). Returns the
/// bytes taken.
pub fn write_packet<T: Transport>(transport: &mut T, wire: &[u8]) -> (r: Result<
    usize,
    DispatchError<T::Error>,
>)
    ensures
        r matches Ok(sent) ==> sent <= wire@.len(),
        T::keeps_logs() ==> (r matches Ok(sent) ==> final(transport).accepted() == old(
            transport,
        ).accepted() + wire@.take(sent as int)),
        T::keeps_logs() ==> (r matches Ok(sent) ==> offered_in_turn(
            old(transport).writes(),
            final(transport).writes(),
            wire@.len(),
            sent as nat,
        )),
        T::keeps_logs() ==> (r matches Ok(sent) ==> sent == wire@.len() || ({
            let w = final(transport).writes();
            w.len() > old(transport).writes().len() && w.last().1 == 0
        })),
        wire@.len() == 0 ==> (r matches Ok(sent) && sent == 0),
        T::keeps_logs() ==> final(transport).delivered() == old(transport).delivered(),
{
    let mut sent: usize = 0;
    while sent < wire.len()
        invariant
            sent <= wire@.len(),
            T::keeps_logs() ==> transport.accepted() == old(transport).accepted() + wire@.take(
                sent as int,
            ),
            T::keeps_logs() ==> offered_in_turn(
                old(transport).writes(),
                transport.writes(),
                wire@.len(),
                sent as nat,
            ),
            T::keeps_logs() ==> transport.delivered() == old(transport).delivered(),
        ensures
            sent <= wire@.len(),
            T::keeps_logs() ==> transport.accepted() == old(transport).accepted() + wire@.take(
                sent as int,
            ),
            T::keeps_logs() ==> offered_in_turn(
                old(transport).writes(),
                transport.writes(),
                wire@.len(),
                sent as nat,
            ),
            T::keeps_logs() ==> (sent == wire@.len() || (transport.writes().len() > old(
                transport,
            ).writes().len() && transport.writes().last().1 == 0)),
            T::keeps_logs() ==> transport.delivered() == old(transport).delivered(),
        decreases wire@.len() - sent,
    {
        let rest = vstd::slice::slice_subrange(wire, sent, wire.len());
        let ghost before = transport.writes();
        let n = match transport.write(rest) {
            Ok(n) => n,
            Err(e) => {
                return Err(DispatchError::Transport(e));
            },
        };
        proof {
            assert(wire@.take(sent as int) + rest@.take(n as int) =~= wire@.take(sent + n));
            if T::keeps_logs() {
                let after = transport.writes();
                assert(after.drop_last() =~= before);
                assert(after.last() == (rest@.len(), n as nat));
            }
        }
        if n == 0 {
            break;
        }
        sent = sent + n;
    }
    Ok(sent)
}

} // verus!
