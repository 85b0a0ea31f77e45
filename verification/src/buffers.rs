//! Fixed-capacity byte buffers (`heapless::Vec`), as the device keeps them: the receive buffer
//! of the link and the two directions of the simulated pipe.
//!
//! Each capacity is its own type; what a buffer holds is named per type, and the calls the
//! library makes are given their contracts here.

use heapless::Vec as HVec;
use vstd::prelude::*;

verus! {

/// Receive-buffer capacity: two whole wire packets.
pub const RX_CAPACITY: usize = 1024;

/// Capacity of each direction of the simulated pipe.
pub const PIPE_CAPACITY: usize = 8192;

#[verifier::external_type_specification]
#[verifier::external_body]
#[verifier::reject_recursive_types(T)]
pub struct ExHVec<T, const N: usize>(HVec<T, N>);

/// The bytes a receive buffer holds, in order.
pub uninterp spec fn rx_held(v: HVec<u8, 1024>) -> Seq<u8>;

/// The bytes one direction of the simulated pipe holds, in order.
pub uninterp spec fn pipe_held(v: HVec<u8, 8192>) -> Seq<u8>;

/// An empty receive buffer (`heapless::Vec::new`).
#[verifier::external_body]
pub(crate) fn rx_new() -> (v: HVec<u8, 1024>)
    ensures
        rx_held(v) == Seq::<u8>::empty(),
{
    HVec::new()
}

/// The bytes held (`heapless::Vec::len`), never more than the capacity.
#[verifier::external_body]
pub(crate) fn rx_len(v: &HVec<u8, 1024>) -> (n: usize)
    ensures
        n == rx_held(*v).len(),
        n <= RX_CAPACITY,
{
    v.len()
}

/// Appends `b` (`heapless::Vec::push`); a full buffer refuses it and is unchanged.
#[verifier::external_body]
pub(crate) fn rx_push(v: &mut HVec<u8, 1024>, b: u8) -> (ok: bool)
    ensures
        rx_held(*old(v)).len() < RX_CAPACITY ==> ok && rx_held(*final(v)) == rx_held(*old(v)).push(
            b,
        ),
        rx_held(*old(v)).len() >= RX_CAPACITY ==> !ok && rx_held(*final(v)) == rx_held(*old(v)),
{
    v.push(b).is_ok()
}

/// The bytes held, as a slice (`heapless::Vec::as_slice`).
#[verifier::external_body]
pub(crate) fn rx_as_slice(v: &HVec<u8, 1024>) -> (s: &[u8])
    ensures
        s@ == rx_held(*v),
{
    v.as_slice()
}

/// An empty pipe direction (`heapless::Vec::new`).
#[verifier::external_body]
pub(crate) fn pipe_new() -> (v: HVec<u8, 8192>)
    ensures
        pipe_held(v) == Seq::<u8>::empty(),
{
    HVec::new()
}

/// The bytes held (`heapless::Vec::len`), never more than the capacity.
#[verifier::external_body]
pub(crate) fn pipe_len(v: &HVec<u8, 8192>) -> (n: usize)
    ensures
        n == pipe_held(*v).len(),
        n <= PIPE_CAPACITY,
{
    v.len()
}

/// Appends all of `bytes` (`heapless::Vec::extend_from_slice`), or, when they do not all fit,
/// nothing.
#[verifier::external_body]
pub(crate) fn pipe_extend(v: &mut HVec<u8, 8192>, bytes: &[u8]) -> (r: Result<(), ()>)
    ensures
        pipe_held(*old(v)).len() + bytes@.len() <= PIPE_CAPACITY ==> r is Ok && pipe_held(
            *final(v),
        ) == pipe_held(*old(v)) + bytes@,
        pipe_held(*old(v)).len() + bytes@.len() > PIPE_CAPACITY ==> r is Err && pipe_held(
            *final(v),
        ) == pipe_held(*old(v)),
{
    v.extend_from_slice(bytes)
}

/// The bytes held, as a slice (`heapless::Vec::as_slice`).
#[verifier::external_body]
pub(crate) fn pipe_as_slice(v: &HVec<u8, 8192>) -> (s: &[u8])
    ensures
        s@ == pipe_held(*v),
{
    v.as_slice()
}

/// Empties the buffer (`heapless::Vec::clear`).
#[verifier::external_body]
pub(crate) fn pipe_clear(v: &mut HVec<u8, 8192>)
    ensures
        pipe_held(*final(v)) == Seq::<u8>::empty(),
{
    v.clear()
}

} // verus!
