//! Reading from the front of a byte buffer with `bytes::Buf`.
//!
//! The functions here are the only ones whose contracts are taken on trust:
//! each one makes a single call into the `bytes` crate.

use bytes::Buf;
use vstd::prelude::*;

verus! {

/// The 16-bit value of two bytes, the high one first.
pub open spec fn be_u16(hi: u8, lo: u8) -> u16 {
    (hi as int * 256 + lo as int) as u16
}

/// `bytes::Buf::remaining` on a byte slice: the number of bytes left in it.
#[verifier::external_body]
pub(crate) fn remaining(buf: &[u8]) -> (n: usize)
    ensures
        n == buf@.len(),
{
    buf.remaining()
}

/// `bytes::Buf::get_u8` on a byte slice: hands out the first byte and moves the
/// slice past it. The outside function panics on an empty buffer, which
/// `requires` leaves out.
#[verifier::external_body]
pub(crate) fn get_u8(buf: &mut &[u8]) -> (b: u8)
    requires
        old(buf)@.len() >= 1,
    ensures
        b == old(buf)@[0],
        final(buf)@ == old(buf)@.skip(1),
{
    buf.get_u8()
}

/// `bytes::Buf::get_u16` on a byte slice: hands out the first two bytes as one
/// big-endian number and moves the slice past them. The outside function
/// panics when fewer than two bytes are left, which `requires` leaves out.
#[verifier::external_body]
pub(crate) fn get_u16(buf: &mut &[u8]) -> (v: u16)
    requires
        old(buf)@.len() >= 2,
    ensures
        v == be_u16(old(buf)@[0], old(buf)@[1]),
        final(buf)@ == old(buf)@.skip(2),
{
    buf.get_u16()
}

} // verus!
