//! Little-endian decoding of the signed 32-bit fields that both container
//! formats use on disk.

use byteorder::ByteOrder;
use vstd::bytes::spec_u32_from_le_bytes;
use vstd::prelude::*;

verus! {

/// The signed 32-bit value stored little-endian in the four bytes of `s`.
pub open spec fn le_i32_of(s: Seq<u8>) -> int
    recommends
        s.len() == 4,
{
    (spec_u32_from_le_bytes(s) as i32) as int
}

/// Relies on `byteorder::LittleEndian::read_i32`: reads the four bytes at
/// `at` as a little-endian two's-complement signed 32-bit integer.
#[verifier::external_body]
pub(crate) fn read_i32_at(buf: &[u8], at: usize) -> (r: i32)
    requires
        at + 4 <= buf@.len(),
    ensures
        r as int == le_i32_of(buf@.subrange(at as int, at as int + 4)),
{
    byteorder::LittleEndian::read_i32(&buf[at..at + 4])
}

} // verus!
