//! Big-endian integers, as the wire protocol and the log format store them.

use byteorder::{BigEndian, ByteOrder};
use vstd::prelude::*;

verus! {

/// The 16-bit value whose most significant byte is `hi`.
pub open spec fn u16_from_be(hi: u8, lo: u8) -> u16 {
    (hi as int * 256 + lo as int) as u16
}

/// The two bytes of `value`, most significant first.
pub open spec fn u16_to_be(value: u16) -> Seq<u8> {
    seq![(value / 256) as u8, (value % 256) as u8]
}

/// The 32-bit value whose most significant byte is `b0`.
pub open spec fn u32_from_be(b0: u8, b1: u8, b2: u8, b3: u8) -> u32 {
    (b0 as int * 0x100_0000 + b1 as int * 0x1_0000 + b2 as int * 0x100 + b3 as int) as u32
}

/// The four bytes of `value`, most significant first.
pub open spec fn u32_to_be(value: u32) -> Seq<u8> {
    seq![
        (value / 0x100_0000) as u8,
        (value / 0x1_0000 % 256) as u8,
        (value / 0x100 % 256) as u8,
        (value % 256) as u8,
    ]
}

/// Reading the bytes that were written for a 16-bit value gives the value back.
pub proof fn lemma_u16_be_roundtrip(value: u16)
    ensures
        u16_to_be(value).len() == 2,
        u16_from_be(u16_to_be(value)[0], u16_to_be(value)[1]) == value,
{
}

/// Reading the bytes that were written for a 32-bit value gives the value back.
pub proof fn lemma_u32_be_roundtrip(value: u32)
    ensures
        u32_to_be(value).len() == 4,
        u32_from_be(
            u32_to_be(value)[0],
            u32_to_be(value)[1],
            u32_to_be(value)[2],
            u32_to_be(value)[3],
        ) == value,
{
}

/// Calls `byteorder::BigEndian::read_u16`, which reads the first two bytes of
/// the buffer as a big-endian integer and panics on a shorter buffer.
#[verifier::external_body]
pub(crate) fn read_u16_be(buf: &[u8]) -> (value: u16)
    requires
        buf@.len() >= 2,
    ensures
        value == u16_from_be(buf@[0], buf@[1]),
{
    BigEndian::read_u16(buf)
}

/// Calls `byteorder::BigEndian::read_u32`, which reads the first four bytes of
/// the buffer as a big-endian integer and panics on a shorter buffer.
#[verifier::external_body]
pub(crate) fn read_u32_be(buf: &[u8]) -> (value: u32)
    requires
        buf@.len() >= 4,
    ensures
        value == u32_from_be(buf@[0], buf@[1], buf@[2], buf@[3]),
{
    BigEndian::read_u32(buf)
}

/// Calls `byteorder::BigEndian::write_u16` on a buffer of two bytes, which it
/// fills with the big-endian bytes of the value.
#[verifier::external_body]
pub(crate) fn write_u16_be(value: u16) -> (bytes: [u8; 2])
    ensures
        bytes@ == u16_to_be(value),
{
    let mut bytes = [0u8; 2];
    BigEndian::write_u16(&mut bytes, value);
    bytes
}

/// Calls `byteorder::BigEndian::write_u32` on a buffer of four bytes, which it
/// fills with the big-endian bytes of the value.
#[verifier::external_body]
pub(crate) fn write_u32_be(value: u32) -> (bytes: [u8; 4])
    ensures
        bytes@ == u32_to_be(value),
{
    let mut bytes = [0u8; 4];
    BigEndian::write_u32(&mut bytes, value);
    bytes
}

} // verus!
