//! Big-endian integers as bytes.
use byteorder::{BigEndian, ByteOrder};
use vstd::prelude::*;
use crate::encoder::extended::be_bytes_u16;

verus! {

/// The four bytes of `value`, most significant first.
pub open spec fn be_bytes_u32(value: u32) -> Seq<u8> {
    seq![
        (value / 0x100_0000) as u8,
        (value / 0x1_0000 % 0x100) as u8,
        (value / 0x100 % 0x100) as u8,
        (value % 0x100) as u8,
    ]
}

/// The unsigned 32-bit number whose two's complement bit pattern is that of
/// `value`.
pub open spec fn bit_pattern_i32(value: i32) -> u32 {
    if value < 0 {
        (value + 0x1_0000_0000) as u32
    } else {
        value as u32
    }
}

/// Calls `byteorder::ByteOrder::write_u16` of `BigEndian` on a buffer of two
/// bytes.
///
/// Trusted: the call fills the buffer with the two bytes of `value`, most
/// significant first.
#[verifier::external_body]
pub(crate) fn u16_be(value: u16) -> (bytes: [u8; 2])
    ensures
        bytes@ == be_bytes_u16(value),
{
    let mut bytes = [0u8; 2];
    BigEndian::write_u16(&mut bytes, value);
    bytes
}

/// Calls `byteorder::ByteOrder::write_u32` of `BigEndian` on a buffer of
/// four bytes.
///
/// Trusted: the call fills the buffer with the four bytes of `value`, most
/// significant first.
#[verifier::external_body]
pub(crate) fn u32_be(value: u32) -> (bytes: [u8; 4])
    ensures
        bytes@ == be_bytes_u32(value),
{
    let mut bytes = [0u8; 4];
    BigEndian::write_u32(&mut bytes, value);
    bytes
}

/// Calls `byteorder::ByteOrder::write_i32` of `BigEndian` on a buffer of
/// four bytes.
///
/// Trusted: the call fills the buffer with the four bytes of the two's
/// complement bit pattern of `value`, most significant first.
#[verifier::external_body]
pub(crate) fn i32_be(value: i32) -> (bytes: [u8; 4])
    ensures
        bytes@ == be_bytes_u32(bit_pattern_i32(value)),
{
    let mut bytes = [0u8; 4];
    BigEndian::write_i32(&mut bytes, value);
    bytes
}

/// Appends the two bytes of `value`, most significant first.
pub fn write_u16_be(buffer: &mut Vec<u8>, value: u16)
    ensures
        final(buffer)@ == old(buffer)@ + be_bytes_u16(value),
{
    let bytes = u16_be(value);
    buffer.extend_from_slice(&bytes);
}

/// Appends the four bytes of `value`, most significant first.
pub fn write_u32_be(buffer: &mut Vec<u8>, value: u32)
    ensures
        final(buffer)@ == old(buffer)@ + be_bytes_u32(value),
{
    let bytes = u32_be(value);
    buffer.extend_from_slice(&bytes);
}

/// Appends the four bytes of the bit pattern of `value`, most significant
/// first.
pub fn write_i32_be(buffer: &mut Vec<u8>, value: i32)
    ensures
        final(buffer)@ == old(buffer)@ + be_bytes_u32(bit_pattern_i32(value)),
{
    let bytes = i32_be(value);
    buffer.extend_from_slice(&bytes);
}

} // verus!
