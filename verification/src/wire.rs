//! Fixed-width integers as they lie in the stream.
//!
//! The metadata block header stores its length big-endian, the fields inside
//! a Vorbis comment block store theirs little-endian. The decoding itself is
//! done by the `byteorder` crate; this module says what each call returns.

use byteorder::{BigEndian, ByteOrder, LittleEndian};
use vstd::prelude::*;

verus! {

/// The value of four bytes read as an unsigned integer, lowest byte first.
pub open spec fn le_u32(b: Seq<u8>) -> int
    recommends
        b.len() == 4,
{
    b[0] as int + 0x100 * (b[1] as int) + 0x1_0000 * (b[2] as int) + 0x100_0000 * (b[3] as int)
}

/// The value of four bytes read as an unsigned integer, highest byte first.
pub open spec fn be_u32(b: Seq<u8>) -> int
    recommends
        b.len() == 4,
{
    0x100_0000 * (b[0] as int) + 0x1_0000 * (b[1] as int) + 0x100 * (b[2] as int) + b[3] as int
}

/// Trusted: `byteorder::LittleEndian::read_u32` (through the `ByteOrder`
/// trait). The crate turns the first four bytes of the slice into a `u32`
/// with `u32::from_le_bytes`; the contract states that value as [`le_u32`].
/// The array type rules out the short slice on which the call panics.
#[verifier::external_body]
pub(crate) fn read_le_u32(buf: &[u8; 4]) -> (v: u32)
    ensures
        v as int == le_u32(buf@),
{
    LittleEndian::read_u32(buf)
}

/// Trusted: `byteorder::BigEndian::read_u32` (through the `ByteOrder`
/// trait). The crate turns the first four bytes of the slice into a `u32`
/// with `u32::from_be_bytes`; the contract states that value as [`be_u32`].
/// The array type rules out the short slice on which the call panics.
#[verifier::external_body]
pub(crate) fn read_be_u32(buf: &[u8; 4]) -> (v: u32)
    ensures
        v as int == be_u32(buf@),
{
    BigEndian::read_u32(buf)
}

} // verus!
