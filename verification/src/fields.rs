//! Primitive field readers: fixed-width big-endian integers.
//!
//! Each wire integer is defined once as a specification function over the
//! exact byte range that encodes it, and read by an executable function
//! proved to return that value.  Signed widths use two's-complement
//! interpretation of the corresponding unsigned value.

use vstd::prelude::*;

verus! {

/// The 16-bit big-endian unsigned integer held by a 2-byte sequence.
pub open spec fn be_u16(s: Seq<u8>) -> u16
    recommends
        s.len() == 2,
{
    (s[0] * 0x100 + s[1]) as u16
}

/// The 24-bit big-endian unsigned integer held by a 3-byte sequence.
pub open spec fn be_u24(s: Seq<u8>) -> u32
    recommends
        s.len() == 3,
{
    (s[0] * 0x1_0000 + s[1] * 0x100 + s[2]) as u32
}

/// The 32-bit big-endian unsigned integer held by a 4-byte sequence.
pub open spec fn be_u32(s: Seq<u8>) -> u32
    recommends
        s.len() == 4,
{
    (s[0] * 0x100_0000 + s[1] * 0x1_0000 + s[2] * 0x100 + s[3]) as u32
}

/// The 64-bit big-endian unsigned integer held by an 8-byte sequence.
///
/// The wire format stores IEEE-754 doubles in this byte order; the decoder
/// keeps them as their 64 raw bits, which this function defines.
pub open spec fn be_u64(s: Seq<u8>) -> u64
    recommends
        s.len() == 8,
{
    (s[0] * 0x100_0000_0000_0000 + s[1] * 0x1_0000_0000_0000 + s[2] * 0x100_0000_0000 + s[3]
        * 0x1_0000_0000 + s[4] * 0x100_0000 + s[5] * 0x1_0000 + s[6] * 0x100 + s[7]) as u64
}

/// The 16-bit big-endian two's-complement integer held by a 2-byte sequence.
pub open spec fn be_i16(s: Seq<u8>) -> i16
    recommends
        s.len() == 2,
{
    if be_u16(s) >= 0x8000 {
        (be_u16(s) - 0x1_0000) as i16
    } else {
        be_u16(s) as i16
    }
}

/// The 24-bit big-endian two's-complement integer held by a 3-byte
/// sequence, widened to 32 bits.
pub open spec fn be_i24(s: Seq<u8>) -> i32
    recommends
        s.len() == 3,
{
    if be_u24(s) >= 0x80_0000 {
        (be_u24(s) - 0x100_0000) as i32
    } else {
        be_u24(s) as i32
    }
}

/// Reads the 16-bit big-endian unsigned integer at `at`.
pub fn read_be_u16(input: &[u8], at: usize) -> (r: u16)
    requires
        at + 2 <= input@.len(),
    ensures
        r == be_u16(input@.subrange(at as int, at + 2)),
{
    let b0 = input[at];
    let b1 = input[at + 1];
    b0 as u16 * 0x100 + b1 as u16
}

/// Reads the 24-bit big-endian unsigned integer at `at`.
pub fn read_be_u24(input: &[u8], at: usize) -> (r: u32)
    requires
        at + 3 <= input@.len(),
    ensures
        r == be_u24(input@.subrange(at as int, at + 3)),
{
    let b0 = input[at];
    let b1 = input[at + 1];
    let b2 = input[at + 2];
    b0 as u32 * 0x1_0000 + b1 as u32 * 0x100 + b2 as u32
}

/// Reads the 32-bit big-endian unsigned integer at `at`.
pub fn read_be_u32(input: &[u8], at: usize) -> (r: u32)
    requires
        at + 4 <= input@.len(),
    ensures
        r == be_u32(input@.subrange(at as int, at + 4)),
{
    let b0 = input[at];
    let b1 = input[at + 1];
    let b2 = input[at + 2];
    let b3 = input[at + 3];
    b0 as u32 * 0x100_0000 + b1 as u32 * 0x1_0000 + b2 as u32 * 0x100 + b3 as u32
}

/// Reads the 64-bit big-endian unsigned integer at `at`.
pub fn read_be_u64(input: &[u8], at: usize) -> (r: u64)
    requires
        at + 8 <= input@.len(),
    ensures
        r == be_u64(input@.subrange(at as int, at + 8)),
{
    let b0 = input[at];
    let b1 = input[at + 1];
    let b2 = input[at + 2];
    let b3 = input[at + 3];
    let b4 = input[at + 4];
    let b5 = input[at + 5];
    let b6 = input[at + 6];
    let b7 = input[at + 7];
    b0 as u64 * 0x100_0000_0000_0000 + b1 as u64 * 0x1_0000_0000_0000 + b2 as u64 * 0x100_0000_0000
        + b3 as u64 * 0x1_0000_0000 + b4 as u64 * 0x100_0000 + b5 as u64 * 0x1_0000 + b6 as u64
        * 0x100 + b7 as u64
}

/// Reads the 16-bit big-endian two's-complement integer at `at`.
pub fn read_be_i16(input: &[u8], at: usize) -> (r: i16)
    requires
        at + 2 <= input@.len(),
    ensures
        r == be_i16(input@.subrange(at as int, at + 2)),
{
    let v = read_be_u16(input, at);
    if v >= 0x8000 {
        (v as i32 - 0x1_0000) as i16
    } else {
        v as i16
    }
}

/// Reads the 24-bit big-endian two's-complement integer at `at`,
/// sign-extended to 32 bits.
pub fn read_be_i24(input: &[u8], at: usize) -> (r: i32)
    requires
        at + 3 <= input@.len(),
    ensures
        r == be_i24(input@.subrange(at as int, at + 3)),
{
    let v = read_be_u24(input, at);
    if v >= 0x80_0000 {
        v as i32 - 0x100_0000
    } else {
        v as i32
    }
}

} // verus!
