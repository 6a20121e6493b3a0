//! Little-endian integers, as the container stores them.

use vstd::prelude::*;

verus! {

/// The unsigned 16-bit value whose low byte is `b0` and whose high byte is `b1`.
pub open spec fn le_u16(b0: u8, b1: u8) -> int {
    b0 as int + 256 * (b1 as int)
}

/// The unsigned 32-bit value stored low byte first in `b0..b3`.
pub open spec fn le_u32(b0: u8, b1: u8, b2: u8, b3: u8) -> int {
    b0 as int + 256 * (b1 as int) + 65536 * (b2 as int) + 16777216 * (b3 as int)
}

/// The signed 16-bit value, in two's complement, whose low byte is `b0` and
/// whose high byte is `b1`.
pub open spec fn le_i16(b0: u8, b1: u8) -> int {
    if le_u16(b0, b1) < 32768 {
        le_u16(b0, b1)
    } else {
        le_u16(b0, b1) - 65536
    }
}

/// Decodes an unsigned 16-bit little-endian value.
pub fn u16_from_le(b0: u8, b1: u8) -> (v: u16)
    ensures
        v as int == le_u16(b0, b1),
{
    let low: u16 = b0 as u16;
    let high: u16 = b1 as u16;
    low + 256 * high
}

/// Decodes an unsigned 32-bit little-endian value.
pub fn u32_from_le(b0: u8, b1: u8, b2: u8, b3: u8) -> (v: u32)
    ensures
        v as int == le_u32(b0, b1, b2, b3),
{
    let w0: u32 = b0 as u32;
    let w1: u32 = b1 as u32;
    let w2: u32 = b2 as u32;
    let w3: u32 = b3 as u32;
    w0 + 256 * w1 + 65536 * w2 + 16777216 * w3
}

/// Decodes a signed 16-bit little-endian value.
pub fn i16_from_le(b0: u8, b1: u8) -> (v: i16)
    ensures
        v as int == le_i16(b0, b1),
{
    let wide: i32 = b0 as i32 + 256 * (b1 as i32);
    if wide < 32768 {
        wide as i16
    } else {
        (wide - 65536) as i16
    }
}

} // verus!
