//! Shared bit-level spec functions: two's-complement readings of machine
//! words, sign extension, and little-endian byte composition.

use vstd::prelude::*;

verus! {

/// The signed value a 64-bit word encodes in two's complement.
pub open spec fn s64(x: u64) -> int {
    if x >= 0x8000000000000000 {
        x - 0x10000000000000000
    } else {
        x as int
    }
}

/// The signed value a 32-bit word encodes in two's complement.
pub open spec fn s32(x: u32) -> int {
    if x >= 0x80000000 {
        x - 0x100000000
    } else {
        x as int
    }
}

/// Sign extension of a byte to 64 bits.
pub open spec fn sext8(x: u8) -> u64 {
    if x >= 0x80 {
        (x as u64) | 0xFFFFFFFFFFFFFF00
    } else {
        x as u64
    }
}

/// Sign extension of a 16-bit half to 64 bits.
pub open spec fn sext16(x: u16) -> u64 {
    if x >= 0x8000 {
        (x as u64) | 0xFFFFFFFFFFFF0000
    } else {
        x as u64
    }
}

/// Sign extension of a 32-bit word to 64 bits.
pub open spec fn sext32(x: u32) -> u64 {
    if x >= 0x80000000 {
        (x as u64) | 0xFFFFFFFF00000000
    } else {
        x as u64
    }
}

/// A 16-bit value from two little-endian bytes.
pub open spec fn le16(b0: u8, b1: u8) -> u16 {
    (b0 + b1 * 0x100) as u16
}

/// A 32-bit value from four little-endian bytes.
pub open spec fn le32(b0: u8, b1: u8, b2: u8, b3: u8) -> u32 {
    (b0 + b1 * 0x100 + b2 * 0x10000 + b3 * 0x1000000) as u32
}

/// A 64-bit value from eight little-endian bytes.
pub open spec fn le64(b0: u8, b1: u8, b2: u8, b3: u8, b4: u8, b5: u8, b6: u8, b7: u8) -> u64 {
    (b0 + b1 * 0x100 + b2 * 0x10000 + b3 * 0x1000000 + b4 * 0x100000000 + b5 * 0x10000000000 + b6
        * 0x1000000000000 + b7 * 0x100000000000000) as u64
}

/// Sign extension wrapped as an executable operation.
pub fn sign_extend8(x: u8) -> (r: u64)
    ensures
        r == sext8(x),
{
    if x >= 0x80 {
        (x as u64) | 0xFFFFFFFFFFFFFF00
    } else {
        x as u64
    }
}

pub fn sign_extend16(x: u16) -> (r: u64)
    ensures
        r == sext16(x),
{
    if x >= 0x8000 {
        (x as u64) | 0xFFFFFFFFFFFF0000
    } else {
        x as u64
    }
}

pub fn sign_extend32(x: u32) -> (r: u64)
    ensures
        r == sext32(x),
{
    if x >= 0x80000000 {
        (x as u64) | 0xFFFFFFFF00000000
    } else {
        x as u64
    }
}

/// Relates a truncating cast to 32 bits with its two's-complement reading.
pub proof fn lemma_s32_cast(x: u32)
    by (bit_vector)
    ensures
        (x as i32) as int == s32(x),
        (x as i32) as u32 == x,
{
}

/// Relates a truncating cast to 64 bits with its two's-complement reading.
pub proof fn lemma_s64_cast(x: u64)
    by (bit_vector)
    ensures
        (x as i64) as int == s64(x),
        (x as i64) as u64 == x,
{
}

/// A signed 64-bit value cast back to its unsigned encoding.
pub proof fn lemma_i64_round_trip(x: i64)
    by (bit_vector)
    ensures
        s64(x as u64) == x as int,
        (x as u64) as int == (if x >= 0 {
            x as int
        } else {
            x + 0x10000000000000000
        }),
{
}

/// How a signed 32-bit value reaches a 64-bit register: sign-extended.
pub proof fn lemma_i32_ext(q: i32)
    by (bit_vector)
    ensures
        (q as u64) == sext32(q as u32),
        ((q as i64) as u64) == sext32(q as u32),
        (q as u32) as int == (if q >= 0 {
            q as int
        } else {
            q + 0x100000000
        }),
        s32(q as u32) == q as int,
{
}

/// Shift amounts taken from the low six (or five) bits stay in range.
pub proof fn lemma_shamt_bounds(v: u64)
    by (bit_vector)
    ensures
        v & 0x3F < 64,
        v & 0x1F < 32,
{
}

/// Splits a 128-bit product into its high and low 64-bit halves.
pub proof fn lemma_split128_u(p: u128)
    by (bit_vector)
    ensures
        p == (p >> 64u32) * 0x10000000000000000 + (p & 0xFFFFFFFFFFFFFFFF),
        (p & 0xFFFFFFFFFFFFFFFF) < 0x10000000000000000,
        (p >> 64u32) < 0x10000000000000000,
{
}

/// Splits a signed 128-bit product into its arithmetic high half and its
/// non-negative low half.
pub proof fn lemma_split128_s(p: i128)
    by (bit_vector)
    ensures
        p == (p >> 64u32) * 0x10000000000000000 + ((p & 0xFFFFFFFFFFFFFFFF) as i128),
        0 <= (p & 0xFFFFFFFFFFFFFFFF) < 0x10000000000000000,
{
}

} // verus!
