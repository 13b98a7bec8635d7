//! Bit-level vocabulary shared by the CPU and the bus.
use vstd::prelude::*;

verus! {

/// Bit `i` of `x`.
pub open spec fn bit(x: u32, i: u32) -> bool {
    (x >> i) & 1 == 1
}

/// The two's-complement value of a 32-bit word.
pub open spec fn signed(x: u32) -> int {
    if x < 0x8000_0000 {
        x as int
    } else {
        x as int - 0x1_0000_0000
    }
}

/// Whether an integer fits in a signed 32-bit word.
pub open spec fn fits_i32(x: int) -> bool {
    -0x8000_0000 <= x < 0x8000_0000
}

/// A word reduced modulo 2^32.
pub open spec fn wrap32(x: int) -> u32 {
    (x % 0x1_0000_0000) as u32
}

/// A mask bounds what it keeps.
pub broadcast proof fn lemma_and_bound(x: u32, m: u32)
    ensures
        #[trigger] (x & m) <= m,
        (x & m) <= x,
{
    assert((x & m) <= m && (x & m) <= x) by (bit_vector);
}

/// A mask bounds what it keeps (halfwords).
pub broadcast proof fn lemma_and_bound16(x: u16, m: u16)
    ensures
        #[trigger] (x & m) <= m,
        (x & m) <= x,
{
    assert((x & m) <= m && (x & m) <= x) by (bit_vector);
}

/// A right shift does not grow a word.
pub broadcast proof fn lemma_shr_bound(x: u32, k: u32)
    ensures
        #[trigger] (x >> k) <= x,
{
    assert((x >> k) <= x) by (bit_vector);
}

pub proof fn lemma_bit0(x: u32)
    ensures
        ((x >> 0u32) & 1 == 1) == (x & 1 == 1),
        (x >> 0u32) == x,
{
    lemma_word_ends(x);
}

pub proof fn lemma_bit31(x: u32)
    ensures
        ((x >> 31) & 1 == 1) == (x >= 0x8000_0000),
        ((x >> 31) == 1) == (x >= 0x8000_0000),
        ((x >> 31) & 1 == 0) == (x < 0x8000_0000),
{
    lemma_word_ends(x);
}

proof fn lemma_word_ends(x: u32)
    ensures
        ((x >> 0u32) & 1 == 1) == (x & 1 == 1),
        (x >> 0u32) == x,
        ((x >> 31) & 1 == 1) == (x >= 0x8000_0000),
        ((x >> 31) == 1) == (x >= 0x8000_0000),
        ((x >> 31) & 1 == 0) == (x < 0x8000_0000),
{
    assert(((x >> 0u32) & 1 == 1) == (x & 1 == 1) && (x >> 0u32) == x && ((x >> 31) & 1 == 1) == (x
        >= 0x8000_0000) && ((x >> 31) == 1) == (x >= 0x8000_0000) && ((x >> 31) & 1 == 0) == (x
        < 0x8000_0000)) by (bit_vector);
}

/// Two bytes make a little-endian halfword.
pub proof fn lemma_bytes_u16(lo: u16, hi: u16)
    requires
        lo <= 0xFF,
        hi <= 0xFF,
    ensures
        lo | (hi << 8u16) == lo + hi * 256,
{
    assert(lo | (hi << 8u16) == lo + hi * 256) by (bit_vector)
        requires
            lo <= 0xFF,
            hi <= 0xFF,
    ;
}

/// Filling the high bits of a negative byte or halfword adds them.
pub proof fn lemma_sign_fill(byte: u8, half: u16)
    ensures
        byte >= 0x80 ==> (byte as u32) | 0xFFFF_FF00 == (byte as u32) + 0xFFFF_FF00u32,
        half >= 0x8000 ==> (half as u32) | 0xFFFF_0000 == (half as u32) + 0xFFFF_0000u32,
{
    lemma_byte_bits(byte, 0, half, 0);
}

proof fn lemma_byte_bits(byte: u8, hi: u8, half: u16, x: u16)
    ensures
        byte >= 0x80 ==> (byte as u32) | 0xFFFF_FF00 == (byte as u32) + 0xFFFF_FF00u32,
        half >= 0x8000 ==> (half as u32) | 0xFFFF_0000 == (half as u32) + 0xFFFF_0000u32,
        (byte & 0xF) == byte % 16,
        ((byte >> 4) & 0xF) == byte / 16,
        (byte | 2) & 2 == 2,
        (byte & !0x80u8) & 0x80 == 0,
        ((byte + hi * 256) as u16) & 0x3F == (byte & 0x3F) as u16,
        (((byte + hi * 256) as u16) >> 8) & 0x3F == (hi & 0x3F) as u16,
        x <= 0xFF ==> x << 2u16 == x * 4,
        x <= 0x1F ==> ((x as u32) << 1u32) == x * 2,
{
    assert((byte >= 0x80 ==> (byte as u32) | 0xFFFF_FF00 == (byte as u32) + 0xFFFF_FF00u32) && (half
        >= 0x8000 ==> (half as u32) | 0xFFFF_0000 == (half as u32) + 0xFFFF_0000u32) && (byte & 0xF)
        == byte % 16 && ((byte >> 4) & 0xF) == byte / 16 && (byte | 2) & 2 == 2 && (byte & !0x80u8)
        & 0x80 == 0 && ((byte + hi * 256) as u16) & 0x3F == (byte & 0x3F) as u16 && (((byte + hi * 256)
        as u16) >> 8) & 0x3F == (hi & 0x3F) as u16 && (x <= 0xFF ==> x
        << 2u16 == x * 4) && (x <= 0x1F ==> ((x as u32) << 1u32) == x * 2)) by (bit_vector);
}

/// Clearing bit 7 leaves it clear.
pub proof fn lemma_clear_bit7(byte: u8)
    ensures
        (byte & !0x80u8) & 0x80 == 0,
{
    lemma_byte_bits(byte, 0, 0, 0);
}

/// The low six bits of each byte of a little-endian halfword.
pub proof fn lemma_six_bit_fields(lo: u8, hi: u8)
    ensures
        ((lo + hi * 256) as u16) & 0x3F == (lo & 0x3F) as u16,
        (((lo + hi * 256) as u16) >> 8) & 0x3F == (hi & 0x3F) as u16,
{
    lemma_byte_bits(lo, hi, 0, 0);
}

/// Or-ing in a bit sets it.
pub proof fn lemma_or_sets_bit1(byte: u8)
    ensures
        (byte | 2) & 2 == 2,
{
    lemma_byte_bits(byte, 0, 0, 0);
}

/// Small left shifts of halfword fields are multiplications.
pub proof fn lemma_small_shifts(x: u16)
    ensures
        x <= 0xFF ==> x << 2u16 == x * 4,
        x <= 0x1F ==> ((x as u32) << 1u32) == x * 2,
{
    lemma_byte_bits(0, 0, 0, x);
}

/// The low and high nibbles of a byte.
pub proof fn lemma_nibbles(byte: u8)
    ensures
        (byte & 0xF) == byte % 16,
        ((byte >> 4) & 0xF) == byte / 16,
{
    lemma_byte_bits(byte, 0, 0, 0);
}

} // verus!
