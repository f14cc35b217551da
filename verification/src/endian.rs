//! Little-endian integers, as the wire format lays them out.

use byteorder::{ByteOrder, LittleEndian};
use vstd::arithmetic::power2::{lemma2_to64, lemma2_to64_rest, lemma_pow2_unfold, pow2};
use vstd::bits::{lemma_u64_pow2_no_overflow, lemma_u64_shl_is_mul};
use vstd::prelude::*;

verus! {

/// The 16-bit value whose little-endian bytes start at index `at`.
pub open spec fn le_u16(bytes: Seq<u8>, at: int) -> nat {
    bytes[at] as nat + 0x100 * bytes[at + 1] as nat
}

/// The 32-bit value whose little-endian bytes start at index `at`.
pub open spec fn le_u32(bytes: Seq<u8>, at: int) -> nat {
    bytes[at] as nat + 0x100 * bytes[at + 1] as nat + 0x1_0000 * bytes[at + 2] as nat + 0x100_0000
        * bytes[at + 3] as nat
}

/// The 64-bit value whose little-endian bytes start at index `at`.
pub open spec fn le_u64(bytes: Seq<u8>, at: int) -> nat {
    le_u32(bytes, at) + 0x1_0000_0000 * le_u32(bytes, at + 4)
}

/// The two's-complement reading of a `bits`-wide pattern `raw`: patterns
/// with the top bit set stand for `raw - 2^bits`.
pub open spec fn twos_complement(raw: int, bits: nat) -> int {
    if raw >= pow2((bits - 1) as nat) {
        raw - pow2(bits)
    } else {
        raw
    }
}

/// Calls `byteorder::LittleEndian::read_u16`, which reads the first two
/// bytes of `buf` as a little-endian integer and panics on a shorter
/// buffer.
#[verifier::external_body]
pub(crate) fn read_u16_le(buf: &[u8]) -> (value: u16)
    requires
        buf@.len() >= 2,
    ensures
        value == le_u16(buf@, 0),
{
    LittleEndian::read_u16(buf)
}

/// Calls `byteorder::LittleEndian::read_u32`, which reads the first four
/// bytes of `buf` as a little-endian integer and panics on a shorter
/// buffer.
#[verifier::external_body]
pub(crate) fn read_u32_le(buf: &[u8]) -> (value: u32)
    requires
        buf@.len() >= 4,
    ensures
        value == le_u32(buf@, 0),
{
    LittleEndian::read_u32(buf)
}

/// Calls `byteorder::LittleEndian::read_u64`, which reads the first eight
/// bytes of `buf` as a little-endian integer and panics on a shorter
/// buffer.
#[verifier::external_body]
pub(crate) fn read_u64_le(buf: &[u8]) -> (value: u64)
    requires
        buf@.len() >= 8,
    ensures
        value == le_u64(buf@, 0),
{
    LittleEndian::read_u64(buf)
}

/// Reads an 8-bit pattern as a two's-complement number.
pub fn signed_8(raw: u8) -> (value: i8)
    ensures
        value == twos_complement(raw as int, 8),
{
    proof {
        lemma2_to64();
    }
    if raw >= 0x80 {
        ((raw - 0x80) as i8) + i8::MIN
    } else {
        raw as i8
    }
}

/// Reads a 16-bit pattern as a two's-complement number.
pub fn signed_16(raw: u16) -> (value: i16)
    ensures
        value == twos_complement(raw as int, 16),
{
    proof {
        lemma2_to64();
    }
    if raw >= 0x8000 {
        ((raw - 0x8000) as i16) + i16::MIN
    } else {
        raw as i16
    }
}

/// Reads a 32-bit pattern as a two's-complement number.
pub fn signed_32(raw: u32) -> (value: i32)
    ensures
        value == twos_complement(raw as int, 32),
{
    proof {
        lemma2_to64();
    }
    if raw >= 0x8000_0000 {
        ((raw - 0x8000_0000) as i32) + i32::MIN
    } else {
        raw as i32
    }
}

/// Reads a 64-bit pattern as a two's-complement number.
pub fn signed_64(raw: u64) -> (value: i64)
    ensures
        value == twos_complement(raw as int, 64),
{
    proof {
        lemma2_to64();
        lemma_pow2_unfold(64);
    }
    if raw >= 0x8000_0000_0000_0000 {
        ((raw - 0x8000_0000_0000_0000) as i64) + i64::MIN
    } else {
        raw as i64
    }
}

/// Sign-extends an `n`-bit pattern to 64 bits: when bit `n - 1` of `raw`
/// is set, all higher bits are set too.
pub fn sign_extend(raw: u64, n: usize) -> (value: i64)
    requires
        1 <= n <= 64,
        raw < pow2(n as nat),
    ensures
        value == twos_complement(raw as int, n as nat),
{
    let shift: u64 = (n - 1) as u64;
    proof {
        lemma2_to64();
        lemma2_to64_rest();
        lemma_pow2_unfold(n as nat);
        lemma_u64_pow2_no_overflow(shift as nat);
        lemma_u64_shl_is_mul(1, shift);
    }
    let half: u64 = 1u64 << shift;
    if raw >= half {
        let low = raw - half;
        if n == 64 {
            (low as i64) + i64::MIN
        } else {
            (low as i64) - (half as i64)
        }
    } else {
        raw as i64
    }
}

} // verus!
