//! A forward-only cursor over a byte buffer that reads single bits, bit
//! fields and byte-aligned little-endian integers.
//!
//! Bits are numbered from the least significant bit of the first byte, so
//! bit `i` of a buffer is bit `i % 8` of byte `i / 8`, and a bit field's
//! first bit is the lowest bit of its value.

use crate::endian::{
    le_u16, le_u32, le_u64, read_u16_le, read_u32_le, read_u64_le, signed_16, signed_32, signed_64,
    signed_8,
    twos_complement,
};
use crate::error::DecodeError;
use vstd::arithmetic::power2::{
    lemma2_to64, lemma_pow2_adds, lemma_pow2_strictly_increases, lemma_pow2_unfold, pow2,
};
use vstd::prelude::*;
use vstd::slice::{slice_subrange, slice_to_vec};

verus! {

/// The first byte boundary at or after bit position `pos`.
pub open spec fn align_up(pos: nat) -> nat {
    ((pos + 7) / 8 * 8) as nat
}

/// Bit `i` of the buffer.
pub open spec fn bit_at(data: Seq<u8>, i: nat) -> bool {
    (data[(i / 8) as int] >> ((i % 8) as u8)) & 1u8 == 1u8
}

/// The value of the `n` bits that start at bit `pos`, the first bit being
/// the least significant.
pub open spec fn bits_value(data: Seq<u8>, pos: nat, n: nat) -> nat
    decreases n,
{
    if n == 0 {
        0
    } else {
        bits_value(data, pos, (n - 1) as nat) + if bit_at(data, (pos + n - 1) as nat) {
            pow2((n - 1) as nat)
        } else {
            0
        }
    }
}

/// Reading one bit at `pos`: the bit and the position after it.
pub open spec fn spec_read_bit(data: Seq<u8>, pos: nat) -> Result<(bool, nat), DecodeError> {
    if pos < 8 * data.len() {
        Ok((bit_at(data, pos), pos + 1))
    } else {
        Err(DecodeError::Truncated)
    }
}

/// Reading an `n`-bit field at `pos`: its value and the position after it.
pub open spec fn spec_read_bits(data: Seq<u8>, pos: nat, n: nat) -> Result<
    (nat, nat),
    DecodeError,
> {
    if pos + n <= 8 * data.len() {
        Ok((bits_value(data, pos, n), pos + n))
    } else {
        Err(DecodeError::Truncated)
    }
}

/// Whether `width` whole bytes are left at the byte-aligned position `pos`.
pub open spec fn has_bytes(data: Seq<u8>, pos: nat, width: nat) -> bool {
    pos / 8 + width <= data.len()
}

/// Loading one byte at the byte-aligned position `pos`.
pub open spec fn spec_load_u8(data: Seq<u8>, pos: nat) -> Result<(nat, nat), DecodeError> {
    if has_bytes(data, pos, 1) {
        Ok((data[(pos / 8) as int] as nat, pos + 8))
    } else {
        Err(DecodeError::Truncated)
    }
}

/// Loading a little-endian 16-bit integer at the byte-aligned position
/// `pos`.
pub open spec fn spec_load_u16(data: Seq<u8>, pos: nat) -> Result<(nat, nat), DecodeError> {
    if has_bytes(data, pos, 2) {
        Ok((le_u16(data, (pos / 8) as int), pos + 16))
    } else {
        Err(DecodeError::Truncated)
    }
}

/// Loading a little-endian 32-bit integer at the byte-aligned position
/// `pos`.
pub open spec fn spec_load_u32(data: Seq<u8>, pos: nat) -> Result<(nat, nat), DecodeError> {
    if has_bytes(data, pos, 4) {
        Ok((le_u32(data, (pos / 8) as int), pos + 32))
    } else {
        Err(DecodeError::Truncated)
    }
}

/// Loading a little-endian 64-bit integer at the byte-aligned position
/// `pos`.
pub open spec fn spec_load_u64(data: Seq<u8>, pos: nat) -> Result<(nat, nat), DecodeError> {
    if has_bytes(data, pos, 8) {
        Ok((le_u64(data, (pos / 8) as int), pos + 64))
    } else {
        Err(DecodeError::Truncated)
    }
}

/// Reading `len` raw bytes at the byte-aligned position `pos`.
pub open spec fn spec_read_bytes(data: Seq<u8>, pos: nat, len: nat) -> Result<
    (Seq<u8>, nat),
    DecodeError,
> {
    if has_bytes(data, pos, len) {
        Ok((data.subrange((pos / 8) as int, (pos / 8 + len) as int), pos + 8 * len))
    } else {
        Err(DecodeError::Truncated)
    }
}

/// An `n`-bit field is smaller than `2^n`.
pub proof fn lemma_bits_value_bound(data: Seq<u8>, pos: nat, n: nat)
    ensures
        bits_value(data, pos, n) < pow2(n),
    decreases n,
{
    if n == 0 {
        lemma2_to64();
    } else {
        lemma_bits_value_bound(data, pos, (n - 1) as nat);
        lemma_pow2_unfold(n);
    }
}

/// A bit field is its first `m` bits plus `2^m` times the bits after
/// them.
pub proof fn lemma_bits_value_split(data: Seq<u8>, pos: nat, m: nat, n: nat)
    ensures
        bits_value(data, pos, m + n) == bits_value(data, pos, m) + pow2(m) * bits_value(
            data,
            pos + m,
            n,
        ),
    decreases n,
{
    if n > 0 {
        let k = (n - 1) as nat;
        lemma_bits_value_split(data, pos, m, k);
        lemma_pow2_adds(m, k);
        let low = bits_value(data, pos, m);
        let high = bits_value(data, pos + m, k);
        let top: nat = if bit_at(data, (pos + m + n - 1) as nat) {
            pow2(k)
        } else {
            0
        };
        assert(bits_value(data, pos + m, n) == high + top);
        assert(bits_value(data, pos, m + n) == bits_value(data, pos, m + k) + if bit_at(
            data,
            (pos + m + n - 1) as nat,
        ) {
            pow2(m + k)
        } else {
            0
        });
        assert(pow2(m) * (high + top) == pow2(m) * high + pow2(m) * top) by (nonlinear_arith);
        assert(pow2(m) * top == if bit_at(data, (pos + m + n - 1) as nat) {
            pow2(m + k)
        } else {
            0
        }) by {
            assert(pow2(m) * 0 == 0) by (nonlinear_arith);
        }
    } else {
        assert(pow2(m) * 0 == 0) by (nonlinear_arith);
    }
}

/// The eight bits of a byte, read as a bit field, give the byte.
pub proof fn lemma_byte_is_its_bits(data: Seq<u8>, index: nat)
    requires
        index < data.len(),
    ensures
        bits_value(data, 8 * index, 8) == data[index as int],
{
    let b = data[index as int];
    let pos = 8 * index;
    lemma2_to64();
    assert(bit_at(data, pos) == ((b >> 0u8) & 1u8 == 1u8));
    assert(bit_at(data, pos + 1) == ((b >> 1u8) & 1u8 == 1u8));
    assert(bit_at(data, pos + 2) == ((b >> 2u8) & 1u8 == 1u8));
    assert(bit_at(data, pos + 3) == ((b >> 3u8) & 1u8 == 1u8));
    assert(bit_at(data, pos + 4) == ((b >> 4u8) & 1u8 == 1u8));
    assert(bit_at(data, pos + 5) == ((b >> 5u8) & 1u8 == 1u8));
    assert(bit_at(data, pos + 6) == ((b >> 6u8) & 1u8 == 1u8));
    assert(bit_at(data, pos + 7) == ((b >> 7u8) & 1u8 == 1u8));
    assert(b == ((b >> 0u8) & 1u8) + 2 * ((b >> 1u8) & 1u8) + 4 * ((b >> 2u8) & 1u8) + 8 * ((b
        >> 3u8) & 1u8) + 16 * ((b >> 4u8) & 1u8) + 32 * ((b >> 5u8) & 1u8) + 64 * ((b >> 6u8)
        & 1u8) + 128 * ((b >> 7u8) & 1u8)) by (bit_vector);
    assert(((b >> 0u8) & 1u8) <= 1 && ((b >> 1u8) & 1u8) <= 1 && ((b >> 2u8) & 1u8) <= 1 && ((b
        >> 3u8) & 1u8) <= 1 && ((b >> 4u8) & 1u8) <= 1 && ((b >> 5u8) & 1u8) <= 1 && ((b >> 6u8)
        & 1u8) <= 1 && ((b >> 7u8) & 1u8) <= 1) by (bit_vector);
    reveal_with_fuel(bits_value, 9);
}

/// A byte-aligned little-endian load is the bit field of the same width:
/// the byte order of integers and the bit order of fields agree.
pub proof fn lemma_loads_agree_with_bit_fields(data: Seq<u8>, pos: nat)
    requires
        pos % 8 == 0,
    ensures
        spec_load_u8(data, pos) == spec_read_bits(data, pos, 8),
        spec_load_u16(data, pos) == spec_read_bits(data, pos, 16),
        spec_load_u32(data, pos) == spec_read_bits(data, pos, 32),
        spec_load_u64(data, pos) == spec_read_bits(data, pos, 64),
{
    let at = pos / 8;
    lemma2_to64();
    if has_bytes(data, pos, 1) {
        lemma_byte_is_its_bits(data, at);
    }
    if has_bytes(data, pos, 2) {
        lemma_byte_is_its_bits(data, at + 1);
        lemma_bits_value_split(data, pos, 8, 8);
    }
    if has_bytes(data, pos, 4) {
        lemma_byte_is_its_bits(data, at + 2);
        lemma_byte_is_its_bits(data, at + 3);
        lemma_bits_value_split(data, pos + 16, 8, 8);
        lemma_bits_value_split(data, pos, 16, 16);
    }
    if has_bytes(data, pos, 8) {
        lemma_byte_is_its_bits(data, at + 4);
        lemma_byte_is_its_bits(data, at + 5);
        lemma_byte_is_its_bits(data, at + 6);
        lemma_byte_is_its_bits(data, at + 7);
        lemma_bits_value_split(data, pos + 32, 8, 8);
        lemma_bits_value_split(data, pos + 48, 8, 8);
        lemma_bits_value_split(data, pos + 32, 16, 16);
        lemma_bits_value_split(data, pos, 32, 32);
    }
}

/// Aligning is idempotent, and a byte-aligned position is its own
/// alignment: a second realignment in a row moves nothing.
pub proof fn lemma_align_up_idempotent(pos: nat)
    ensures
        align_up(pos) % 8 == 0,
        pos <= align_up(pos) < pos + 8,
        align_up(align_up(pos)) == align_up(pos),
        pos % 8 == 0 ==> align_up(pos) == pos,
{
}

/// A read-only cursor over a byte buffer.
///
/// The cursor only moves forward; there is no way to seek back.
pub struct BitReader<'a> {
    data: &'a [u8],
    byte: usize,
    bit: u8,
}

impl<'a> BitReader<'a> {
    #[verifier::type_invariant]
    spec fn well_formed(self) -> bool {
        &&& self.byte <= self.data@.len()
        &&& self.bit < 8
        &&& self.bit > 0 ==> self.byte < self.data@.len()
    }

    /// The bytes the cursor reads from.
    pub closed spec fn buffer(self) -> Seq<u8> {
        self.data@
    }

    /// The number of bits consumed so far.
    pub closed spec fn position(self) -> nat {
        (self.byte * 8 + self.bit) as nat
    }

    /// Whether the cursor stands on a byte boundary.
    pub open spec fn aligned(self) -> bool {
        self.position() % 8 == 0
    }

    /// A cursor at the start of `data`.
    pub fn new(data: &'a [u8]) -> (reader: Self)
        ensures
            reader.buffer() == data@,
            reader.position() == 0,
    {
        BitReader { data, byte: 0, bit: 0 }
    }

    /// The index of the byte the cursor stands in.
    pub fn byte_offset(&self) -> (index: usize)
        ensures
            index == self.position() / 8,
            index <= self.buffer().len(),
    {
        proof {
            use_type_invariant(self);
        }
        self.byte
    }

    /// The number of bits already consumed of the byte the cursor stands
    /// in.
    pub fn bit_offset(&self) -> (offset: u8)
        ensures
            offset == self.position() % 8,
    {
        proof {
            use_type_invariant(self);
        }
        self.bit
    }

    /// The number of whole bytes that lie after the cursor, once it has
    /// moved up to a byte boundary.
    pub fn remaining_bytes(&self) -> (left: usize)
        ensures
            left == self.buffer().len() - align_up(self.position()) / 8,
    {
        proof {
            use_type_invariant(self);
        }
        let len = self.data.len();
        if self.bit > 0 {
            len - self.byte - 1
        } else {
            len - self.byte
        }
    }

    /// Consumes one bit.
    pub fn read_bit(&mut self) -> (result: Result<bool, DecodeError>)
        ensures
            final(self).buffer() == old(self).buffer(),
            match spec_read_bit(old(self).buffer(), old(self).position()) {
                Ok((bit, pos)) => result == Ok::<bool, DecodeError>(bit) && final(self).position()
                    == pos,
                Err(e) => result == Err::<bool, DecodeError>(e)
                    && final(self).position() == old(self).position(),
            },
    {
        proof {
            use_type_invariant(&*self);
        }
        let len = self.data.len();
        if self.byte >= len {
            return Err(DecodeError::Truncated);
        }
        let value = (self.data[self.byte] >> self.bit) & 1 == 1;
        if self.bit == 7 {
            *self = BitReader { data: self.data, byte: self.byte + 1, bit: 0 };
        } else {
            *self = BitReader { data: self.data, byte: self.byte, bit: self.bit + 1 };
        }
        Ok(value)
    }

    /// Consumes `n` bits and assembles them into an unsigned integer, the
    /// first bit read being the least significant.
    pub fn read_value_bits(&mut self, n: usize) -> (result: Result<u64, DecodeError>)
        requires
            1 <= n <= 64,
        ensures
            final(self).buffer() == old(self).buffer(),
            match spec_read_bits(old(self).buffer(), old(self).position(), n as nat) {
                Ok((value, pos)) => result == Ok::<u64, DecodeError>(value as u64) && value
                    <= u64::MAX && final(self).position() == pos,
                Err(e) => result == Err::<u64, DecodeError>(e)
                    && final(self).position() == old(self).position(),
            },
    {
        proof {
            use_type_invariant(&*self);
        }
        let len = self.data.len();
        let whole = len - self.byte;
        if whole < 9 && whole * 8 - (self.bit as usize) < n {
            return Err(DecodeError::Truncated);
        }
        let ghost start = self.position();
        let data = self.data;
        let mut byte = self.byte;
        let mut bit = self.bit;
        let mut value: u64 = 0;
        let mut weight: u64 = 1;
        let mut i: usize = 0;
        proof {
            lemma2_to64();
        }
        while i < n
            invariant
                i <= n <= 64,
                bit < 8,
                byte * 8 + bit == start + i,
                start + n <= 8 * data@.len(),
                data@.len() == len,
                value == bits_value(data@, start, i as nat),
                i < 64 ==> weight == pow2(i as nat),
            decreases n - i,
        {
            proof {
                lemma2_to64();
                lemma_bits_value_bound(data@, start, i as nat);
                lemma_pow2_unfold((i + 1) as nat);
                if i + 1 < 64 {
                    lemma_pow2_strictly_increases((i + 1) as nat, 64);
                }
                assert((start + i) / 8 == byte && (start + i) % 8 == bit as nat);
            }
            if (data[byte] >> bit) & 1 == 1 {
                value = value + weight;
            }
            if i + 1 < 64 {
                weight = weight * 2;
            }
            if bit == 7 {
                byte = byte + 1;
                bit = 0;
            } else {
                bit = bit + 1;
            }
            i = i + 1;
        }
        proof {
            lemma_bits_value_bound(data@, start, n as nat);
            if n < 64 {
                lemma_pow2_strictly_increases(n as nat, 64);
            }
        }
        *self = BitReader { data, byte, bit };
        Ok(value)
    }

    /// Discards what is left of the current byte, so that the cursor
    /// stands on a byte boundary. Does nothing when it already does.
    pub fn realign_to_byte(&mut self)
        ensures
            final(self).buffer() == old(self).buffer(),
            final(self).position() == align_up(old(self).position()),
            final(self).aligned(),
    {
        proof {
            use_type_invariant(&*self);
        }
        let len = self.data.len();
        if self.bit > 0 {
            *self = BitReader { data: self.data, byte: self.byte + 1, bit: 0 };
        }
    }

    /// Takes `width` whole bytes from a byte-aligned cursor.
    fn take(&mut self, width: usize) -> (result: Result<&'a [u8], DecodeError>)
        requires
            old(self).aligned(),
        ensures
            final(self).buffer() == old(self).buffer(),
            match spec_read_bytes(old(self).buffer(), old(self).position(), width as nat) {
                Ok((bytes, pos)) => result matches Ok(slice) && slice@ == bytes
                    && final(self).position() == pos,
                Err(e) => result matches Err(err) && err == e
                    && final(self).position() == old(self).position(),
            },
    {
        proof {
            use_type_invariant(&*self);
        }
        let len = self.data.len();
        if len - self.byte < width {
            return Err(DecodeError::Truncated);
        }
        let bytes = slice_subrange(self.data, self.byte, self.byte + width);
        *self = BitReader { data: self.data, byte: self.byte + width, bit: 0 };
        Ok(bytes)
    }

    /// Reads `len` raw bytes from a byte-aligned cursor.
    pub fn read_bytes(&mut self, len: usize) -> (result: Result<Vec<u8>, DecodeError>)
        requires
            old(self).aligned(),
        ensures
            final(self).buffer() == old(self).buffer(),
            match spec_read_bytes(old(self).buffer(), old(self).position(), len as nat) {
                Ok((bytes, pos)) => result matches Ok(read) && read@ == bytes
                    && final(self).position() == pos,
                Err(e) => result matches Err(err) && err == e
                    && final(self).position() == old(self).position(),
            },
    {
        match self.take(len) {
            Ok(bytes) => Ok(slice_to_vec(bytes)),
            Err(e) => Err(e),
        }
    }

    /// Loads one byte from a byte-aligned cursor.
    pub fn load_u8(&mut self) -> (result: Result<u8, DecodeError>)
        requires
            old(self).aligned(),
        ensures
            final(self).buffer() == old(self).buffer(),
            match spec_load_u8(old(self).buffer(), old(self).position()) {
                Ok((value, pos)) => result == Ok::<u8, DecodeError>(value as u8)
                    && final(self).position() == pos,
                Err(e) => result == Err::<u8, DecodeError>(e)
                    && final(self).position() == old(self).position(),
            },
    {
        match self.take(1) {
            Ok(bytes) => Ok(bytes[0]),
            Err(e) => Err(e),
        }
    }

    /// Loads a little-endian `u16` from a byte-aligned cursor.
    pub fn load_u16(&mut self) -> (result: Result<u16, DecodeError>)
        requires
            old(self).aligned(),
        ensures
            final(self).buffer() == old(self).buffer(),
            match spec_load_u16(old(self).buffer(), old(self).position()) {
                Ok((value, pos)) => result == Ok::<u16, DecodeError>(value as u16)
                    && final(self).position() == pos,
                Err(e) => result == Err::<u16, DecodeError>(e)
                    && final(self).position() == old(self).position(),
            },
    {
        match self.take(2) {
            Ok(bytes) => Ok(read_u16_le(bytes)),
            Err(e) => Err(e),
        }
    }

    /// Loads a little-endian `u32` from a byte-aligned cursor.
    pub fn load_u32(&mut self) -> (result: Result<u32, DecodeError>)
        requires
            old(self).aligned(),
        ensures
            final(self).buffer() == old(self).buffer(),
            match spec_load_u32(old(self).buffer(), old(self).position()) {
                Ok((value, pos)) => result == Ok::<u32, DecodeError>(value as u32)
                    && final(self).position() == pos,
                Err(e) => result == Err::<u32, DecodeError>(e)
                    && final(self).position() == old(self).position(),
            },
    {
        match self.take(4) {
            Ok(bytes) => Ok(read_u32_le(bytes)),
            Err(e) => Err(e),
        }
    }

    /// Loads a little-endian `u64` from a byte-aligned cursor.
    pub fn load_u64(&mut self) -> (result: Result<u64, DecodeError>)
        requires
            old(self).aligned(),
        ensures
            final(self).buffer() == old(self).buffer(),
            match spec_load_u64(old(self).buffer(), old(self).position()) {
                Ok((value, pos)) => result == Ok::<u64, DecodeError>(value as u64)
                    && final(self).position() == pos,
                Err(e) => result == Err::<u64, DecodeError>(e)
                    && final(self).position() == old(self).position(),
            },
    {
        match self.take(8) {
            Ok(bytes) => Ok(read_u64_le(bytes)),
            Err(e) => Err(e),
        }
    }

    /// Loads one byte from a byte-aligned cursor as a two's-complement
    /// number.
    pub fn load_i8(&mut self) -> (result: Result<i8, DecodeError>)
        requires
            old(self).aligned(),
        ensures
            final(self).buffer() == old(self).buffer(),
            match spec_load_u8(old(self).buffer(), old(self).position()) {
                Ok((raw, pos)) => result == Ok::<i8, DecodeError>(
                    twos_complement(raw as int, 8) as i8,
                ) && final(self).position() == pos,
                Err(e) => result == Err::<i8, DecodeError>(e)
                    && final(self).position() == old(self).position(),
            },
    {
        match self.load_u8() {
            Ok(raw) => Ok(signed_8(raw)),
            Err(e) => Err(e),
        }
    }

    /// Loads a little-endian `i16` from a byte-aligned cursor.
    pub fn load_i16(&mut self) -> (result: Result<i16, DecodeError>)
        requires
            old(self).aligned(),
        ensures
            final(self).buffer() == old(self).buffer(),
            match spec_load_u16(old(self).buffer(), old(self).position()) {
                Ok((raw, pos)) => result == Ok::<i16, DecodeError>(
                    twos_complement(raw as int, 16) as i16,
                ) && final(self).position() == pos,
                Err(e) => result == Err::<i16, DecodeError>(e)
                    && final(self).position() == old(self).position(),
            },
    {
        match self.load_u16() {
            Ok(raw) => Ok(signed_16(raw)),
            Err(e) => Err(e),
        }
    }

    /// Loads a little-endian `i32` from a byte-aligned cursor.
    pub fn load_i32(&mut self) -> (result: Result<i32, DecodeError>)
        requires
            old(self).aligned(),
        ensures
            final(self).buffer() == old(self).buffer(),
            match spec_load_u32(old(self).buffer(), old(self).position()) {
                Ok((raw, pos)) => result == Ok::<i32, DecodeError>(
                    twos_complement(raw as int, 32) as i32,
                ) && final(self).position() == pos,
                Err(e) => result == Err::<i32, DecodeError>(e)
                    && final(self).position() == old(self).position(),
            },
    {
        match self.load_u32() {
            Ok(raw) => Ok(signed_32(raw)),
            Err(e) => Err(e),
        }
    }

    /// Loads a little-endian `i64` from a byte-aligned cursor.
    pub fn load_i64(&mut self) -> (result: Result<i64, DecodeError>)
        requires
            old(self).aligned(),
        ensures
            final(self).buffer() == old(self).buffer(),
            match spec_load_u64(old(self).buffer(), old(self).position()) {
                Ok((raw, pos)) => result == Ok::<i64, DecodeError>(
                    twos_complement(raw as int, 64) as i64,
                ) && final(self).position() == pos,
                Err(e) => result == Err::<i64, DecodeError>(e)
                    && final(self).position() == old(self).position(),
            },
    {
        match self.load_u64() {
            Ok(raw) => Ok(signed_64(raw)),
            Err(e) => Err(e),
        }
    }

    /// Loads the bit pattern of a little-endian IEEE 754 single-precision
    /// number from a byte-aligned cursor.
    pub fn load_f32(&mut self) -> (result: Result<u32, DecodeError>)
        requires
            old(self).aligned(),
        ensures
            final(self).buffer() == old(self).buffer(),
            match spec_load_u32(old(self).buffer(), old(self).position()) {
                Ok((value, pos)) => result == Ok::<u32, DecodeError>(value as u32)
                    && final(self).position() == pos,
                Err(e) => result == Err::<u32, DecodeError>(e)
                    && final(self).position() == old(self).position(),
            },
    {
        self.load_u32()
    }

    /// Loads the bit pattern of a little-endian IEEE 754 double-precision
    /// number from a byte-aligned cursor.
    pub fn load_f64(&mut self) -> (result: Result<u64, DecodeError>)
        requires
            old(self).aligned(),
        ensures
            final(self).buffer() == old(self).buffer(),
            match spec_load_u64(old(self).buffer(), old(self).position()) {
                Ok((value, pos)) => result == Ok::<u64, DecodeError>(value as u64)
                    && final(self).position() == pos,
                Err(e) => result == Err::<u64, DecodeError>(e)
                    && final(self).position() == old(self).position(),
            },
    {
        self.load_u64()
    }
}

} // verus!
