//! The decode engine: loading a buffer and rebuilding values from it.

use crate::endian::{read_u32_le, sign_extend, twos_complement};
use crate::error::DecodeError;
use crate::flags::{PropertyFlags, SerializerFlags};
use crate::framing::{
    accept_decompressed, spec_decompress, spec_feed, spec_flags_after_failure,
    spec_flags_after_feed,
};
use crate::format::{
    decode_fields, decode_items, decode_object, decode_primitive, decode_value,
    spec_code_units, spec_compact_length, spec_seq_len, spec_signed_bits, spec_str, spec_str_len,
    spec_wstr, DecodeContext,
};
use crate::reader::{
    align_up, has_bytes, lemma_bits_value_bound, spec_load_u16, spec_load_u32, spec_load_u64, spec_load_u8,
    spec_read_bits, BitReader,
};
use crate::type_list::{Primitive, Property, PropertyType, TypeList};
use crate::type_tag::TypeTag;
use crate::value::{
    fields_view, lemma_list_view, lemma_object_view, values_view, Field, Value, ValueView,
};
use crate::zlib::zlib_decompress;
use std::marker::PhantomData;
use vstd::arithmetic::power2::lemma2_to64;
use vstd::prelude::*;
use vstd::slice::slice_subrange;

verus! {

/// Configuration for the [`Deserializer`].
#[derive(Clone, Copy, Debug, PartialEq, Eq, Structural)]
pub struct DeserializerOptions {
    /// The [`SerializerFlags`] to use.
    pub flags: SerializerFlags,
    /// A set of [`PropertyFlags`] for conditionally ignoring unmasked
    /// properties of a type.
    pub property_mask: PropertyFlags,
    /// Whether the shallow encoding strategy is used for the data.
    ///
    /// The engine carries this switch for its host and reads it nowhere.
    pub shallow: bool,
    /// Whether the data is manually compressed.
    pub manual_compression: bool,
    /// A recursion limit for nested data to avoid stack overflows.
    pub recursion_limit: u8,
}

impl DeserializerOptions {
    /// The configuration that [`Default::default`] gives: no stream flag,
    /// a mask of the two transmit bits, automatic compression handling and
    /// a recursion limit of 127.
    pub open spec fn standard() -> DeserializerOptions {
        DeserializerOptions {
            flags: SerializerFlags { bits: 0 },
            property_mask: PropertyFlags {
                bits: PropertyFlags::TRANSMIT | PropertyFlags::PRIVILEGED_TRANSMIT,
            },
            shallow: false,
            manual_compression: false,
            recursion_limit: 127,
        }
    }
}

impl Default for DeserializerOptions {
    fn default() -> (options: Self)
        ensures
            options == DeserializerOptions::standard(),
    {
        DeserializerOptions {
            flags: SerializerFlags::empty(),
            property_mask: PropertyFlags::from_bits_retain(
                PropertyFlags::TRANSMIT | PropertyFlags::PRIVILEGED_TRANSMIT,
            ),
            shallow: false,
            manual_compression: false,
            recursion_limit: u8::MAX / 2,
        }
    }
}

/// A configurable deserializer for the ObjectProperty binary format.
///
/// `T` selects how the identity of an object is written in the stream.
pub struct Deserializer<'de, T> {
    reader: BitReader<'de>,
    options: DeserializerOptions,
    _t: PhantomData<T>,
}

impl<'de, T> Deserializer<'de, T> {
    /// The cursor over the loaded buffer.
    pub closed spec fn spec_reader(&self) -> &BitReader<'de> {
        &self.reader
    }

    /// The configuration in force.
    pub closed spec fn spec_options(&self) -> &DeserializerOptions {
        &self.options
    }

    /// The cursor over the loaded buffer.
    #[verifier::when_used_as_spec(spec_reader)]
    pub fn reader(&self) -> (reader: &BitReader<'de>)
        ensures
            reader == self.spec_reader(),
    {
        &self.reader
    }

    /// The configuration in force.
    #[verifier::when_used_as_spec(spec_options)]
    pub fn options(&self) -> (options: &DeserializerOptions)
        ensures
            options == self.spec_options(),
    {
        &self.options
    }

    /// Creates a new deserializer with its configuration.
    ///
    /// No data has been loaded at this point:
    /// [`Deserializer::feed_data`] should be called next.
    pub fn new(options: DeserializerOptions) -> (de: Self)
        ensures
            de.options() == options,
            de.reader().buffer() == Seq::<u8>::empty(),
            de.reader().position() == 0,
    {
        let empty: &'static [u8] = &[];
        Deserializer { reader: BitReader::new(empty), options, _t: PhantomData }
    }

    /// Inflates a framed payload into `scratch` and places a cursor at the
    /// start of the inflated bytes.
    fn decompress_data(data: &'de [u8], scratch: &'de mut Vec<u8>) -> (result: Result<
        BitReader<'de>,
        DecodeError,
    >)
        ensures
            match spec_decompress(data@) {
                Ok(plain) => result matches Ok(reader) && reader.buffer() == plain
                    && reader.position() == 0 && final(scratch)@ == plain,
                Err(e) => result matches Err(err) && err == e,
            },
    {
        if data.len() < 4 {
            return Err(DecodeError::Truncated);
        }
        let size = read_u32_le(data) as usize;
        let payload = slice_subrange(data, 4, data.len());

        // Decompress into the scratch buffer.
        scratch.clear();
        scratch.reserve(size);
        match zlib_decompress(payload, scratch) {
            Err(_) => Err(DecodeError::ZlibError),
            Ok(()) => accept_decompressed(size, scratch.as_slice()),
        }
    }

    /// Loads a buffer for decoding, inflating it into `scratch` where it is
    /// compressed.
    ///
    /// Each call replaces the cursor; nothing of an earlier buffer is
    /// carried over. With [`SerializerFlags::STATEFUL_FLAGS`] set, the
    /// flags embedded in the stream replace the configured ones, and stay
    /// in force for later calls.
    pub fn feed_data(&mut self, data: &'de [u8], scratch: &'de mut Vec<u8>) -> (result: Result<
        (),
        DecodeError,
    >)
        ensures
            final(self).options().property_mask == old(self).options().property_mask,
            final(self).options().shallow == old(self).options().shallow,
            final(self).options().manual_compression == old(self).options().manual_compression,
            final(self).options().recursion_limit == old(self).options().recursion_limit,
            match spec_feed(
                data@,
                old(self).options().flags,
                old(self).options().manual_compression,
            ) {
                Ok(primed) => {
                    &&& result is Ok
                    &&& final(self).options().flags == primed.flags
                    &&& final(self).reader().buffer() == primed.content
                    &&& final(self).reader().position() == primed.start
                    &&& primed.inflated ==> final(scratch)@ == primed.content
                    &&& !primed.inflated ==> final(scratch)@ == old(scratch)@
                },
                Err(e) => {
                    &&& result matches Err(err) && err == e
                    &&& final(self).reader() == old(self).reader()
                    &&& final(self).options().flags == spec_flags_after_failure(
                        data@,
                        old(self).options().flags,
                        old(self).options().manual_compression,
                    )
                },
            },
    {
        if self.options.manual_compression {
            let mut reader = match Self::decompress_data(data, scratch) {
                Ok(reader) => reader,
                Err(e) => {
                    return Err(e);
                },
            };

            // If configuration flags are stateful, deserialize them.
            if self.options.flags.contains(SerializerFlags::STATEFUL_FLAGS) {
                match reader.load_u32() {
                    Ok(bits) => {
                        self.options.flags = SerializerFlags::from_bits_truncate(bits);
                    },
                    Err(e) => {
                        return Err(e);
                    },
                }
            }
            self.reader = reader;
            Ok(())
        } else {
            let mut rest = data;

            // If configuration flags are stateful, deserialize them.
            if self.options.flags.contains(SerializerFlags::STATEFUL_FLAGS) {
                if rest.len() < 4 {
                    return Err(DecodeError::Truncated);
                }
                self.options.flags = SerializerFlags::from_bits_truncate(read_u32_le(rest));
                rest = slice_subrange(rest, 4, rest.len());
            }
            // Determine whether the data is compressed or not.

            if self.options.flags.contains(SerializerFlags::WITH_COMPRESSION) {
                if rest.len() < 1 {
                    return Err(DecodeError::Truncated);
                }
                let indicator = rest[0];
                rest = slice_subrange(rest, 1, rest.len());
                if indicator != 0 {
                    match Self::decompress_data(rest, scratch) {
                        Ok(reader) => {
                            self.reader = reader;
                        },
                        Err(e) => {
                            return Err(e);
                        },
                    }
                } else {
                    self.reader = BitReader::new(rest);
                }
            } else {
                self.reader = BitReader::new(rest);
            }
            Ok(())
        }
    }

    /// What a decode by this engine depends on, besides the position of
    /// its cursor.
    pub open spec fn context(self, types: TypeList) -> DecodeContext {
        DecodeContext {
            data: self.reader().buffer(),
            flags: self.options().flags,
            mask: self.options().property_mask,
            types,
        }
    }

    /// Whether this engine differs from `before` at most in the position
    /// of its cursor.
    pub open spec fn same_stream(self, before: Self) -> bool {
        &&& self.options() == before.options()
        &&& self.reader().buffer() == before.reader().buffer()
    }

    /// Discards what is left of the current byte, so that the cursor
    /// stands on a byte boundary, as the fixed-width decoders need it.
    pub fn realign_to_byte(&mut self)
        ensures
            final(self).same_stream(*old(self)),
            final(self).reader().position() == align_up(old(self).reader().position()),
            final(self).reader().aligned(),
    {
        self.reader.realign_to_byte();
    }

    /// Reads a compact length prefix: a flag bit, then 31 value bits when
    /// the flag is set and 7 when it is clear.
    pub fn read_compact_length_prefix(&mut self) -> (result: Result<usize, DecodeError>)
        ensures
            final(self).same_stream(*old(self)),
            match spec_compact_length(old(self).reader().buffer(), old(self).reader().position()) {
                Ok((len, pos)) => result == Ok::<usize, DecodeError>(len as usize) && len
                    < 0x8000_0000 && final(self).reader().position() == pos,
                Err(e) => result == Err::<usize, DecodeError>(e),
            },
    {
        let is_large = match self.reader.read_bit() {
            Ok(bit) => bit,
            Err(e) => {
                return Err(e);
            },
        };
        let width: usize = if is_large {
            31
        } else {
            7
        };
        proof {
            lemma2_to64();
            lemma_bits_value_bound(
                self.reader.buffer(),
                self.reader.position(),
                width as nat,
            );
        }
        match self.reader.read_value_bits(width) {
            Ok(len) => Ok(len as usize),
            Err(e) => Err(e),
        }
    }

    /// Reads the length prefix of a string.
    pub fn read_str_len(&mut self) -> (result: Result<usize, DecodeError>)
        ensures
            final(self).same_stream(*old(self)),
            match spec_str_len(
                old(self).reader().buffer(),
                old(self).options().flags,
                old(self).reader().position(),
            ) {
                Ok((len, pos)) => result == Ok::<usize, DecodeError>(len as usize) && len
                    < 0x8000_0000 && final(self).reader().position() == pos
                        && final(self).reader().aligned(),
                Err(e) => result == Err::<usize, DecodeError>(e),
            },
    {
        self.reader.realign_to_byte();
        if self.options.flags.contains(SerializerFlags::COMPACT_LENGTH_PREFIXES) {
            self.read_compact_length_prefix()
        } else {
            match self.reader.load_u16() {
                Ok(len) => Ok(len as usize),
                Err(e) => Err(e),
            }
        }
    }

    /// Reads the length prefix of a sequence.
    pub fn read_seq_len(&mut self) -> (result: Result<usize, DecodeError>)
        ensures
            final(self).same_stream(*old(self)),
            match spec_seq_len(
                old(self).reader().buffer(),
                old(self).options().flags,
                old(self).reader().position(),
            ) {
                Ok((len, pos)) => result == Ok::<usize, DecodeError>(len as usize) && len
                    <= u32::MAX && final(self).reader().position() == pos
                        && final(self).reader().aligned(),
                Err(e) => result == Err::<usize, DecodeError>(e),
            },
    {
        self.reader.realign_to_byte();
        if self.options.flags.contains(SerializerFlags::COMPACT_LENGTH_PREFIXES) {
            self.read_compact_length_prefix()
        } else {
            match self.reader.load_u32() {
                Ok(len) => Ok(len as usize),
                Err(e) => Err(e),
            }
        }
    }

    /// Reads a length-prefixed byte string.
    pub fn read_str(&mut self) -> (result: Result<Vec<u8>, DecodeError>)
        ensures
            final(self).same_stream(*old(self)),
            match spec_str(
                old(self).reader().buffer(),
                old(self).options().flags,
                old(self).reader().position(),
            ) {
                Ok((bytes, pos)) => result matches Ok(read) && read@ == bytes
                    && final(self).reader().position() == pos,
                Err(e) => result matches Err(err) && err == e,
            },
    {
        match self.read_str_len() {
            Ok(len) => self.reader.read_bytes(len),
            Err(e) => Err(e),
        }
    }

    /// Reads a length-prefixed string of 16-bit code units, loading the
    /// units one by one.
    #[verifier::loop_isolation(false)]
    pub fn read_wstr(&mut self) -> (result: Result<Vec<u16>, DecodeError>)
        ensures
            final(self).same_stream(*old(self)),
            match spec_wstr(
                old(self).reader().buffer(),
                old(self).options().flags,
                old(self).reader().position(),
            ) {
                Ok((units, pos)) => result matches Ok(read) && read@ == units
                    && final(self).reader().position() == pos,
                Err(e) => result matches Err(err) && err == e,
            },
    {
        let len = match self.read_str_len() {
            Ok(len) => len,
            Err(e) => {
                return Err(e);
            },
        };
        let ghost data = self.reader.buffer();
        let ghost options = self.options;
        let ghost start = self.reader.position();
        let mut result: Vec<u16> = Vec::new();
        let mut i: usize = 0;
        while i < len
            invariant
                i <= len,
                start % 8 == 0,
                self.options == options,
                self.reader.buffer() == data,
                self.reader.position() == start + 16 * i,
                has_bytes(data, start, (2 * i) as nat),
                result@ =~= spec_code_units(data, start, i as nat),
            decreases len - i,
        {
            match self.reader.load_u16() {
                Ok(unit) => {
                    result.push(unit);
                },
                Err(e) => {
                    return Err(e);
                },
            }
            i = i + 1;
        }
        Ok(result)
    }

    /// Reads an unsigned bit field of `n` bits.
    pub fn deserialize_unsigned_bits(&mut self, n: usize) -> (result: Result<u64, DecodeError>)
        requires
            1 <= n <= 64,
        ensures
            final(self).same_stream(*old(self)),
            match spec_read_bits(
                old(self).reader().buffer(),
                old(self).reader().position(),
                n as nat,
            ) {
                Ok((value, pos)) => result == Ok::<u64, DecodeError>(value as u64) && value
                    <= u64::MAX && final(self).reader().position() == pos,
                Err(e) => result == Err::<u64, DecodeError>(e),
            },
    {
        self.reader.read_value_bits(n)
    }

    /// Reads a two's-complement bit field of `n` bits, sign-extended to 64
    /// bits.
    pub fn deserialize_signed_bits(&mut self, n: usize) -> (result: Result<i64, DecodeError>)
        requires
            1 <= n <= 64,
        ensures
            final(self).same_stream(*old(self)),
            match spec_signed_bits(
                old(self).reader().buffer(),
                old(self).reader().position(),
                n as nat,
            ) {
                Ok((value, pos)) => result == Ok::<i64, DecodeError>(value as i64) && i64::MIN
                    <= value <= i64::MAX && final(self).reader().position() == pos,
                Err(e) => result == Err::<i64, DecodeError>(e),
            },
    {
        proof {
            lemma_bits_value_bound(self.reader.buffer(), self.reader.position(), n as nat);
        }
        match self.deserialize_unsigned_bits(n) {
            // Perform sign-extension of the value we got.
            Ok(raw) => Ok(sign_extend(raw, n)),
            Err(e) => Err(e),
        }
    }

    /// Reads a byte from a byte-aligned cursor.
    pub fn deserialize_u8(&mut self) -> (result: Result<u8, DecodeError>)
        requires
            old(self).reader().aligned(),
        ensures
            final(self).same_stream(*old(self)),
            match spec_load_u8(old(self).reader().buffer(), old(self).reader().position()) {
                Ok((raw, pos)) => result == Ok::<u8, DecodeError>(raw as u8)
                    && final(self).reader().position() == pos,
                Err(e) => result == Err::<u8, DecodeError>(e),
            },
    {
        self.reader.load_u8()
    }

    /// Reads a `u16` from a byte-aligned cursor.
    pub fn deserialize_u16(&mut self) -> (result: Result<u16, DecodeError>)
        requires
            old(self).reader().aligned(),
        ensures
            final(self).same_stream(*old(self)),
            match spec_load_u16(old(self).reader().buffer(), old(self).reader().position()) {
                Ok((raw, pos)) => result == Ok::<u16, DecodeError>(raw as u16)
                    && final(self).reader().position() == pos,
                Err(e) => result == Err::<u16, DecodeError>(e),
            },
    {
        self.reader.load_u16()
    }

    /// Reads a `u32` from a byte-aligned cursor.
    pub fn deserialize_u32(&mut self) -> (result: Result<u32, DecodeError>)
        requires
            old(self).reader().aligned(),
        ensures
            final(self).same_stream(*old(self)),
            match spec_load_u32(old(self).reader().buffer(), old(self).reader().position()) {
                Ok((raw, pos)) => result == Ok::<u32, DecodeError>(raw as u32)
                    && final(self).reader().position() == pos,
                Err(e) => result == Err::<u32, DecodeError>(e),
            },
    {
        self.reader.load_u32()
    }

    /// Reads a `u64` from a byte-aligned cursor.
    pub fn deserialize_u64(&mut self) -> (result: Result<u64, DecodeError>)
        requires
            old(self).reader().aligned(),
        ensures
            final(self).same_stream(*old(self)),
            match spec_load_u64(old(self).reader().buffer(), old(self).reader().position()) {
                Ok((raw, pos)) => result == Ok::<u64, DecodeError>(raw as u64)
                    && final(self).reader().position() == pos,
                Err(e) => result == Err::<u64, DecodeError>(e),
            },
    {
        self.reader.load_u64()
    }

    /// Reads an `i8` from a byte-aligned cursor.
    pub fn deserialize_i8(&mut self) -> (result: Result<i8, DecodeError>)
        requires
            old(self).reader().aligned(),
        ensures
            final(self).same_stream(*old(self)),
            match spec_load_u8(old(self).reader().buffer(), old(self).reader().position()) {
                Ok((raw, pos)) => result == Ok::<i8, DecodeError>(
                    twos_complement(raw as int, 8) as i8,
                ) && final(self).reader().position() == pos,
                Err(e) => result == Err::<i8, DecodeError>(e),
            },
    {
        self.reader.load_i8()
    }

    /// Reads an `i16` from a byte-aligned cursor.
    pub fn deserialize_i16(&mut self) -> (result: Result<i16, DecodeError>)
        requires
            old(self).reader().aligned(),
        ensures
            final(self).same_stream(*old(self)),
            match spec_load_u16(old(self).reader().buffer(), old(self).reader().position()) {
                Ok((raw, pos)) => result == Ok::<i16, DecodeError>(
                    twos_complement(raw as int, 16) as i16,
                ) && final(self).reader().position() == pos,
                Err(e) => result == Err::<i16, DecodeError>(e),
            },
    {
        self.reader.load_i16()
    }

    /// Reads an `i32` from a byte-aligned cursor.
    pub fn deserialize_i32(&mut self) -> (result: Result<i32, DecodeError>)
        requires
            old(self).reader().aligned(),
        ensures
            final(self).same_stream(*old(self)),
            match spec_load_u32(old(self).reader().buffer(), old(self).reader().position()) {
                Ok((raw, pos)) => result == Ok::<i32, DecodeError>(
                    twos_complement(raw as int, 32) as i32,
                ) && final(self).reader().position() == pos,
                Err(e) => result == Err::<i32, DecodeError>(e),
            },
    {
        self.reader.load_i32()
    }

    /// Reads an `i64` from a byte-aligned cursor.
    pub fn deserialize_i64(&mut self) -> (result: Result<i64, DecodeError>)
        requires
            old(self).reader().aligned(),
        ensures
            final(self).same_stream(*old(self)),
            match spec_load_u64(old(self).reader().buffer(), old(self).reader().position()) {
                Ok((raw, pos)) => result == Ok::<i64, DecodeError>(
                    twos_complement(raw as int, 64) as i64,
                ) && final(self).reader().position() == pos,
                Err(e) => result == Err::<i64, DecodeError>(e),
            },
    {
        self.reader.load_i64()
    }

    /// Reads the bit pattern of a single-precision number from a
    /// byte-aligned cursor.
    pub fn deserialize_f32(&mut self) -> (result: Result<u32, DecodeError>)
        requires
            old(self).reader().aligned(),
        ensures
            final(self).same_stream(*old(self)),
            match spec_load_u32(old(self).reader().buffer(), old(self).reader().position()) {
                Ok((raw, pos)) => result == Ok::<u32, DecodeError>(raw as u32)
                    && final(self).reader().position() == pos,
                Err(e) => result == Err::<u32, DecodeError>(e),
            },
    {
        self.reader.load_f32()
    }

    /// Reads the bit pattern of a double-precision number from a
    /// byte-aligned cursor.
    pub fn deserialize_f64(&mut self) -> (result: Result<u64, DecodeError>)
        requires
            old(self).reader().aligned(),
        ensures
            final(self).same_stream(*old(self)),
            match spec_load_u64(old(self).reader().buffer(), old(self).reader().position()) {
                Ok((raw, pos)) => result == Ok::<u64, DecodeError>(raw as u64)
                    && final(self).reader().position() == pos,
                Err(e) => result == Err::<u64, DecodeError>(e),
            },
    {
        self.reader.load_f64()
    }

    /// Decodes a primitive value of type `ty`.
    pub fn deserialize_primitive(&mut self, ty: &Primitive) -> (result: Result<Value, DecodeError>)
        ensures
            final(self).same_stream(*old(self)),
            decoded_as(
                result,
                final(self).reader().position(),
                decode_primitive(
                    old(self).reader().buffer(),
                    old(self).options().flags,
                    *ty,
                    old(self).reader().position(),
                ),
            ),
    {
        match ty {
            Primitive::U8 => {
                self.reader.realign_to_byte();
                match self.deserialize_u8() {
                    Ok(v) => Ok(Value::U8(v)),
                    Err(e) => Err(e),
                }
            },
            Primitive::U16 => {
                self.reader.realign_to_byte();
                match self.deserialize_u16() {
                    Ok(v) => Ok(Value::U16(v)),
                    Err(e) => Err(e),
                }
            },
            Primitive::U32 => {
                self.reader.realign_to_byte();
                match self.deserialize_u32() {
                    Ok(v) => Ok(Value::U32(v)),
                    Err(e) => Err(e),
                }
            },
            Primitive::U64 => {
                self.reader.realign_to_byte();
                match self.deserialize_u64() {
                    Ok(v) => Ok(Value::U64(v)),
                    Err(e) => Err(e),
                }
            },
            Primitive::I8 => {
                self.reader.realign_to_byte();
                match self.deserialize_i8() {
                    Ok(v) => Ok(Value::I8(v)),
                    Err(e) => Err(e),
                }
            },
            Primitive::I16 => {
                self.reader.realign_to_byte();
                match self.deserialize_i16() {
                    Ok(v) => Ok(Value::I16(v)),
                    Err(e) => Err(e),
                }
            },
            Primitive::I32 => {
                self.reader.realign_to_byte();
                match self.deserialize_i32() {
                    Ok(v) => Ok(Value::I32(v)),
                    Err(e) => Err(e),
                }
            },
            Primitive::I64 => {
                self.reader.realign_to_byte();
                match self.deserialize_i64() {
                    Ok(v) => Ok(Value::I64(v)),
                    Err(e) => Err(e),
                }
            },
            Primitive::F32 => {
                self.reader.realign_to_byte();
                match self.deserialize_f32() {
                    Ok(v) => Ok(Value::F32(v)),
                    Err(e) => Err(e),
                }
            },
            Primitive::F64 => {
                self.reader.realign_to_byte();
                match self.deserialize_f64() {
                    Ok(v) => Ok(Value::F64(v)),
                    Err(e) => Err(e),
                }
            },
            Primitive::Bits(width) => match self.deserialize_unsigned_bits(
                width.get() as usize,
            ) {
                Ok(v) => Ok(Value::U64(v)),
                Err(e) => Err(e),
            },
            Primitive::SignedBits(width) => match self.deserialize_signed_bits(
                width.get() as usize,
            ) {
                Ok(v) => Ok(Value::I64(v)),
                Err(e) => Err(e),
            },
            Primitive::Str => match self.read_str() {
                Ok(v) => Ok(Value::Str(v)),
                Err(e) => Err(e),
            },
            Primitive::WStr => match self.read_wstr() {
                Ok(v) => Ok(Value::WStr(v)),
                Err(e) => Err(e),
            },
            Primitive::Enum => {
                if self.options.flags.contains(SerializerFlags::HUMAN_READABLE_ENUMS) {
                    match self.read_str() {
                        Ok(v) => Ok(Value::Str(v)),
                        Err(e) => Err(e),
                    }
                } else {
                    self.reader.realign_to_byte();
                    match self.deserialize_u32() {
                        Ok(v) => Ok(Value::U32(v)),
                        Err(e) => Err(e),
                    }
                }
            },
        }
    }
}

/// Whether `result`, with the cursor left at `end`, is what `expected`
/// asks for: the same error, or a value with the expected content and the
/// cursor at the expected position.
pub open spec fn decoded_as(
    result: Result<Value, DecodeError>,
    end: nat,
    expected: Result<(ValueView, nat), DecodeError>,
) -> bool {
    match expected {
        Ok((value, pos)) => result matches Ok(got) && got@ == value && end == pos,
        Err(e) => result matches Err(err) && err == e,
    }
}

impl<'de, T: TypeTag> Deserializer<'de, T> {
    /// Deserializes an object [`Value`] from previously loaded data.
    ///
    /// The recursion limit of the options is the budget of the call; the
    /// options are left as they were, whether the call succeeds or fails.
    pub fn deserialize(&mut self, types: &TypeList) -> (result: Result<Value, DecodeError>)
        ensures
            final(self).same_stream(*old(self)),
            decoded_as(
                result,
                final(self).reader().position(),
                decode_object::<T>(
                    old(self).context(*types),
                    old(self).reader().position(),
                    old(self).options().recursion_limit as nat,
                ),
            ),
    {
        let budget = self.options.recursion_limit;
        self.deserialize_object(types, budget)
    }

    /// Decodes an object with `budget` units of recursion budget left.
    fn deserialize_object(&mut self, types: &TypeList, budget: u8) -> (result: Result<
        Value,
        DecodeError,
    >)
        ensures
            final(self).same_stream(*old(self)),
            decoded_as(
                result,
                final(self).reader().position(),
                decode_object::<T>(
                    old(self).context(*types),
                    old(self).reader().position(),
                    budget as nat,
                ),
            ),
        decreases 2 * budget, 0nat, 0nat,
    {
        if budget <= 1 {
            return Err(DecodeError::RecursionLimitExceeded);
        }
        let type_def = match T::object_identity(&mut self.reader, types) {
            Ok(type_def) => type_def,
            Err(e) => {
                return Err(e);
            },
        };
        match type_def {
            Some(type_def) => match self.deserialize_fields(
                types,
                &type_def.properties,
                budget - 1,
            ) {
                Ok(fields) => {
                    proof {
                        lemma_object_view(fields);
                    }
                    Ok(Value::Object(fields))
                },
                Err(e) => Err(e),
            },
            None => Ok(Value::Empty),
        }
    }

    /// Decodes the fields of an object, in the order of its properties.
    #[verifier::loop_isolation(false)]
    fn deserialize_fields(
        &mut self,
        types: &TypeList,
        properties: &Vec<Property>,
        budget: u8,
    ) -> (result: Result<Vec<Field>, DecodeError>)
        ensures
            final(self).same_stream(*old(self)),
            match decode_fields::<T>(
                old(self).context(*types),
                properties@,
                0,
                old(self).reader().position(),
                budget as nat,
                Seq::empty(),
            ) {
                Ok((fields, pos)) => result matches Ok(got) && fields_view(got@) == fields
                    && final(self).reader().position() == pos,
                Err(e) => result matches Err(err) && err == e,
            },
        decreases 2 * budget + 1, 0nat, 0nat,
    {
        let ghost cx = self.context(*types);
        let ghost start = self.reader.position();
        let ghost before = *self;
        let mut fields: Vec<Field> = Vec::new();
        let mut i: usize = 0;
        assert(fields_view(fields@) =~= Seq::empty());
        while i < properties.len()
            invariant
                i <= properties.len(),
                self.same_stream(before),
                decode_fields::<T>(cx, properties@, 0, start, budget as nat, Seq::empty())
                    == decode_fields::<T>(
                    cx,
                    properties@,
                    i as nat,
                    self.reader.position(),
                    budget as nat,
                    fields_view(fields@),
                ),
            decreases properties.len() - i,
        {
            let property = &properties[i];
            if property.flags.intersects(self.options.property_mask) {
                let present = if property.flags.contains(PropertyFlags::DELTA_ENCODE)
                    && !self.options.flags.contains(SerializerFlags::FORBID_DELTA_ENCODE) {
                    match self.reader.read_bit() {
                        Ok(bit) => bit,
                        Err(e) => {
                            return Err(e);
                        },
                    }
                } else {
                    true
                };
                if present {
                    match self.deserialize_value(types, &property.ty, budget) {
                        Ok(value) => {
                            let ghost done = fields_view(fields@);
                            let field = Field { name: property.name.clone(), value };
                            fields.push(field);
                            assert(fields_view(fields@) =~= done.push(
                                (property.name@, field.value@),
                            ));
                        },
                        Err(e) => {
                            return Err(e);
                        },
                    }
                }
            }
            i = i + 1;
        }
        Ok(fields)
    }

    /// Decodes a value of type `ty`.
    fn deserialize_value(&mut self, types: &TypeList, ty: &PropertyType, budget: u8) -> (result:
        Result<Value, DecodeError>)
        ensures
            final(self).same_stream(*old(self)),
            decoded_as(
                result,
                final(self).reader().position(),
                decode_value::<T>(
                    old(self).context(*types),
                    *ty,
                    old(self).reader().position(),
                    budget as nat,
                ),
            ),
        decreases 2 * budget, 1 + ty.depth(), 0nat,
    {
        match ty {
            PropertyType::List(item) => {
                let len = match self.read_seq_len() {
                    Ok(len) => len,
                    Err(e) => {
                        return Err(e);
                    },
                };
                match self.deserialize_items(types, item, len, budget) {
                    Ok(items) => {
                        proof {
                            lemma_list_view(items);
                        }
                        Ok(Value::List(items))
                    },
                    Err(e) => Err(e),
                }
            },
            PropertyType::Object => self.deserialize_object(types, budget),
            PropertyType::Primitive(primitive) => self.deserialize_primitive(primitive),
        }
    }

    /// Decodes `len` values of type `ty`, one after the other.
    #[verifier::loop_isolation(false)]
    fn deserialize_items(
        &mut self,
        types: &TypeList,
        ty: &PropertyType,
        len: usize,
        budget: u8,
    ) -> (result: Result<Vec<Value>, DecodeError>)
        ensures
            final(self).same_stream(*old(self)),
            match decode_items::<T>(
                old(self).context(*types),
                *ty,
                len as nat,
                old(self).reader().position(),
                budget as nat,
                Seq::empty(),
            ) {
                Ok((items, pos)) => result matches Ok(got) && values_view(got@) == items
                    && final(self).reader().position() == pos,
                Err(e) => result matches Err(err) && err == e,
            },
        decreases 2 * budget, 1 + ty.depth(), 1nat,
    {
        let ghost cx = self.context(*types);
        let ghost start = self.reader.position();
        let ghost before = *self;
        let mut items: Vec<Value> = Vec::new();
        let mut i: usize = 0;
        assert(values_view(items@) =~= Seq::empty());
        while i < len
            invariant
                i <= len,
                self.same_stream(before),
                decode_items::<T>(cx, *ty, len as nat, start, budget as nat, Seq::empty())
                    == decode_items::<T>(
                    cx,
                    *ty,
                    (len - i) as nat,
                    self.reader.position(),
                    budget as nat,
                    values_view(items@),
                ),
            decreases len - i,
        {
            match self.deserialize_value(types, ty, budget) {
                Ok(value) => {
                    let ghost done = values_view(items@);
                    let ghost content = value@;
                    items.push(value);
                    assert(values_view(items@) =~= done.push(content));
                },
                Err(e) => {
                    return Err(e);
                },
            }
            i = i + 1;
        }
        Ok(items)
    }
}

/// What loading `data` and then decoding one object gives, under the
/// given options: the error of the loading, or else the outcome of the
/// decode at the start of the loaded content.
pub open spec fn spec_deserialize_buffer<T: TypeTag>(
    options: DeserializerOptions,
    types: TypeList,
    data: Seq<u8>,
) -> Result<(ValueView, nat), DecodeError> {
    match spec_feed(data, options.flags, options.manual_compression) {
        Err(e) => Err(e),
        Ok(primed) => decode_object::<T>(
            DecodeContext {
                data: primed.content,
                flags: primed.flags,
                mask: options.property_mask,
                types,
            },
            primed.start,
            options.recursion_limit as nat,
        ),
    }
}

/// Loads `data` and decodes the object at its start.
///
/// Flags embedded in the stream replace those of `options` and stay
/// there for the calls that follow; nothing else of `options` changes.
pub fn deserialize_buffer<T: TypeTag>(
    options: &mut DeserializerOptions,
    types: &TypeList,
    data: &[u8],
) -> (result: Result<Value, DecodeError>)
    ensures
        *final(options) == (DeserializerOptions {
            flags: spec_flags_after_feed(
                data@,
                old(options).flags,
                old(options).manual_compression,
            ),
            ..*old(options)
        }),
        match spec_deserialize_buffer::<T>(*old(options), *types, data@) {
            Ok((value, _)) => result matches Ok(got) && got@ == value,
            Err(e) => result matches Err(err) && err == e,
        },
{
    let mut scratch: Vec<u8> = Vec::new();
    let mut de = Deserializer::<T>::new(*options);
    let primed = de.feed_data(data, &mut scratch);
    options.flags = de.options.flags;
    match primed {
        Ok(()) => de.deserialize(types),
        Err(e) => Err(e),
    }
}

} // verus!
