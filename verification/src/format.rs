//! The wire format, as functions from a buffer and a bit position to the
//! value found there and the position after it.
//!
//! These functions say what the decoder owes its callers; the engine in
//! [`crate::serialization`] is proved to compute them.

use crate::endian::{le_u16, twos_complement};
use crate::error::DecodeError;
use crate::flags::{PropertyFlags, SerializerFlags};
use crate::reader::{
    align_up, bit_at, bits_value, has_bytes, lemma_bits_value_bound, lemma_bits_value_split,
    lemma_loads_agree_with_bit_fields, spec_load_u16, spec_load_u32, spec_load_u64, spec_load_u8,
    spec_read_bit, spec_read_bits, spec_read_bytes,
};
use crate::type_list::{Primitive, Property, PropertyType, TypeList};
use crate::type_tag::{spec_object_identity, TypeTag};
use crate::value::ValueView;
use vstd::arithmetic::power2::lemma2_to64;
use vstd::prelude::*;

verus! {

/// What a decode depends on besides the position: the buffer, the stream
/// flags, the property mask and the type registry.
pub struct DecodeContext {
    pub data: Seq<u8>,
    pub flags: SerializerFlags,
    pub mask: PropertyFlags,
    pub types: TypeList,
}

/// A compact length prefix at `pos`: a flag bit, then 31 value bits when
/// the flag is set and 7 when it is clear.
pub open spec fn spec_compact_length(data: Seq<u8>, pos: nat) -> Result<(nat, nat), DecodeError> {
    match spec_read_bit(data, pos) {
        Err(e) => Err(e),
        Ok((large, after)) => spec_read_bits(
            data,
            after,
            if large {
                31
            } else {
                7
            },
        ),
    }
}

/// The length prefix of a string at `pos`: byte-aligned, compact where
/// the stream uses compact prefixes and 16 bits wide otherwise.
pub open spec fn spec_str_len(data: Seq<u8>, flags: SerializerFlags, pos: nat) -> Result<
    (nat, nat),
    DecodeError,
> {
    if flags.has(SerializerFlags::COMPACT_LENGTH_PREFIXES) {
        spec_compact_length(data, align_up(pos))
    } else {
        spec_load_u16(data, align_up(pos))
    }
}

/// The length prefix of a sequence at `pos`: byte-aligned, compact where
/// the stream uses compact prefixes and 32 bits wide otherwise.
pub open spec fn spec_seq_len(data: Seq<u8>, flags: SerializerFlags, pos: nat) -> Result<
    (nat, nat),
    DecodeError,
> {
    if flags.has(SerializerFlags::COMPACT_LENGTH_PREFIXES) {
        spec_compact_length(data, align_up(pos))
    } else {
        spec_load_u32(data, align_up(pos))
    }
}

/// A byte string at `pos`: its length prefix, then that many bytes.
pub open spec fn spec_str(data: Seq<u8>, flags: SerializerFlags, pos: nat) -> Result<
    (Seq<u8>, nat),
    DecodeError,
> {
    match spec_str_len(data, flags, pos) {
        Err(e) => Err(e),
        Ok((len, after)) => spec_read_bytes(data, after, len),
    }
}

/// The `len` little-endian code units that start at the byte-aligned
/// position `pos`.
pub open spec fn spec_code_units(data: Seq<u8>, pos: nat, len: nat) -> Seq<u16> {
    Seq::new(len, |i: int| le_u16(data, pos / 8 + 2 * i) as u16)
}

/// A wide string at `pos`: its length prefix, then that many 16-bit code
/// units.
pub open spec fn spec_wstr(data: Seq<u8>, flags: SerializerFlags, pos: nat) -> Result<
    (Seq<u16>, nat),
    DecodeError,
> {
    match spec_str_len(data, flags, pos) {
        Err(e) => Err(e),
        Ok((len, after)) => if has_bytes(data, after, 2 * len) {
            Ok((spec_code_units(data, after, len), after + 16 * len))
        } else {
            Err(DecodeError::Truncated)
        },
    }
}

/// A two's-complement bit field of `n` bits at `pos`.
pub open spec fn spec_signed_bits(data: Seq<u8>, pos: nat, n: nat) -> Result<
    (int, nat),
    DecodeError,
> {
    match spec_read_bits(data, pos, n) {
        Err(e) => Err(e),
        Ok((raw, after)) => Ok((twos_complement(raw as int, n), after)),
    }
}

/// Wraps a decoded number into a value.
pub open spec fn wrapped(
    read: Result<(nat, nat), DecodeError>,
    wrap: spec_fn(nat) -> ValueView,
) -> Result<(ValueView, nat), DecodeError> {
    match read {
        Err(e) => Err(e),
        Ok((raw, after)) => Ok((wrap(raw), after)),
    }
}

/// The primitive value of type `ty` at `pos`.
///
/// Fixed-width numbers are byte-aligned: the cursor moves up to a byte
/// boundary before they are loaded. Bit fields start where the cursor
/// stands.
pub open spec fn decode_primitive(
    data: Seq<u8>,
    flags: SerializerFlags,
    ty: Primitive,
    pos: nat,
) -> Result<(ValueView, nat), DecodeError> {
    let at = align_up(pos);
    match ty {
        Primitive::U8 => wrapped(spec_load_u8(data, at), |v: nat| ValueView::U8(v as u8)),
        Primitive::U16 => wrapped(
            spec_load_u16(data, at),
            |v: nat| ValueView::U16(v as u16),
        ),
        Primitive::U32 => wrapped(
            spec_load_u32(data, at),
            |v: nat| ValueView::U32(v as u32),
        ),
        Primitive::U64 => wrapped(
            spec_load_u64(data, at),
            |v: nat| ValueView::U64(v as u64),
        ),
        Primitive::I8 => wrapped(
            spec_load_u8(data, at),
            |v: nat| ValueView::I8(twos_complement(v as int, 8) as i8),
        ),
        Primitive::I16 => wrapped(
            spec_load_u16(data, at),
            |v: nat| ValueView::I16(twos_complement(v as int, 16) as i16),
        ),
        Primitive::I32 => wrapped(
            spec_load_u32(data, at),
            |v: nat| ValueView::I32(twos_complement(v as int, 32) as i32),
        ),
        Primitive::I64 => wrapped(
            spec_load_u64(data, at),
            |v: nat| ValueView::I64(twos_complement(v as int, 64) as i64),
        ),
        Primitive::F32 => wrapped(
            spec_load_u32(data, at),
            |v: nat| ValueView::F32(v as u32),
        ),
        Primitive::F64 => wrapped(
            spec_load_u64(data, at),
            |v: nat| ValueView::F64(v as u64),
        ),
        Primitive::Bits(width) => wrapped(
            spec_read_bits(data, pos, width.value()),
            |v: nat| ValueView::U64(v as u64),
        ),
        Primitive::SignedBits(width) => match spec_signed_bits(data, pos, width.value()) {
            Err(e) => Err(e),
            Ok((v, after)) => Ok((ValueView::I64(v as i64), after)),
        },
        Primitive::Str => match spec_str(data, flags, pos) {
            Err(e) => Err(e),
            Ok((bytes, after)) => Ok((ValueView::Str(bytes), after)),
        },
        Primitive::WStr => match spec_wstr(data, flags, pos) {
            Err(e) => Err(e),
            Ok((units, after)) => Ok((ValueView::WStr(units), after)),
        },
        Primitive::Enum => if flags.has(SerializerFlags::HUMAN_READABLE_ENUMS) {
            match spec_str(data, flags, pos) {
                Err(e) => Err(e),
                Ok((bytes, after)) => Ok((ValueView::Str(bytes), after)),
            }
        } else {
            wrapped(spec_load_u32(data, at), |v: nat| ValueView::U32(v as u32))
        },
    }
}

/// Whether a property takes part in decoding under the mask: its flags
/// share a bit with the mask.
pub open spec fn is_masked_in(property: Property, mask: PropertyFlags) -> bool {
    property.flags.overlaps(mask)
}

/// Whether a presence bit stands before the property's value: the
/// property is delta-encoded and the stream does not forbid that.
pub open spec fn has_presence_bit(property: Property, flags: SerializerFlags) -> bool {
    property.flags.has(PropertyFlags::DELTA_ENCODE) && !flags.has(
        SerializerFlags::FORBID_DELTA_ENCODE,
    )
}

/// Whether the value of a property follows at `pos`, and where: after
/// the presence bit if there is one, else at `pos` itself.
pub open spec fn spec_presence(cx: DecodeContext, property: Property, pos: nat) -> Result<
    (bool, nat),
    DecodeError,
> {
    if has_presence_bit(property, cx.flags) {
        spec_read_bit(cx.data, pos)
    } else {
        Ok((true, pos))
    }
}

/// The object at `pos`, decoded with `budget` units of recursion budget
/// left.
///
/// One unit is spent on entry; the decode fails when that leaves none. An
/// identity that the registry does not know gives the empty value, and
/// nothing after the identity is consumed.
pub open spec fn decode_object<T: TypeTag>(cx: DecodeContext, pos: nat, budget: nat) -> Result<
    (ValueView, nat),
    DecodeError,
>
    decreases 2 * budget, 0nat, 0nat,
{
    if budget <= 1 {
        Err(DecodeError::RecursionLimitExceeded)
    } else {
        match spec_object_identity::<T>(cx.data, pos, cx.types) {
            Err(e) => Err(e),
            Ok((None, after)) => Ok((ValueView::Empty, after)),
            Ok((Some(def), after)) => match decode_fields::<T>(
                cx,
                def.properties@,
                0,
                after,
                (budget - 1) as nat,
                Seq::empty(),
            ) {
                Err(e) => Err(e),
                Ok((fields, end)) => Ok((ValueView::Object(fields), end)),
            },
        }
    }
}

/// The fields of an object from property `index` on, added to the fields
/// `done` that were decoded before.
///
/// Properties are taken in declared order. One that the mask leaves out is
/// skipped and consumes nothing. One with a presence bit consumes that
/// bit, and is left out of the result when the bit is clear.
pub open spec fn decode_fields<T: TypeTag>(
    cx: DecodeContext,
    properties: Seq<Property>,
    index: nat,
    pos: nat,
    budget: nat,
    done: Seq<(Seq<char>, ValueView)>,
) -> Result<(Seq<(Seq<char>, ValueView)>, nat), DecodeError>
    decreases 2 * budget + 1, properties.len() - index, 0nat,
{
    if index >= properties.len() {
        Ok((done, pos))
    } else {
        let property = properties[index as int];
        if !is_masked_in(property, cx.mask) {
            decode_fields::<T>(cx, properties, index + 1, pos, budget, done)
        } else {
            match spec_presence(cx, property, pos) {
                Err(e) => Err(e),
                Ok((false, after)) => decode_fields::<T>(
                    cx,
                    properties,
                    index + 1,
                    after,
                    budget,
                    done,
                ),
                Ok((true, after)) => match decode_value::<T>(cx, property.ty, after, budget) {
                    Err(e) => Err(e),
                    Ok((value, end)) => decode_fields::<T>(
                        cx,
                        properties,
                        index + 1,
                        end,
                        budget,
                        done.push((property.name@, value)),
                    ),
                },
            }
        }
    }
}

/// The value of type `ty` at `pos`.
pub open spec fn decode_value<T: TypeTag>(
    cx: DecodeContext,
    ty: PropertyType,
    pos: nat,
    budget: nat,
) -> Result<(ValueView, nat), DecodeError>
    decreases 2 * budget, 1 + ty.depth(), 0nat,
{
    match ty {
        PropertyType::List(item) => match spec_seq_len(cx.data, cx.flags, pos) {
            Err(e) => Err(e),
            Ok((len, after)) => match decode_items::<T>(
                cx,
                *item,
                len,
                after,
                budget,
                Seq::empty(),
            ) {
                Err(e) => Err(e),
                Ok((items, end)) => Ok((ValueView::List(items), end)),
            },
        },
        PropertyType::Object => decode_object::<T>(cx, pos, budget),
        PropertyType::Primitive(primitive) => decode_primitive(cx.data, cx.flags, primitive, pos),
    }
}

/// The next `left` items of a sequence of values of type `ty`, added to
/// the items `done` that were decoded before.
pub open spec fn decode_items<T: TypeTag>(
    cx: DecodeContext,
    ty: PropertyType,
    left: nat,
    pos: nat,
    budget: nat,
    done: Seq<ValueView>,
) -> Result<(Seq<ValueView>, nat), DecodeError>
    decreases 2 * budget, 1 + ty.depth(), 1 + left,
{
    if left == 0 {
        Ok((done, pos))
    } else {
        match decode_value::<T>(cx, ty, pos, budget) {
            Err(e) => Err(e),
            Ok((value, after)) => decode_items::<T>(
                cx,
                ty,
                (left - 1) as nat,
                after,
                budget,
                done.push(value),
            ),
        }
    }
}

/// A compact length prefix takes 8 bits when its flag bit is clear and 32
/// bits when it is set: the flag, then a value below 128 or below 2^31.
pub proof fn lemma_compact_length_width(data: Seq<u8>, pos: nat)
    ensures
        match spec_compact_length(data, pos) {
            Ok((len, after)) => if bit_at(data, pos) {
                after == pos + 32 && len < 0x8000_0000
            } else {
                after == pos + 8 && len < 128
            },
            Err(e) => e == DecodeError::Truncated,
        },
        spec_compact_length(data, pos) is Ok <==> pos + (if pos < 8 * data.len() && bit_at(
            data,
            pos,
        ) {
            32nat
        } else {
            8nat
        }) <= 8 * data.len(),
{
    lemma2_to64();
    lemma_bits_value_bound(data, pos + 1, 7);
    lemma_bits_value_bound(data, pos + 1, 31);
}

/// The bytes that write `len` as a compact length prefix: one byte for a
/// length below 128, four bytes otherwise.
///
/// The flag is the lowest bit of the first byte and the value stands
/// above it, so the prefix is the little-endian form of `2 * len`, or of
/// `2 * len + 1` in four bytes.
pub open spec fn compact_length_bytes(len: nat) -> Seq<u8>
    recommends
        len < 0x8000_0000,
{
    if len < 128 {
        seq![(2 * len) as u8]
    } else {
        let word = 2 * len + 1;
        seq![
            (word % 0x100) as u8,
            (word / 0x100 % 0x100) as u8,
            (word / 0x1_0000 % 0x100) as u8,
            (word / 0x100_0000) as u8,
        ]
    }
}

/// Reading a compact length prefix gives back the length that was
/// written, whatever follows it, and consumes 8 bits for a length below
/// 128 and 32 bits otherwise.
pub proof fn lemma_compact_length_round_trip(len: nat, rest: Seq<u8>)
    requires
        len < 0x8000_0000,
    ensures
        spec_compact_length(compact_length_bytes(len) + rest, 0) == Ok::<(nat, nat), DecodeError>(
            (
                len,
                if len < 128 {
                    8nat
                } else {
                    32nat
                },
            ),
        ),
{
    let data = compact_length_bytes(len) + rest;
    let flag: nat = if bit_at(data, 0) {
        1
    } else {
        0
    };
    lemma2_to64();
    lemma_loads_agree_with_bit_fields(data, 0);
    assert(bits_value(data, 0, 1) == flag) by {
        reveal_with_fuel(bits_value, 2);
    }
    if len < 128 {
        assert(data[0] == 2 * len);
        lemma_bits_value_split(data, 0, 1, 7);
    } else {
        let word = 2 * len + 1;
        assert(data[0] == word % 0x100);
        assert(data[1] == word / 0x100 % 0x100);
        assert(data[2] == word / 0x1_0000 % 0x100);
        assert(data[3] == word / 0x100_0000);
        assert(crate::endian::le_u32(data, 0) == word);
        lemma_bits_value_split(data, 0, 1, 31);
    }
}

/// A property that the mask leaves out takes no part in decoding: the
/// fields from it on are the fields from the next property on, read at the
/// same position.
pub proof fn lemma_masked_out_property_is_skipped<T: TypeTag>(
    cx: DecodeContext,
    properties: Seq<Property>,
    index: nat,
    pos: nat,
    budget: nat,
    done: Seq<(Seq<char>, ValueView)>,
)
    requires
        index < properties.len(),
        !is_masked_in(properties[index as int], cx.mask),
    ensures
        decode_fields::<T>(cx, properties, index, pos, budget, done) == decode_fields::<T>(
            cx,
            properties,
            index + 1,
            pos,
            budget,
            done,
        ),
{
}

/// A property that the mask lets in and that has no presence bit always
/// has its value decoded, and stands under its name in the result.
pub proof fn lemma_masked_in_property_is_decoded<T: TypeTag>(
    cx: DecodeContext,
    properties: Seq<Property>,
    index: nat,
    pos: nat,
    budget: nat,
    done: Seq<(Seq<char>, ValueView)>,
)
    requires
        index < properties.len(),
        is_masked_in(properties[index as int], cx.mask),
        !has_presence_bit(properties[index as int], cx.flags),
    ensures
        decode_fields::<T>(cx, properties, index, pos, budget, done) == match decode_value::<T>(
            cx,
            properties[index as int].ty,
            pos,
            budget,
        ) {
            Err(e) => Err(e),
            Ok((value, end)) => decode_fields::<T>(
                cx,
                properties,
                index + 1,
                end,
                budget,
                done.push((properties[index as int].name@, value)),
            ),
        },
{
}

/// A property that carries nothing but the privileged transmit bit is
/// left out under a mask of the transmit bit alone, and takes part under
/// every mask that holds the privileged transmit bit.
pub proof fn lemma_privileged_property_and_masks(property: Property, mask: PropertyFlags)
    requires
        property.flags.bits == PropertyFlags::PRIVILEGED_TRANSMIT,
    ensures
        mask.bits == PropertyFlags::TRANSMIT ==> !is_masked_in(property, mask),
        mask.has(PropertyFlags::PRIVILEGED_TRANSMIT) ==> is_masked_in(property, mask),
{
    let bits = mask.bits;
    assert(0x10u32 & 0x08u32 == 0) by (bit_vector);
    assert(bits & 0x10 == 0x10 ==> 0x10u32 & bits != 0) by (bit_vector);
}

/// An identity that the registry does not know decodes to the empty
/// value, and the cursor stops right after the identity's bytes.
pub proof fn lemma_unknown_identity_is_empty<T: TypeTag>(cx: DecodeContext, pos: nat, budget: nat)
    requires
        budget >= 2,
        has_bytes(cx.data, align_up(pos), T::identity_len()),
        cx.types.spec_lookup(T::identity_hash(cx.data, (align_up(pos) / 8) as int)) is None,
    ensures
        decode_object::<T>(cx, pos, budget) == Ok::<(ValueView, nat), DecodeError>(
            (ValueView::Empty, align_up(pos) + 8 * T::identity_len()),
        ),
{
}

/// With a recursion budget of one unit or none, no object is decoded and
/// nothing is read.
pub proof fn lemma_spent_budget_fails<T: TypeTag>(cx: DecodeContext, pos: nat, budget: nat)
    requires
        budget <= 1,
    ensures
        decode_object::<T>(cx, pos, budget) == Err::<(ValueView, nat), DecodeError>(
            DecodeError::RecursionLimitExceeded,
        ),
{
}

/// Whether a decode ran out of recursion budget.
pub open spec fn out_of_budget<V>(outcome: Result<(V, nat), DecodeError>) -> bool {
    outcome matches Err(e) && e == DecodeError::RecursionLimitExceeded
}

/// A decode that does not run out of recursion budget gives the same
/// result under any larger budget: the budget decides only whether a
/// nesting is accepted, never what is decoded.
pub proof fn lemma_budget_object<T: TypeTag>(cx: DecodeContext, pos: nat, budget: nat, larger: nat)
    requires
        budget <= larger,
        !out_of_budget(decode_object::<T>(cx, pos, budget)),
    ensures
        decode_object::<T>(cx, pos, larger) == decode_object::<T>(cx, pos, budget),
    decreases 2 * budget, 0nat, 0nat,
{
    match spec_object_identity::<T>(cx.data, pos, cx.types) {
        Ok((Some(def), after)) => {
            lemma_budget_fields::<T>(
                cx,
                def.properties@,
                0,
                after,
                (budget - 1) as nat,
                (larger - 1) as nat,
                Seq::empty(),
            );
        },
        _ => {},
    }
}

/// The fields of an object do not depend on the budget, as long as it
/// suffices.
pub proof fn lemma_budget_fields<T: TypeTag>(
    cx: DecodeContext,
    properties: Seq<Property>,
    index: nat,
    pos: nat,
    budget: nat,
    larger: nat,
    done: Seq<(Seq<char>, ValueView)>,
)
    requires
        budget <= larger,
        !out_of_budget(decode_fields::<T>(cx, properties, index, pos, budget, done)),
    ensures
        decode_fields::<T>(cx, properties, index, pos, larger, done) == decode_fields::<T>(
            cx,
            properties,
            index,
            pos,
            budget,
            done,
        ),
    decreases 2 * budget + 1, properties.len() - index, 0nat,
{
    if index < properties.len() {
        let property = properties[index as int];
        if !is_masked_in(property, cx.mask) {
            lemma_budget_fields::<T>(cx, properties, index + 1, pos, budget, larger, done);
        } else {
            match spec_presence(cx, property, pos) {
                Err(_) => {},
                Ok((false, after)) => {
                    lemma_budget_fields::<T>(
                        cx,
                        properties,
                        index + 1,
                        after,
                        budget,
                        larger,
                        done,
                    );
                },
                Ok((true, after)) => {
                    lemma_budget_value::<T>(cx, property.ty, after, budget, larger);
                    match decode_value::<T>(cx, property.ty, after, budget) {
                        Err(_) => {},
                        Ok((value, end)) => {
                            lemma_budget_fields::<T>(
                                cx,
                                properties,
                                index + 1,
                                end,
                                budget,
                                larger,
                                done.push((property.name@, value)),
                            );
                        },
                    }
                },
            }
        }
    }
}

/// A value does not depend on the budget, as long as it suffices.
pub proof fn lemma_budget_value<T: TypeTag>(
    cx: DecodeContext,
    ty: PropertyType,
    pos: nat,
    budget: nat,
    larger: nat,
)
    requires
        budget <= larger,
        !out_of_budget(decode_value::<T>(cx, ty, pos, budget)),
    ensures
        decode_value::<T>(cx, ty, pos, larger) == decode_value::<T>(cx, ty, pos, budget),
    decreases 2 * budget, 1 + ty.depth(), 0nat,
{
    match ty {
        PropertyType::List(item) => {
            match spec_seq_len(cx.data, cx.flags, pos) {
                Err(_) => {},
                Ok((len, after)) => {
                    lemma_budget_items::<T>(cx, *item, len, after, budget, larger, Seq::empty());
                },
            }
        },
        PropertyType::Object => {
            lemma_budget_object::<T>(cx, pos, budget, larger);
        },
        _ => {},
    }
}

/// The items of a sequence do not depend on the budget, as long as it
/// suffices.
pub proof fn lemma_budget_items<T: TypeTag>(
    cx: DecodeContext,
    ty: PropertyType,
    left: nat,
    pos: nat,
    budget: nat,
    larger: nat,
    done: Seq<ValueView>,
)
    requires
        budget <= larger,
        !out_of_budget(decode_items::<T>(cx, ty, left, pos, budget, done)),
    ensures
        decode_items::<T>(cx, ty, left, pos, larger, done) == decode_items::<T>(
            cx,
            ty,
            left,
            pos,
            budget,
            done,
        ),
    decreases 2 * budget, 1 + ty.depth(), 1 + left,
{
    if left > 0 {
        lemma_budget_value::<T>(cx, ty, pos, budget, larger);
        match decode_value::<T>(cx, ty, pos, budget) {
            Err(_) => {},
            Ok((value, after)) => {
                lemma_budget_items::<T>(
                    cx,
                    ty,
                    (left - 1) as nat,
                    after,
                    budget,
                    larger,
                    done.push(value),
                );
            },
        }
    }
}

/// Whether a decode that started at `pos` ended, if it succeeded, at or
/// after `pos` and inside the buffer.
pub open spec fn ends_forward<V>(
    outcome: Result<(V, nat), DecodeError>,
    data: Seq<u8>,
    pos: nat,
) -> bool {
    outcome matches Ok((_, end)) ==> pos <= end <= 8 * data.len()
}

/// A length prefix is read forward, and the cursor stands on a byte
/// boundary after it.
pub proof fn lemma_length_ends_forward(data: Seq<u8>, flags: SerializerFlags, pos: nat)
    ensures
        ends_forward(spec_str_len(data, flags, pos), data, pos),
        ends_forward(spec_seq_len(data, flags, pos), data, pos),
        spec_str_len(data, flags, pos) matches Ok((_, after)) ==> after % 8 == 0,
        spec_seq_len(data, flags, pos) matches Ok((_, after)) ==> after % 8 == 0,
{
}

/// A string is read forward, be its units bytes or 16-bit code units.
pub proof fn lemma_string_ends_forward(data: Seq<u8>, flags: SerializerFlags, pos: nat)
    ensures
        ends_forward(spec_str(data, flags, pos), data, pos),
        ends_forward(spec_wstr(data, flags, pos), data, pos),
{
    lemma_length_ends_forward(data, flags, pos);
}

/// A primitive value is read forward: the cursor never moves back and
/// never leaves the buffer.
pub proof fn lemma_primitive_ends_forward(
    data: Seq<u8>,
    flags: SerializerFlags,
    ty: Primitive,
    pos: nat,
)
    ensures
        ends_forward(decode_primitive(data, flags, ty, pos), data, pos),
{
    match ty {
        Primitive::Str | Primitive::WStr | Primitive::Enum => {
            lemma_string_ends_forward(data, flags, pos);
        },
        _ => {},
    }
}

/// An object is read forward: the cursor never moves back and never
/// leaves the buffer.
pub proof fn lemma_object_ends_forward<T: TypeTag>(cx: DecodeContext, pos: nat, budget: nat)
    ensures
        ends_forward(decode_object::<T>(cx, pos, budget), cx.data, pos),
    decreases 2 * budget, 0nat, 0nat,
{
    if budget > 1 {
        match spec_object_identity::<T>(cx.data, pos, cx.types) {
            Ok((Some(def), after)) => {
                lemma_fields_end_forward::<T>(
                    cx,
                    def.properties@,
                    0,
                    after,
                    (budget - 1) as nat,
                    Seq::empty(),
                );
            },
            _ => {},
        }
    }
}

/// The fields of an object are read forward, and those decoded before
/// stay at the front of the result, in their order.
pub proof fn lemma_fields_end_forward<T: TypeTag>(
    cx: DecodeContext,
    properties: Seq<Property>,
    index: nat,
    pos: nat,
    budget: nat,
    done: Seq<(Seq<char>, ValueView)>,
)
    requires
        pos <= 8 * cx.data.len(),
    ensures
        ends_forward(decode_fields::<T>(cx, properties, index, pos, budget, done), cx.data, pos),
        decode_fields::<T>(cx, properties, index, pos, budget, done) matches Ok((fields, _))
            ==> done.is_prefix_of(fields),
    decreases 2 * budget + 1, properties.len() - index, 0nat,
{
    if index < properties.len() {
        let property = properties[index as int];
        if !is_masked_in(property, cx.mask) {
            lemma_fields_end_forward::<T>(cx, properties, index + 1, pos, budget, done);
        } else {
            match spec_presence(cx, property, pos) {
                Err(_) => {},
                Ok((false, after)) => {
                    lemma_fields_end_forward::<T>(cx, properties, index + 1, after, budget, done);
                },
                Ok((true, after)) => {
                    lemma_value_ends_forward::<T>(cx, property.ty, after, budget);
                    match decode_value::<T>(cx, property.ty, after, budget) {
                        Err(_) => {},
                        Ok((value, end)) => {
                            let more = done.push((property.name@, value));
                            lemma_fields_end_forward::<T>(
                                cx,
                                properties,
                                index + 1,
                                end,
                                budget,
                                more,
                            );
                            assert(done.is_prefix_of(more));
                        },
                    }
                },
            }
        }
    }
}

/// A value is read forward: the cursor never moves back and never leaves
/// the buffer.
pub proof fn lemma_value_ends_forward<T: TypeTag>(
    cx: DecodeContext,
    ty: PropertyType,
    pos: nat,
    budget: nat,
)
    ensures
        ends_forward(decode_value::<T>(cx, ty, pos, budget), cx.data, pos),
    decreases 2 * budget, 1 + ty.depth(), 0nat,
{
    match ty {
        PropertyType::List(item) => {
            match spec_seq_len(cx.data, cx.flags, pos) {
                Err(_) => {},
                Ok((len, after)) => {
                    lemma_items_end_forward::<T>(cx, *item, len, after, budget, Seq::empty());
                },
            }
        },
        PropertyType::Object => {
            lemma_object_ends_forward::<T>(cx, pos, budget);
        },
        PropertyType::Primitive(primitive) => {
            lemma_primitive_ends_forward(cx.data, cx.flags, primitive, pos);
        },
    }
}

/// The items of a sequence are read forward, and a sequence that decodes
/// has as many items as its length says.
pub proof fn lemma_items_end_forward<T: TypeTag>(
    cx: DecodeContext,
    ty: PropertyType,
    left: nat,
    pos: nat,
    budget: nat,
    done: Seq<ValueView>,
)
    requires
        pos <= 8 * cx.data.len(),
    ensures
        ends_forward(decode_items::<T>(cx, ty, left, pos, budget, done), cx.data, pos),
        decode_items::<T>(cx, ty, left, pos, budget, done) matches Ok((items, _)) ==> items.len()
            == done.len() + left && done.is_prefix_of(items),
    decreases 2 * budget, 1 + ty.depth(), 1 + left,
{
    if left > 0 {
        lemma_value_ends_forward::<T>(cx, ty, pos, budget);
        match decode_value::<T>(cx, ty, pos, budget) {
            Err(_) => {},
            Ok((value, after)) => {
                let more = done.push(value);
                lemma_items_end_forward::<T>(cx, ty, (left - 1) as nat, after, budget, more);
                assert(done.is_prefix_of(more));
            },
        }
    }
}

} // verus!
