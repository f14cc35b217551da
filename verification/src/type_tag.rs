//! The two ways in which a stream writes the identity of an object.

use crate::endian::le_u32;
use crate::error::DecodeError;
use crate::reader::{align_up, has_bytes, BitReader};
use crate::type_list::{TypeDef, TypeList};
use vstd::prelude::*;

verus! {

/// How the identity of an object is written in the stream.
///
/// An identity starts on a byte boundary, takes a fixed number of bytes
/// and names a hash, by which the registry finds the object's type. It is
/// read as a whole or not at all: where the buffer ends before the
/// identity does, the cursor stops at the byte boundary and goes no
/// further.
pub trait TypeTag: Sized {
    /// The number of bytes that an identity takes.
    spec fn identity_len() -> nat;

    /// The hash named by the identity that starts at byte `at`.
    spec fn identity_hash(data: Seq<u8>, at: int) -> u32;

    /// Reads the identity of an object and looks its type up.
    ///
    /// `None` means that the registry knows no type by the hash read.
    fn object_identity<'t>(reader: &mut BitReader<'_>, types: &'t TypeList) -> (result: Result<
        Option<&'t TypeDef>,
        DecodeError,
    >)
        ensures
            final(reader).buffer() == old(reader).buffer(),
            ({
                let data = old(reader).buffer();
                let start = align_up(old(reader).position());
                if has_bytes(data, start, Self::identity_len()) {
                    &&& result matches Ok(def)
                    &&& same_definition(
                        def,
                        types.spec_lookup(Self::identity_hash(data, (start / 8) as int)),
                    )
                    &&& final(reader).position() == start + 8 * Self::identity_len()
                } else {
                    &&& result matches Err(err) && err == DecodeError::Truncated
                    &&& final(reader).position() == start
                }
            }),
    ;
}

/// Whether a looked-up definition is the one that the registry holds.
pub open spec fn same_definition(got: Option<&TypeDef>, held: Option<TypeDef>) -> bool {
    match (got, held) {
        (Some(def), Some(other)) => *def == other,
        (None, None) => true,
        _ => false,
    }
}

/// Reading an object's identity at `pos`: the definition it resolves to,
/// if any, and the position after the identity.
///
/// The cursor is first moved up to a byte boundary. The identity's bytes
/// are consumed whether or not the registry knows the hash.
pub open spec fn spec_object_identity<T: TypeTag>(
    data: Seq<u8>,
    pos: nat,
    types: TypeList,
) -> Result<(Option<TypeDef>, nat), DecodeError> {
    let start = align_up(pos);
    if has_bytes(data, start, T::identity_len()) {
        Ok(
            (
                types.spec_lookup(T::identity_hash(data, (start / 8) as int)),
                start + 8 * T::identity_len(),
            ),
        )
    } else {
        Err(DecodeError::Truncated)
    }
}

/// The flat class encoding: the identity is the type's 32-bit hash.
pub struct PropertyClass;

impl TypeTag for PropertyClass {
    open spec fn identity_len() -> nat {
        4
    }

    open spec fn identity_hash(data: Seq<u8>, at: int) -> u32 {
        le_u32(data, at) as u32
    }

    fn object_identity<'t>(reader: &mut BitReader<'_>, types: &'t TypeList) -> (result: Result<
        Option<&'t TypeDef>,
        DecodeError,
    >) {
        reader.realign_to_byte();
        match reader.load_u32() {
            Ok(hash) => Ok(types.lookup(hash)),
            Err(e) => Err(e),
        }
    }
}

/// The core object encoding: a block tag of one byte, then the type's
/// 32-bit hash. The tag plays no part in finding the type.
pub struct CoreObject;

impl TypeTag for CoreObject {
    open spec fn identity_len() -> nat {
        5
    }

    open spec fn identity_hash(data: Seq<u8>, at: int) -> u32 {
        le_u32(data, at + 1) as u32
    }

    fn object_identity<'t>(reader: &mut BitReader<'_>, types: &'t TypeList) -> (result: Result<
        Option<&'t TypeDef>,
        DecodeError,
    >) {
        reader.realign_to_byte();
        if reader.remaining_bytes() < 5 {
            return Err(DecodeError::Truncated);
        }
        match reader.load_u8() {
            Ok(_) => {},
            Err(e) => {
                return Err(e);
            },
        }
        match reader.load_u32() {
            Ok(hash) => Ok(types.lookup(hash)),
            Err(e) => Err(e),
        }
    }
}

} // verus!
