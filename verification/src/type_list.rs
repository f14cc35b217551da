//! The type registry: what the decoder knows of the types whose objects a
//! stream holds.

use crate::flags::PropertyFlags;
use std::collections::HashMap;
use vstd::prelude::*;

verus! {

broadcast use vstd::std_specs::hash::group_hash_axioms;

/// The width of a bit field, between 1 and 64 bits.
#[derive(Clone, Copy, Debug)]
pub struct BitWidth {
    bits: u8,
}

impl BitWidth {
    #[verifier::type_invariant]
    spec fn in_range(self) -> bool {
        1 <= self.bits <= 64
    }

    /// The number of bits.
    pub closed spec fn value(self) -> nat {
        self.bits as nat
    }

    /// A width of `bits` bits, where a bit field can be that wide.
    pub fn new(bits: u8) -> (width: Option<BitWidth>)
        ensures
            width is Some <==> 1 <= bits <= 64,
            width matches Some(w) ==> w.value() == bits,
    {
        if 1 <= bits && bits <= 64 {
            Some(BitWidth { bits })
        } else {
            None
        }
    }

    /// The number of bits.
    pub fn get(&self) -> (bits: u8)
        ensures
            bits == self.value(),
            1 <= bits <= 64,
    {
        proof {
            use_type_invariant(self);
        }
        self.bits
    }
}

/// A value that is decoded without a look at the type registry: a
/// number, a bit field, a string or an enumeration.
#[derive(Debug)]
pub enum Primitive {
    /// A byte.
    U8,
    /// A little-endian unsigned 16-bit integer.
    U16,
    /// A little-endian unsigned 32-bit integer.
    U32,
    /// A little-endian unsigned 64-bit integer.
    U64,
    /// A two's-complement byte.
    I8,
    /// A little-endian two's-complement 16-bit integer.
    I16,
    /// A little-endian two's-complement 32-bit integer.
    I32,
    /// A little-endian two's-complement 64-bit integer.
    I64,
    /// A little-endian IEEE 754 single-precision number.
    F32,
    /// A little-endian IEEE 754 double-precision number.
    F64,
    /// An unsigned bit field that need not start on a byte boundary.
    Bits(BitWidth),
    /// A two's-complement bit field that need not start on a byte
    /// boundary.
    SignedBits(BitWidth),
    /// A length-prefixed byte string.
    Str,
    /// A length-prefixed string of UTF-16 code units.
    WStr,
    /// An enumeration: a 32-bit integer, or a byte string where the stream
    /// writes enumerations in human-readable form.
    Enum,
}

/// How the value of a property is written in the stream.
#[derive(Debug)]
pub enum PropertyType {
    /// A primitive value.
    Primitive(Primitive),
    /// A length-prefixed sequence of values of one type.
    List(Box<PropertyType>),
    /// A nested object, which starts with its own identity.
    Object,
}

impl PropertyType {
    /// How many sequence layers are wrapped around the innermost type.
    pub open spec fn depth(self) -> nat
        decreases self,
    {
        match self {
            PropertyType::List(inner) => 1 + inner.depth(),
            _ => 0,
        }
    }
}

/// A property of a type: one field of its objects.
#[derive(Debug)]
pub struct Property {
    /// The name of the field.
    pub name: String,
    /// How the field's value is written.
    pub ty: PropertyType,
    /// The visibility and encoding bits of the field.
    pub flags: PropertyFlags,
}

/// The definition of a type: its properties, in the order in which a
/// stream writes them.
#[derive(Debug)]
pub struct TypeDef {
    /// The name of the type.
    pub name: String,
    /// The hash by which streams identify the type.
    pub hash: u32,
    /// The properties in wire order.
    pub properties: Vec<Property>,
}

/// The type registry: type definitions by the hash that identifies them.
pub struct TypeList {
    classes: HashMap<u32, TypeDef>,
}

impl TypeList {
    /// The definitions held, by hash.
    pub closed spec fn definitions(self) -> Map<u32, TypeDef> {
        self.classes@
    }

    /// The definition that `hash` identifies, if the registry holds one.
    pub open spec fn spec_lookup(self, hash: u32) -> Option<TypeDef> {
        if self.definitions().contains_key(hash) {
            Some(self.definitions()[hash])
        } else {
            None
        }
    }

    /// A registry without definitions.
    pub fn new() -> (types: TypeList)
        ensures
            types.definitions() == Map::<u32, TypeDef>::empty(),
    {
        TypeList { classes: HashMap::new() }
    }

    /// Adds a definition under its hash, in place of an earlier one with
    /// the same hash.
    pub fn insert(&mut self, def: TypeDef)
        ensures
            final(self).definitions() == old(self).definitions().insert(def.hash, def),
    {
        let hash = def.hash;
        self.classes.insert(hash, def);
    }

    /// Looks up the definition that `hash` identifies.
    pub fn lookup(&self, hash: u32) -> (found: Option<&TypeDef>)
        ensures
            match found {
                Some(def) => self.spec_lookup(hash) == Some(*def),
                None => self.spec_lookup(hash) is None,
            },
    {
        self.classes.get(&hash)
    }
}

} // verus!
