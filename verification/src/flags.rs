//! The two flag sets of the format: the switches of a stream's encoding and
//! the per-property visibility and encoding bits.

use vstd::prelude::*;

verus! {

/// Configuration bits that customise how a stream is encoded.
///
/// A plain set of independent bits. Bits outside [`SerializerFlags::ALL`]
/// carry no meaning and are dropped by
/// [`SerializerFlags::from_bits_truncate`].
#[derive(Clone, Copy, Debug, PartialEq, Eq, Structural)]
pub struct SerializerFlags {
    pub bits: u32,
}

impl SerializerFlags {
    /// The flag set is itself part of the stream and replaces the
    /// configured one when a buffer is loaded.
    pub const STATEFUL_FLAGS: u32 = 0x01;

    /// Length prefixes use the compact two-tier encoding.
    pub const COMPACT_LENGTH_PREFIXES: u32 = 0x02;

    /// Enumerations are written as strings instead of integers.
    pub const HUMAN_READABLE_ENUMS: u32 = 0x04;

    /// The payload may be zlib-compressed, as an indicator byte tells.
    pub const WITH_COMPRESSION: u32 = 0x08;

    /// Properties marked for delta encoding always carry their value.
    pub const FORBID_DELTA_ENCODE: u32 = 0x10;

    /// Every bit that has a meaning.
    pub const ALL: u32 = 0x1f;

    /// Whether every bit of `mask` is set.
    pub open spec fn has(self, mask: u32) -> bool {
        self.bits & mask == mask
    }

    /// What [`SerializerFlags::from_bits_truncate`] makes of a raw word.
    pub open spec fn truncated(bits: u32) -> SerializerFlags {
        SerializerFlags { bits: bits & SerializerFlags::ALL }
    }

    /// The set with no bit set.
    pub fn empty() -> (flags: SerializerFlags)
        ensures
            flags.bits == 0,
            forall|mask: u32| mask != 0 ==> !flags.has(mask),
    {
        assert(forall|mask: u32| mask != 0 ==> 0u32 & mask != mask) by (bit_vector);
        SerializerFlags { bits: 0 }
    }

    /// Reads a flag set from a raw word; bits without a meaning are
    /// ignored, and every flag is in the set exactly if its bit is set in
    /// the word.
    pub fn from_bits_truncate(bits: u32) -> (flags: SerializerFlags)
        ensures
            flags == SerializerFlags::truncated(bits),
            flags.bits <= SerializerFlags::ALL,
            forall|mask: u32|
                mask & SerializerFlags::ALL == mask ==> (flags.has(mask) <==> bits & mask == mask),
    {
        assert(bits & 0x1f <= 0x1f) by (bit_vector);
        assert(forall|mask: u32|
            mask & 0x1f == mask ==> (((bits & 0x1f) & mask == mask) <==> bits & mask == mask))
            by (bit_vector);
        SerializerFlags { bits: bits & SerializerFlags::ALL }
    }

    /// The raw word of the set.
    pub fn bits(&self) -> (bits: u32)
        ensures
            bits == self.bits,
    {
        self.bits
    }

    /// Whether every bit of `mask` is set.
    pub fn contains(&self, mask: u32) -> (found: bool)
        ensures
            found == self.has(mask),
    {
        self.bits & mask == mask
    }

    /// The set with the bits of `mask` added.
    pub fn with(self, mask: u32) -> (flags: SerializerFlags)
        ensures
            flags.bits == self.bits | mask,
            flags.has(mask),
            forall|other: u32| self.has(other) ==> flags.has(other),
    {
        let bits = self.bits;
        assert((bits | mask) & mask == mask) by (bit_vector);
        assert(forall|other: u32| bits & other == other ==> (bits | mask) & other == other)
            by (bit_vector);
        SerializerFlags { bits: self.bits | mask }
    }
}

/// Visibility and encoding bits that the type registry attaches to each
/// property of a type.
#[derive(Clone, Copy, Debug, PartialEq, Eq, Structural)]
pub struct PropertyFlags {
    pub bits: u32,
}

impl PropertyFlags {
    /// The property is sent to every peer.
    pub const TRANSMIT: u32 = 0x008;

    /// The property is sent to privileged peers.
    pub const PRIVILEGED_TRANSMIT: u32 = 0x010;

    /// The property may be left out when unchanged; a presence bit says
    /// whether its value follows.
    pub const DELTA_ENCODE: u32 = 0x100;

    /// Whether every bit of `mask` is set.
    pub open spec fn has(self, mask: u32) -> bool {
        self.bits & mask == mask
    }

    /// Whether the two sets share a bit.
    pub open spec fn overlaps(self, other: PropertyFlags) -> bool {
        self.bits & other.bits != 0
    }

    /// The set with no bit set.
    pub fn empty() -> (flags: PropertyFlags)
        ensures
            flags.bits == 0,
            forall|mask: u32| mask != 0 ==> !flags.has(mask),
            forall|other: PropertyFlags| !flags.overlaps(other) && !other.overlaps(flags),
    {
        assert(forall|mask: u32| mask != 0 ==> 0u32 & mask != mask) by (bit_vector);
        assert(forall|mask: u32| 0u32 & mask == 0 && mask & 0u32 == 0) by (bit_vector);
        PropertyFlags { bits: 0 }
    }

    /// The set that holds exactly the bits of the raw word, those without
    /// a name here included.
    pub fn from_bits_retain(bits: u32) -> (flags: PropertyFlags)
        ensures
            flags.bits == bits,
    {
        PropertyFlags { bits }
    }

    /// The raw word of the set.
    pub fn bits(&self) -> (bits: u32)
        ensures
            bits == self.bits,
    {
        self.bits
    }

    /// Whether every bit of `mask` is set.
    pub fn contains(&self, mask: u32) -> (found: bool)
        ensures
            found == self.has(mask),
    {
        self.bits & mask == mask
    }

    /// Whether the two sets share a bit.
    pub fn intersects(&self, other: PropertyFlags) -> (shared: bool)
        ensures
            shared == self.overlaps(other),
    {
        self.bits & other.bits != 0
    }

    /// The set with the bits of `mask` added.
    pub fn with(self, mask: u32) -> (flags: PropertyFlags)
        ensures
            flags.bits == self.bits | mask,
            flags.has(mask),
            forall|other: u32| self.has(other) ==> flags.has(other),
    {
        let bits = self.bits;
        assert((bits | mask) & mask == mask) by (bit_vector);
        assert(forall|other: u32| bits & other == other ==> (bits | mask) & other == other)
            by (bit_vector);
        PropertyFlags { bits: self.bits | mask }
    }

    /// Two sets share a bit exactly if they do the other way round, and a
    /// set that holds a nonempty mask shares a bit with every set that
    /// holds it too.
    pub proof fn lemma_overlaps(self, other: PropertyFlags, mask: u32)
        ensures
            self.overlaps(other) == other.overlaps(self),
            mask != 0 && self.has(mask) && other.has(mask) ==> self.overlaps(other),
    {
        let a = self.bits;
        let b = other.bits;
        assert((a & b != 0) == (b & a != 0)) by (bit_vector);
        assert(mask != 0 && a & mask == mask && b & mask == mask ==> a & b != 0) by (bit_vector);
    }
}

} // verus!
