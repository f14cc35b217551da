//! How a buffer is framed: where the stream flags stand, whether the
//! payload is compressed, and what the cursor is placed on.

use crate::endian::le_u32;
use crate::error::DecodeError;
use crate::flags::SerializerFlags;
use crate::reader::{spec_load_u32, BitReader};
use crate::zlib::zlib_inflate;
use vstd::prelude::*;

verus! {

/// What a framed payload `[4-byte size][zlib stream]` inflates to.
///
/// The size is little-endian and must equal the length of the inflated
/// bytes.
pub open spec fn spec_decompress(data: Seq<u8>) -> Result<Seq<u8>, DecodeError> {
    if data.len() < 4 {
        Err(DecodeError::Truncated)
    } else {
        match zlib_inflate(data.skip(4)) {
            None => Err(DecodeError::ZlibError),
            Some(plain) => if plain.len() == le_u32(data, 0) {
                Ok(plain)
            } else {
                Err(DecodeError::CompressionSizeMismatch)
            },
        }
    }
}

/// The state of an engine that has loaded a buffer.
pub struct Primed {
    /// The stream flags in force after loading.
    pub flags: SerializerFlags,
    /// The bytes the cursor reads from.
    pub content: Seq<u8>,
    /// The bit position the cursor starts at.
    pub start: nat,
    /// Whether `content` was inflated into the scratch buffer.
    pub inflated: bool,
}

/// The stream flags after an attempt to load `data`, whether or not the
/// attempt succeeds, in automatic mode: flags embedded in the stream
/// replace the configured ones as soon as they are read.
pub open spec fn spec_leading_flags(data: Seq<u8>, flags: SerializerFlags) -> SerializerFlags {
    if flags.has(SerializerFlags::STATEFUL_FLAGS) && data.len() >= 4 {
        SerializerFlags::truncated(le_u32(data, 0) as u32)
    } else {
        flags
    }
}

/// Loading `data` in manual compression mode: the whole buffer is a
/// framed compressed payload, and stateful flags are the first four bytes
/// of what it inflates to.
pub open spec fn spec_feed_manual(data: Seq<u8>, flags: SerializerFlags) -> Result<
    Primed,
    DecodeError,
> {
    match spec_decompress(data) {
        Err(e) => Err(e),
        Ok(plain) => if flags.has(SerializerFlags::STATEFUL_FLAGS) {
            match spec_load_u32(plain, 0) {
                Err(e) => Err(e),
                Ok((bits, pos)) => Ok(
                    Primed {
                        flags: SerializerFlags::truncated(bits as u32),
                        content: plain,
                        start: pos,
                        inflated: true,
                    },
                ),
            }
        } else {
            Ok(Primed { flags, content: plain, start: 0, inflated: true })
        },
    }
}

/// Loading `data` in automatic mode: stateful flags are the first four raw
/// bytes; with compression enabled an indicator byte follows, and a
/// nonzero indicator announces a framed compressed payload.
pub open spec fn spec_feed_automatic(data: Seq<u8>, flags: SerializerFlags) -> Result<
    Primed,
    DecodeError,
> {
    let stateful = flags.has(SerializerFlags::STATEFUL_FLAGS);
    if stateful && data.len() < 4 {
        Err(DecodeError::Truncated)
    } else {
        let flags = spec_leading_flags(data, flags);
        let rest = if stateful {
            data.skip(4)
        } else {
            data
        };
        if flags.has(SerializerFlags::WITH_COMPRESSION) {
            if rest.len() < 1 {
                Err(DecodeError::Truncated)
            } else if rest[0] != 0 {
                match spec_decompress(rest.skip(1)) {
                    Err(e) => Err(e),
                    Ok(plain) => Ok(Primed { flags, content: plain, start: 0, inflated: true }),
                }
            } else {
                Ok(Primed { flags, content: rest.skip(1), start: 0, inflated: false })
            }
        } else {
            Ok(Primed { flags, content: rest, start: 0, inflated: false })
        }
    }
}

/// Loading `data` under the given flags and compression mode.
pub open spec fn spec_feed(data: Seq<u8>, flags: SerializerFlags, manual: bool) -> Result<
    Primed,
    DecodeError,
> {
    if manual {
        spec_feed_manual(data, flags)
    } else {
        spec_feed_automatic(data, flags)
    }
}

/// The stream flags that a failed attempt to load `data` leaves behind.
pub open spec fn spec_flags_after_failure(
    data: Seq<u8>,
    flags: SerializerFlags,
    manual: bool,
) -> SerializerFlags {
    if manual {
        flags
    } else {
        spec_leading_flags(data, flags)
    }
}

/// Stateful flags override the configured ones: in automatic mode, two
/// engines that both expect embedded flags load a buffer alike, whatever
/// else they were configured with.
pub proof fn lemma_embedded_flags_override(
    data: Seq<u8>,
    flags: SerializerFlags,
    other: SerializerFlags,
)
    requires
        flags.has(SerializerFlags::STATEFUL_FLAGS),
        other.has(SerializerFlags::STATEFUL_FLAGS),
    ensures
        spec_feed(data, flags, false) == spec_feed(data, other, false),
{
}

/// Embedded flags that enable compression send the loading down the
/// compressed branch when the indicator byte is nonzero, even where the
/// configured flags had compression disabled.
pub proof fn lemma_embedded_compression_is_honoured(data: Seq<u8>, flags: SerializerFlags)
    requires
        flags.has(SerializerFlags::STATEFUL_FLAGS),
        data.len() >= 5,
        SerializerFlags::truncated(le_u32(data, 0) as u32).has(SerializerFlags::WITH_COMPRESSION),
        data[4] != 0,
    ensures
        spec_feed(data, flags, false) == match spec_decompress(data.skip(5)) {
            Err(e) => Err(e),
            Ok(plain) => Ok(
                Primed {
                    flags: SerializerFlags::truncated(le_u32(data, 0) as u32),
                    content: plain,
                    start: 0,
                    inflated: true,
                },
            ),
        },
{
    assert(data.skip(4).skip(1) =~= data.skip(5));
}

/// Accepts inflated bytes whose length is the declared one, and places a
/// cursor at their start.
pub fn accept_decompressed<'a>(declared: usize, plain: &'a [u8]) -> (result: Result<
    BitReader<'a>,
    DecodeError,
>)
    ensures
        plain@.len() == declared ==> (result matches Ok(reader) && reader.buffer() == plain@
            && reader.position() == 0),
        plain@.len() != declared ==> (result matches Err(e) && e
            == DecodeError::CompressionSizeMismatch),
{
    if plain.len() != declared {
        Err(DecodeError::CompressionSizeMismatch)
    } else {
        Ok(BitReader::new(plain))
    }
}

/// The stream flags in force after loading `data`, whether or not the
/// loading succeeds.
pub open spec fn spec_flags_after_feed(
    data: Seq<u8>,
    flags: SerializerFlags,
    manual: bool,
) -> SerializerFlags {
    match spec_feed(data, flags, manual) {
        Ok(primed) => primed.flags,
        Err(_) => spec_flags_after_failure(data, flags, manual),
    }
}

} // verus!
