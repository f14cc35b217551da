//! Inflating zlib streams.

use flate2::write::ZlibDecoder;
use std::io::Write;
use vstd::prelude::*;

verus! {

/// `std::io::Error`, the error that the decoder reports. The library
/// carries it through and never looks into it.
#[verifier::external_type_specification]
#[verifier::external_body]
pub struct ExIoError(std::io::Error);

/// What the zlib decoder makes of `data`: the inflated bytes, or nothing
/// where it rejects the stream.
pub uninterp spec fn zlib_inflate(data: Seq<u8>) -> Option<Seq<u8>>;

/// Feeds `data` to a `flate2::write::ZlibDecoder` that writes into `buf`,
/// then finishes the decoder.
///
/// The decoder appends what it inflates to `buf`. The contract gives that
/// output a name, [`zlib_inflate`], and claims only that it depends on
/// `data` alone; after an error nothing is said of `buf`.
#[verifier::external_body]
pub(crate) fn zlib_decompress(data: &[u8], buf: &mut Vec<u8>) -> (result: Result<
    (),
    std::io::Error,
>)
    ensures
        match zlib_inflate(data@) {
            Some(plain) => result is Ok && final(buf)@ == old(buf)@ + plain,
            None => result is Err,
        },
{
    let mut decoder = ZlibDecoder::new(buf);
    decoder.write_all(data)?;
    decoder.finish()?;
    Ok(())
}

} // verus!
