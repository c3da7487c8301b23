//! Decompression of zlib streams, done by the `flate2` crate.

use vstd::prelude::*;

verus! {

/// What `flate2`'s zlib stream decoder produces when it is read to the end
/// over `data`: the decompressed bytes, or `None` where it reports an error
/// (a corrupt or truncated stream). The decoder looks at nothing but these
/// bytes, so the same input always gives the same answer.
pub uninterp spec fn zlib_inflated(data: Seq<u8>) -> Option<Seq<u8>>;

/// Runs `flate2::read::ZlibDecoder` over `data` and reads it to the end.
/// Nothing is proved about this function: that it returns what
/// [`zlib_inflated`] names is taken on trust, and says no more than that the
/// decoder is a function of its input.
#[verifier::external_body]
pub(crate) fn inflate(data: &[u8]) -> (r: Option<Vec<u8>>)
    ensures
        r is Some <==> zlib_inflated(data@) is Some,
        r matches Some(bytes) ==> zlib_inflated(data@) == Some(bytes@),
{
    let mut decoder = flate2::read::ZlibDecoder::new(data);
    let mut bytes = Vec::new();
    match std::io::Read::read_to_end(&mut decoder, &mut bytes) {
        Ok(_) => Some(bytes),
        Err(_) => None,
    }
}

} // verus!
