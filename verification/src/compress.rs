//! Transparent zlib compression for frame bodies, behind trusted wrappers
//! around flate2.

use vstd::prelude::*;

verus! {

/// What flate2's zlib encoder produces for the given bytes at this crate's
/// fixed compression level: a function of the input alone.
pub uninterp spec fn zlib_deflate_of(data: Seq<u8>) -> Seq<u8>;

/// What flate2's zlib decoder yields for the given bytes: the decompressed
/// stream, or nothing where the bytes are not a complete zlib stream.
pub uninterp spec fn zlib_inflate_of(data: Seq<u8>) -> Option<Seq<u8>>;

/// Relies on flate2's ZlibEncoder at a fixed level: the output is a
/// function of the input bytes alone, and the matching decoder inverts it
/// (the documented zlib round trip).
#[verifier::external_body]
pub(crate) fn deflate(data: &Vec<u8>) -> (r: Vec<u8>)
    ensures
        r@ == zlib_deflate_of(data@),
        zlib_inflate_of(r@) == Some(data@),
{
    let mut out = Vec::new();
    let mut enc = flate2::read::ZlibEncoder::new(data.as_slice(), flate2::Compression::new(6));
    std::io::Read::read_to_end(&mut enc, &mut out).expect("reading from a slice cannot fail");
    out
}

/// Relies on flate2's ZlibDecoder: it fails exactly on bytes that do not
/// begin with a complete zlib stream. Reading stops after `cap` bytes, so
/// an output at the cap may be a truncation of a longer stream; an output
/// below the cap is the whole stream.
#[verifier::external_body]
pub(crate) fn inflate(data: &Vec<u8>, cap: usize) -> (r: Result<Vec<u8>, ()>)
    ensures
        match r {
            Ok(v) => {
                &&& v@.len() <= cap
                &&& v@.len() < cap ==> zlib_inflate_of(data@) == Some(v@)
                &&& v@.len() == cap ==> (match zlib_inflate_of(data@) {
                    Some(full) => full.len() >= cap,
                    None => true,
                })
            },
            Err(_) => zlib_inflate_of(data@) is None,
        },
{
    let mut out = Vec::new();
    let dec = flate2::read::ZlibDecoder::new(data.as_slice());
    match std::io::Read::read_to_end(&mut std::io::Read::take(dec, cap as u64), &mut out) {
        Ok(_) => Ok(out),
        Err(_) => Err(()),
    }
}

} // verus!
