//! The zlib envelope in which objects are kept.

use flate2::read::ZlibDecoder;
use flate2::write::ZlibEncoder;
use flate2::Compression;
use std::io::{Read, Write};
use vstd::prelude::*;

verus! {

/// What the zlib stream at the start of `stored` decompresses to; bytes that
/// follow the end of that stream are not read. `None` where `stored` starts
/// with no complete zlib stream.
pub uninterp spec fn zlib_inflated(stored: Seq<u8>) -> Option<Seq<u8>>;

/// The zlib stream that the compressor makes of `plain` at the default level;
/// `None` where the compressor reports an error.
pub uninterp spec fn zlib_deflated(plain: Seq<u8>) -> Option<Seq<u8>>;

/// Calls `flate2::read::ZlibDecoder` on `stored` and reads it to the end.
///
/// Trusted: the outcome is a function of `stored` alone; the read fails on a
/// corrupt or incomplete stream and otherwise yields the decompressed bytes.
#[verifier::external_body]
pub(crate) fn inflate(stored: &[u8]) -> (r: Option<Vec<u8>>)
    ensures
        match r {
            Some(plain) => zlib_inflated(stored@) == Some(plain@),
            None => zlib_inflated(stored@) is None,
        },
{
    let mut plain = Vec::new();
    match ZlibDecoder::new(stored).read_to_end(&mut plain) {
        Ok(_) => Some(plain),
        Err(_) => None,
    }
}

/// Calls `flate2::write::ZlibEncoder` at the default compression level on
/// `plain` and finishes the stream.
///
/// Trusted: the encoder writes into memory, so its outcome is a function of
/// `plain` alone; and where it reports no error, its output is a zlib stream
/// that decompresses to `plain`. That it reports none is not claimed.
#[verifier::external_body]
pub(crate) fn deflate(plain: &[u8]) -> (r: Option<Vec<u8>>)
    ensures
        match r {
            Some(stored) => zlib_deflated(plain@) == Some(stored@) && zlib_inflated(stored@)
                == Some(plain@),
            None => zlib_deflated(plain@) is None,
        },
{
    let mut encoder = ZlibEncoder::new(Vec::new(), Compression::default());
    match encoder.write_all(plain) {
        Ok(()) => encoder.finish().ok(),
        Err(_) => None,
    }
}

} // verus!
