//! The SHA-1 hash that identifies an object.

use sha1::{Digest, Sha1};
use vstd::prelude::*;

verus! {

/// The SHA-1 hash of `data`.
pub uninterp spec fn sha1_hash(data: Seq<u8>) -> Seq<u8>;

/// The number of bytes of a SHA-1 hash.
pub const SHA1_LEN: usize = 20;

/// Calls `sha1::Sha1::digest`, the one-shot form of the `Digest` trait.
///
/// Trusted: the result is the SHA-1 hash of `data`, which is a function of
/// `data` alone and 20 bytes long.
#[verifier::external_body]
pub(crate) fn sha1(data: &[u8]) -> (out: Vec<u8>)
    ensures
        out@ == sha1_hash(data@),
        out@.len() == SHA1_LEN,
{
    Sha1::digest(data).to_vec()
}

} // verus!
