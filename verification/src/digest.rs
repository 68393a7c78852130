//! The digest primitive: SHA-512 from the `sha2` crate.
use sha2::Digest;
use sha2::Sha512;
use vstd::prelude::*;

verus! {

/// The SHA-512 digest of `message`. Nothing is proved of it here: its value
/// is whatever `sha2` computes from these bytes.
pub uninterp spec fn sha512(message: Seq<u8>) -> Seq<u8>;

/// Calls `Sha512::digest` of the `sha2` crate on `message`.
///
/// Trusted, not proved: the bytes returned are the digest of exactly the
/// bytes given, and the same bytes always give the same digest.
#[verifier::external_body]
pub(crate) fn sha512_digest(message: &[u8]) -> (digest: Vec<u8>)
    ensures
        digest@ == sha512(message@),
{
    Sha512::digest(message).to_vec()
}

} // verus!
