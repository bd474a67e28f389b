//! The BLAKE2b digest a sealed file is validated against.

use vstd::prelude::*;

verus! {

/// The 32-byte BLAKE2b digest of a byte string. The digest itself is left
/// unstated: it depends on the input bytes alone, and the health check only
/// compares digests.
pub uninterp spec fn spec_blake2b(b: Seq<u8>) -> Seq<u8>;

/// Relies on blake2b_simd::Params::hash with a 32-byte hash length: the
/// digest is a function of the input bytes alone, and Hash::as_bytes returns
/// exactly the configured 32 bytes.
#[verifier::external_body]
pub fn calculate_checksum(bytes: &Vec<u8>) -> (r: Vec<u8>)
    ensures
        r@ == spec_blake2b(bytes@),
        r@.len() == 32,
{
    let hash = blake2b_simd::Params::new().hash_length(32).hash(bytes.as_slice());
    hash.as_bytes().to_vec()
}

} // verus!
