//! A checked digest over plain bytes.

use vstd::prelude::*;
use sha2::{Digest, Sha256};

verus! {

/// What the SHA-256 digest of a byte sequence is; it depends on the bytes
/// alone.
pub uninterp spec fn sha256_of(data: Seq<u8>) -> Seq<u8>;

/// Relies on `sha2::Sha256` (`update`, then `finalize`): the SHA-256
/// digest of the bytes, always 32 bytes long.
#[verifier::external_body]
fn sha256_digest(data: &Vec<u8>) -> (r: Vec<u8>)
    ensures
        r@ == sha256_of(data@),
        r@.len() == 32,
{
    let mut hasher = Sha256::new();
    hasher.update(data.as_slice());
    hasher.finalize().iter().copied().collect::<Vec<u8>>()
}

/// The SHA-256 digest of the given bytes: 32 bytes, a function of the
/// input alone.
pub fn sha256(data: &Vec<u8>) -> (r: Vec<u8>)
    ensures
        r@ == sha256_of(data@),
        r@.len() == 32,
{
    sha256_digest(data)
}

} // verus!
