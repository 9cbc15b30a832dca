//! The Blake2 digest of 256 bits.

use crate::oracle::Hasher;
use vstd::prelude::*;

verus! {

/// The Blake2b digest of 256 bits of `data`.
pub uninterp spec fn blake2_256_digest(data: Seq<u8>) -> Seq<u8>;

/// Calls `sp_io::hashing::blake2_256`: the Blake2b digest of 256 bits.
#[verifier::external_body]
fn blake2_256(data: &[u8]) -> (digest: [u8; 32])
    ensures
        digest@ == blake2_256_digest(data@),
{
    sp_io::hashing::blake2_256(data)
}

/// The Blake2 digest of 256 bits as a [`Hasher`].
pub struct Blake2_256;

impl Hasher for Blake2_256 {
    open spec fn digest(message: Seq<u8>) -> Seq<u8> {
        blake2_256_digest(message)
    }

    fn hash(message: &[u8]) -> (hash: crate::keys::Hash) {
        crate::keys::Hash::new(blake2_256(message))
    }
}

} // verus!
