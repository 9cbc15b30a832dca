//! The cryptography of a ledger whose oracle signs with Schnorr signatures
//! over digests of 256 bits.

use crate::blake2_256::Blake2_256;
use crate::bytes::copy_bytes;
use crate::oracle::Hasher;
use crate::pallet::Config;
use crate::blake2_256::blake2_256_digest;
use crate::schnorr::{verifies, verify, Signature, POINT_BYTES, SIGNATURE_BYTES};
use vstd::prelude::*;

verus! {

/// A host that hashes payloads with Blake2, reads a public key from the 96
/// bytes of a point and a signature from the 128 bytes of a point and a
/// scalar, and accepts what [`verify`] accepts over the digest.
pub struct SchnorrHost;

impl Config for SchnorrHost {
    type PublicKey = Vec<u8>;

    type Signature = Signature;

    open spec fn digests(payload: Seq<u8>, digest: Seq<u8>) -> bool {
        digest == blake2_256_digest(payload)
    }

    open spec fn reads_public_key(raw: Seq<u8>, key: Option<Vec<u8>>) -> bool {
        match key {
            Some(key) => raw.len() == POINT_BYTES && key@ == raw,
            None => raw.len() != POINT_BYTES,
        }
    }

    open spec fn reads_signature(raw: Seq<u8>, signature: Option<Signature>) -> bool {
        match signature {
            Some(signature) => raw.len() == SIGNATURE_BYTES && signature@ == Signature::decoding(
                raw,
            ),
            None => raw.len() != SIGNATURE_BYTES,
        }
    }

    open spec fn accepts(
        signature: Signature,
        message: Seq<u8>,
        public_key: Vec<u8>,
        accepted: bool,
    ) -> bool {
        accepted == verifies(public_key@, signature@, message)
    }

    fn hash(payload: &[u8]) -> (digest: crate::keys::Hash) {
        Blake2_256::hash(payload)
    }

    fn public_key_from_slice(raw: &[u8]) -> (key: Option<Vec<u8>>) {
        if raw.len() == POINT_BYTES {
            Some(copy_bytes(raw))
        } else {
            None
        }
    }

    fn signature_from_slice(raw: &[u8]) -> (signature: Option<Signature>) {
        Signature::from_slice(raw)
    }

    fn verify(signature: &Signature, message: &crate::keys::Hash, public_key: &Vec<u8>) -> (accepted:
        bool) {
        verify(public_key.as_slice(), signature, copy_bytes(message.as_bytes().as_slice()))
    }
}

} // verus!
