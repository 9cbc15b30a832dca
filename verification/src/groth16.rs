//! Checking Groth16 proofs of the prefix circuit over BN254.
//!
//! Keys and proofs travel as their uncompressed canonical encodings. The
//! encodings do not describe themselves, so their shape is checked against the
//! length of the public input before any curve arithmetic.

use crate::circuit::{field_elements, field_encoding};
use ark_serialize::CanonicalDeserialize;
use ark_snark::SNARK;
use vstd::prelude::*;
use vstd::string::StringSliceAdditionalSpecFns;

verus! {

/// Bytes of an uncompressed point of the first group.
pub const G1_BYTES: usize = 64;

/// Bytes of an uncompressed point of the second group.
pub const G2_BYTES: usize = 128;

/// Bytes of a verifying key before its list of input points: one point of the
/// first group and three of the second.
pub const KEY_HEADER_BYTES: usize = 448;

/// Bytes of the little-endian count that precedes the list of input points.
pub const COUNT_BYTES: usize = 8;

/// Bytes of a proof: two points of the first group and one of the second.
pub const PROOF_BYTES: usize = 256;

/// The number of input points that a verifying key announces.
pub open spec fn announced_points(key: Seq<u8>) -> nat
    recommends
        key.len() >= KEY_HEADER_BYTES + COUNT_BYTES,
{
    (key[448] as nat) + (key[449] as nat) * 0x100 + (key[450] as nat) * 0x1_0000 + (key[451] as nat)
        * 0x100_0000 + (key[452] as nat) * 0x1_0000_0000 + (key[453] as nat) * 0x100_0000_0000 + (
    key[454] as nat) * 0x1_0000_0000_0000 + (key[455] as nat) * 0x100_0000_0000_0000
}

/// `key` has the length of a verifying key for `inputs` public inputs and
/// announces one point more than that.
pub open spec fn key_shape(key: Seq<u8>, inputs: nat) -> bool {
    &&& key.len() == KEY_HEADER_BYTES + COUNT_BYTES + G1_BYTES * (inputs + 1)
    &&& announced_points(key) == inputs + 1
}

/// `proof` has the length of a proof.
pub open spec fn proof_shape(proof: Seq<u8>) -> bool {
    proof.len() == PROOF_BYTES
}

/// What Groth16 verification over BN254 says of a key, a public input and a
/// proof: `None` where an encoding is rejected or the check cannot be made.
pub uninterp spec fn groth16_verdict(key: Seq<u8>, inputs: Seq<u64>, proof: Seq<u8>) -> Option<bool>;

/// `proof` is accepted under `key` for the public text `text`.
pub open spec fn proof_verifies(key: Seq<u8>, text: Seq<u8>, proof: Seq<u8>) -> bool {
    &&& key_shape(key, text.len())
    &&& proof_shape(proof)
    &&& groth16_verdict(key, field_encoding(text), proof) == Some(true)
}

/// Decodes the key and the proof with `deserialize_uncompressed` and runs
/// `Groth16::<Bn254>::verify` on them, with each input converted by `Fr::from`.
/// The verdict depends on the three arguments alone. The shape demanded of the
/// key keeps the decoder from reserving room for points that are not there.
#[verifier::external_body]
fn groth16_verify(key: &[u8], inputs: &[u64], proof: &[u8]) -> (verdict: Option<bool>)
    requires
        key_shape(key@, inputs@.len()),
        proof_shape(proof@),
    ensures
        verdict == groth16_verdict(key@, inputs@, proof@),
{
    let key = ark_groth16::VerifyingKey::<ark_bn254::Bn254>::deserialize_uncompressed(key).ok()?;
    let proof = ark_groth16::Proof::<ark_bn254::Bn254>::deserialize_uncompressed(proof).ok()?;
    let inputs: Vec<ark_bn254::Fr> = inputs.iter().map(|c| ark_bn254::Fr::from(*c)).collect();
    ark_groth16::Groth16::<ark_bn254::Bn254>::verify(&key, &inputs, &proof).ok()
}

/// Whether `key` has the shape of a verifying key for `inputs` public inputs.
pub fn key_has_shape(key: &[u8], inputs: usize) -> (fits: bool)
    ensures
        fits == key_shape(key@, inputs as nat),
{
    if key.len() < KEY_HEADER_BYTES + COUNT_BYTES {
        return false;
    }
    let body: usize = key.len() - (KEY_HEADER_BYTES + COUNT_BYTES);
    if body % G1_BYTES != 0 {
        return false;
    }
    let points: usize = body / G1_BYTES;
    if points == 0 || points - 1 != inputs {
        return false;
    }
    let announced: u64 = (key[448] as u64) + (key[449] as u64) * 0x100 + (key[450] as u64)
        * 0x1_0000 + (key[451] as u64) * 0x100_0000 + (key[452] as u64) * 0x1_0000_0000 + (
    key[453] as u64) * 0x100_0000_0000 + (key[454] as u64) * 0x1_0000_0000_0000 + (key[455] as u64)
        * 0x100_0000_0000_0000;
    announced == points as u64
}

/// Whether a verdict is an acceptance: only `Some(true)` is.
pub fn accepted(verdict: Option<bool>) -> (yes: bool)
    ensures
        yes == (verdict == Some(true)),
{
    match verdict {
        Some(true) => true,
        _ => false,
    }
}

/// Checks a proof against a verifying key, with the bytes of `challenge` as
/// the public input. A key or proof of the wrong shape is not accepted.
pub fn verify_challenge(key: &[u8], challenge: &[u8], proof: &[u8]) -> (accepted: bool)
    ensures
        accepted == proof_verifies(key@, challenge@, proof@),
{
    if !key_has_shape(key, challenge.len()) || proof.len() != PROOF_BYTES {
        return false;
    }
    let inputs = field_elements(challenge);
    self::accepted(groth16_verify(key, inputs.as_slice(), proof))
}

/// Checks a proof against a verifying key, with the field elements of
/// `public_inputs` as the public input.
pub fn verify_proof(vk: &[u8], public_inputs: &str, proof: &[u8]) -> (accepted: bool)
    ensures
        accepted == proof_verifies(vk@, public_inputs.spec_bytes(), proof@),
{
    verify_challenge(vk, public_inputs.as_bytes(), proof)
}

/// A verifying key fits one length of challenge only: a challenge of another
/// length needs a key from a setup of its own.
pub proof fn lemma_key_fits_one_length(key: Seq<u8>, inputs: nat, other: nat)
    requires
        key_shape(key, inputs),
        key_shape(key, other),
    ensures
        inputs == other,
{
}

} // verus!
