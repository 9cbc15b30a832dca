//! Ed25519 signatures.

use crate::errors::SignerError;
use crate::keys::Key;
use crate::oracle::Signer;
use vstd::prelude::*;

verus! {

/// Bytes of an Ed25519 signature.
pub const SIGNATURE_BYTES: usize = 64;

#[verifier::external_type_specification]
#[verifier::external_body]
pub struct ExSignatureError(ed25519_dalek::SignatureError);

/// The Ed25519 signature of `message` under the private key `key`.
pub uninterp spec fn ed25519_signature(key: Seq<u8>, message: Seq<u8>) -> Seq<u8>;

/// The Ed25519 public key that belongs to the private key `key`.
pub uninterp spec fn ed25519_public_key(key: Seq<u8>) -> Seq<u8>;

/// Builds a `SigningKey` with `from_bytes` and signs with `try_sign`. Ed25519
/// signatures are deterministic and 64 bytes long, and this implementation
/// of `try_sign` returns `Ok` on every path.
#[verifier::external_body]
fn try_sign(key: &[u8; 32], message: &[u8; 32]) -> (signed: Result<
    Vec<u8>,
    ed25519_dalek::SignatureError,
>)
    ensures
        signed is Ok,
        signed->Ok_0@ == ed25519_signature(key@, message@),
        signed->Ok_0@.len() == SIGNATURE_BYTES,
{
    let signature = ed25519_dalek::Signer::try_sign(
        &ed25519_dalek::SigningKey::from_bytes(key),
        message,
    )?;
    Ok(signature.to_vec())
}

/// The text that a `SignatureError` displays as.
#[verifier::external_body]
fn error_text(error: &ed25519_dalek::SignatureError) -> (text: String) {
    error.to_string()
}

/// Draws a private key with `SigningKey::generate` from the operating
/// system's random source. Nothing is stated of the outcome.
#[verifier::external_body]
fn random_private_key() -> (key: [u8; 32]) {
    ed25519_dalek::SigningKey::generate(&mut rand::rngs::OsRng).to_bytes()
}

/// The public key of `SigningKey::from_bytes(key)`, as `verifying_key`
/// returns it.
#[verifier::external_body]
fn public_key(key: &[u8; 32]) -> (public: [u8; 32])
    ensures
        public@ == ed25519_public_key(key@),
{
    ed25519_dalek::SigningKey::from_bytes(key).verifying_key().to_bytes()
}

/// Ed25519 as a [`Signer`], with signatures as vectors of 64 bytes.
pub struct Ed25519;

impl Signer for Ed25519 {
    type Signature = Vec<u8>;

    open spec fn signs(message: Seq<u8>, key: Seq<u8>, outcome: Result<Vec<u8>, SignerError>)
        -> bool {
        outcome matches Ok(signature) && signature@ == ed25519_signature(key, message)
            && signature@.len() == SIGNATURE_BYTES
    }

    open spec fn key_pair(private: Seq<u8>, public: Seq<u8>) -> bool {
        public == ed25519_public_key(private)
    }

    fn sign(message: crate::keys::Hash, key: Key) -> (outcome: Result<Vec<u8>, SignerError>) {
        match try_sign(key.as_bytes(), message.as_bytes()) {
            Ok(signature) => Ok(signature),
            Err(error) => Err(SignerError::SignatureFailed(error_text(&error))),
        }
    }

    fn generate_key() -> (keys: (Key, Key)) {
        let private = random_private_key();
        let public = public_key(&private);
        (Key::new(private), Key::new(public))
    }
}

} // verus!
