//! The attestation pipeline: locate, hash, sign.
//!
//! Three capabilities are composed: a source of locations, a digest function
//! and a signing scheme. The pipeline stops at the first stage that fails and
//! hands its error on unchanged; a signature never comes without the location
//! it was made over.

use crate::errors::{LocationError, SignerError};
use crate::keys::Key;
use vstd::prelude::*;
use vstd::utf8::encode_utf8;

verus! {

/// A value that is signed as a string of bytes.
pub trait AsBytes {
    /// The bytes of the value.
    spec fn bytes(&self) -> Seq<u8>;

    /// The bytes of the value.
    fn as_bytes(&self) -> (bytes: &[u8])
        ensures
            bytes@ == self.bytes(),
    ;
}

impl AsBytes for String {
    open spec fn bytes(&self) -> Seq<u8> {
        encode_utf8(self@)
    }

    fn as_bytes(&self) -> (bytes: &[u8]) {
        self.as_str().as_bytes()
    }
}

impl AsBytes for Vec<u8> {
    open spec fn bytes(&self) -> Seq<u8> {
        self@
    }

    fn as_bytes(&self) -> (bytes: &[u8]) {
        self.as_slice()
    }
}

/// A source of locations.
pub trait Location {
    /// The location as it is handed on and signed.
    type Output: AsBytes;

    /// `located` is a result that a lookup at `accuracy` may have. A source
    /// that states nothing of its lookups admits every result.
    open spec fn locates(accuracy: u8, located: Result<Self::Output, LocationError>) -> bool {
        true
    }

    /// The current location at the given accuracy, from 1 to 12: for a
    /// geohash, the number of its characters.
    fn current_location(accuracy: u8) -> (located: Result<Self::Output, LocationError>)
        ensures
            Self::locates(accuracy, located),
    ;
}

/// A digest function with digests of 32 bytes.
pub trait Hasher {
    /// The digest of `message`.
    spec fn digest(message: Seq<u8>) -> Seq<u8>;

    /// The digest of `message`.
    fn hash(message: &[u8]) -> (hash: crate::keys::Hash)
        ensures
            hash@ == Self::digest(message@),
    ;
}

/// A signing scheme with keys of 32 bytes.
pub trait Signer {
    /// A signature of the scheme.
    type Signature;

    /// `outcome` is a result that signing `message` with `key` may have.
    spec fn signs(message: Seq<u8>, key: Seq<u8>, outcome: Result<
        Self::Signature,
        SignerError,
    >) -> bool;

    /// `public` is the public key that belongs to the private key `private`.
    spec fn key_pair(private: Seq<u8>, public: Seq<u8>) -> bool;

    /// Signs the digest `message` with the private key `key`.
    fn sign(message: crate::keys::Hash, key: Key) -> (outcome: Result<Self::Signature, SignerError>)
        ensures
            Self::signs(message@, key@, outcome),
    ;

    /// A fresh pair of a private and the public key that belongs to it.
    fn generate_key() -> (keys: (Key, Key))
        ensures
            Self::key_pair(keys.0@, keys.1@),
    ;
}

/// Why an attestation could not be made.
#[derive(Debug)]
pub enum AttestError {
    /// No location was obtained.
    Location(LocationError),
    /// The location was obtained but could not be signed.
    Signer(SignerError),
}

/// The current location from the source `L`.
pub fn location<L: Location>(accuracy: u8) -> (located: Result<L::Output, LocationError>)
    ensures
        L::locates(accuracy, located),
{
    L::current_location(accuracy)
}

/// Signs a location: the bytes of `location` are hashed with `H`, and the
/// digest is signed with `S` under `key`.
pub fn sign_location<L: Location, S: Signer, H: Hasher>(key: Key, location: L::Output) -> (outcome:
    Result<S::Signature, SignerError>)
    ensures
        S::signs(H::digest(location.bytes()), key@, outcome),
{
    S::sign(H::hash(location.as_bytes()), key)
}

/// Completes an attestation from what the location source returned: its
/// error is handed on unchanged, and a location is signed as
/// [`sign_location`] signs it and returned together with the signature.
pub fn attest_located<L: Location, S: Signer, H: Hasher>(
    located: Result<L::Output, LocationError>,
    key: Key,
) -> (attested: Result<(L::Output, S::Signature), AttestError>)
    ensures
        match (located, attested) {
            (Err(error), Err(AttestError::Location(cause))) => cause == error,
            (Ok(location), Ok((signed, signature))) => {
                &&& signed == location
                &&& S::signs(H::digest(location.bytes()), key@, Ok(signature))
            },
            (Ok(location), Err(AttestError::Signer(cause))) => S::signs(
                H::digest(location.bytes()),
                key@,
                Err(cause),
            ),
            _ => false,
        },
{
    let location = match located {
        Ok(location) => location,
        Err(error) => { return Err(AttestError::Location(error)); },
    };
    match S::sign(H::hash(location.as_bytes()), key) {
        Ok(signature) => Ok((location, signature)),
        Err(error) => Err(AttestError::Signer(error)),
    }
}

/// Attests the current location: obtains it from `L` at the given accuracy,
/// hashes it with `H` and signs the digest with `S` under `key`. The first
/// stage that fails ends the attestation with its error.
pub fn attest<L: Location, S: Signer, H: Hasher>(accuracy: u8, key: Key) -> (attested: Result<
    (L::Output, S::Signature),
    AttestError,
>)
    ensures
        match attested {
            Ok((location, signature)) => {
                &&& L::locates(accuracy, Ok(location))
                &&& S::signs(H::digest(location.bytes()), key@, Ok(signature))
            },
            Err(AttestError::Signer(cause)) => exists|location: L::Output|
                {
                    &&& L::locates(accuracy, Ok(location))
                    &&& #[trigger] S::signs(H::digest(location.bytes()), key@, Err(cause))
                },
            Err(AttestError::Location(cause)) => L::locates(accuracy, Err(cause)),
        },
{
    attest_located::<L, S, H>(location::<L>(accuracy), key)
}

} // verus!
