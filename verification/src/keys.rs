//! Fixed-size byte values: keys and digests.

use vstd::prelude::*;

verus! {

/// A 32-byte key, public or private depending on where it is used.
#[derive(Clone, Copy)]
pub struct Key([u8; 32]);

/// A 32-byte digest.
#[derive(Clone, Copy)]
pub struct Hash([u8; 32]);

impl View for Key {
    type V = Seq<u8>;

    closed spec fn view(&self) -> Seq<u8> {
        self.0@
    }
}

impl View for Hash {
    type V = Seq<u8>;

    closed spec fn view(&self) -> Seq<u8> {
        self.0@
    }
}

impl Key {
    /// Wraps 32 bytes as a key.
    pub fn new(bytes: [u8; 32]) -> (key: Self)
        ensures
            key@ == bytes@,
    {
        Self(bytes)
    }

    /// The 32 bytes of the key.
    pub fn as_bytes(&self) -> (bytes: &[u8; 32])
        ensures
            bytes@ == self@,
    {
        &self.0
    }
}

impl Hash {
    /// Wraps 32 bytes as a digest.
    pub fn new(bytes: [u8; 32]) -> (hash: Self)
        ensures
            hash@ == bytes@,
    {
        Self(bytes)
    }

    /// The 32 bytes of the digest.
    pub fn as_bytes(&self) -> (bytes: &[u8; 32])
        ensures
            bytes@ == self@,
    {
        &self.0
    }
}

} // verus!
