//! Location attestation: an oracle signs a device's geohash, and a prover shows
//! that a private location lies under a public geohash prefix.

pub mod blake2_256;
pub mod bytes;
pub mod circuit;
pub mod coordinates;
pub mod ed25519;
pub mod envkey;
pub mod errors;
pub mod groth16;
pub mod host;
pub mod keys;
pub mod oracle;
pub mod pallet;
pub mod schnorr;
