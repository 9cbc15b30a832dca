//! Error kinds of the attestation pipeline.

use vstd::prelude::*;

verus! {

/// Why a hex-encoded key could not be read.
#[derive(Debug, PartialEq)]
pub enum EnvError {
    /// The text does not have two digits for each byte of the target.
    InvalidHexLength,
    /// No key was supplied by the environment.
    VarNotFound,
    /// The text holds something that is not a hex digit; the message says what and where.
    HexParseError(String),
}

/// Why a location could not be obtained.
#[derive(Debug)]
pub enum LocationError {
    /// The position of the device could not be determined.
    Location,
    /// The position was found but could not be written in the output format.
    Output(String),
}

/// Why a signature could not be produced.
#[derive(Debug)]
pub enum SignerError {
    /// Signing failed; the message says why.
    SignatureFailed(String),
}

} // verus!
