use attendance::blake2_256::Blake2_256;
use attendance::ed25519::{Ed25519, SIGNATURE_BYTES};
use attendance::errors::{LocationError, SignerError};
use attendance::keys::Key;
use attendance::oracle::{attest, attest_located, location, sign_location, AsBytes, AttestError, Hasher, Location, Signer};
use ed25519_dalek::Verifier;

struct Fixed;

impl Location for Fixed {
    type Output = String;

    fn current_location(accuracy: u8) -> Result<String, LocationError> {
        if accuracy == 0 || accuracy > 12 {
            return Err(LocationError::Output(format!("accuracy {} is out of range", accuracy)));
        }
        Ok("u4pruydqqvj8"[..accuracy as usize].to_string())
    }
}

struct Lost;

impl Location for Lost {
    type Output = Vec<u8>;

    fn current_location(_accuracy: u8) -> Result<Vec<u8>, LocationError> {
        Err(LocationError::Location)
    }
}

fn test_key() -> Key {
    let mut bytes = [0u8; 32];
    bytes[31] = 0x2a;
    Key::new(bytes)
}

#[test]
fn blake2_256_of_known_inputs() {
    let empty = Blake2_256::hash(b"");
    assert_eq!(
        empty.as_bytes().to_vec(),
        vec![
            0x0e, 0x57, 0x51, 0xc0, 0x26, 0xe5, 0x43, 0xb2, 0xe8, 0xab, 0x2e, 0xb0, 0x60, 0x99,
            0xda, 0xa1, 0xd1, 0xe5, 0xdf, 0x47, 0x77, 0x8f, 0x77, 0x87, 0xfa, 0xab, 0x45, 0xcd,
            0xf1, 0x2f, 0xe3, 0xa8,
        ]
    );
    let text = Blake2_256::hash(b"Hello, world!");
    assert_ne!(text.as_bytes(), empty.as_bytes());
    assert_eq!(text.as_bytes(), Blake2_256::hash("Hello, world!".as_bytes()).as_bytes());
    // The digest is not its input handed back.
    let block = [7u8; 32];
    assert_ne!(Blake2_256::hash(&block).as_bytes(), &block);
}

#[test]
fn bytes_of_strings_and_vectors() {
    assert_eq!("bcd".to_string().as_bytes(), b"bcd");
    assert_eq!(AsBytes::as_bytes(&vec![1u8, 2, 3]), &[1, 2, 3]);
    assert_eq!(AsBytes::as_bytes(&"\u{e9}".to_string()), &[0xc3, 0xa9]);
}

#[test]
fn ed25519_key_pair_belongs_together() {
    let (private, public) = Ed25519::generate_key();
    let signing = ed25519_dalek::SigningKey::from_bytes(private.as_bytes());
    assert_eq!(&signing.verifying_key().to_bytes(), public.as_bytes());
    let (other, _) = Ed25519::generate_key();
    assert_ne!(other.as_bytes(), private.as_bytes());
}

#[test]
fn ed25519_signature_verifies_under_the_public_key() {
    let (private, public) = Ed25519::generate_key();
    let digest = Blake2_256::hash(b"u4pruyd");
    let signature = Ed25519::sign(digest, private).expect("signing succeeds");
    assert_eq!(signature.len(), SIGNATURE_BYTES);
    let verifying = ed25519_dalek::VerifyingKey::from_bytes(public.as_bytes()).expect("a public key");
    let parsed = ed25519_dalek::Signature::from_slice(&signature).expect("a signature");
    assert!(verifying.verify(digest.as_bytes(), &parsed).is_ok());
    let other = Blake2_256::hash(b"u4pruye");
    assert!(verifying.verify(other.as_bytes(), &parsed).is_err());
}

#[test]
fn ed25519_signature_is_determined_by_key_and_message() {
    let key = test_key();
    let digest = Blake2_256::hash(b"ezs42");
    let first = Ed25519::sign(digest, key).expect("signing succeeds");
    let second = Ed25519::sign(digest, key).expect("signing succeeds");
    assert_eq!(first, second);
    let other = Ed25519::sign(Blake2_256::hash(b"ezs43"), key).expect("signing succeeds");
    assert_ne!(first, other);
}

#[test]
fn sign_location_signs_the_digest_of_the_location() {
    let key = test_key();
    let signature = sign_location::<Fixed, Ed25519, Blake2_256>(key, "u4pruy".to_string())
        .expect("signing succeeds");
    let expected = Ed25519::sign(Blake2_256::hash(b"u4pruy"), key).expect("signing succeeds");
    assert_eq!(signature, expected);
}

#[test]
fn location_comes_from_the_source() {
    assert_eq!(location::<Fixed>(6).expect("a location"), "u4pruy");
    assert_eq!(location::<Fixed>(1).expect("a location"), "u");
    assert_eq!(location::<Fixed>(12).expect("a location"), "u4pruydqqvj8");
    assert!(matches!(location::<Fixed>(13), Err(LocationError::Output(_))));
    assert!(matches!(location::<Lost>(6), Err(LocationError::Location)));
}

#[test]
fn attestation_returns_location_and_signature_together() {
    let key = test_key();
    let (place, signature) = attest::<Fixed, Ed25519, Blake2_256>(6, key).expect("an attestation");
    assert_eq!(place, "u4pruy");
    let expected = Ed25519::sign(Blake2_256::hash(b"u4pruy"), key).expect("signing succeeds");
    assert_eq!(signature, expected);
}

#[test]
fn attestation_stops_at_a_failed_lookup() {
    let key = test_key();
    assert!(matches!(
        attest::<Lost, Ed25519, Blake2_256>(6, key),
        Err(AttestError::Location(LocationError::Location))
    ));
    match attest::<Fixed, Ed25519, Blake2_256>(0, key) {
        Err(AttestError::Location(LocationError::Output(message))) => {
            assert_eq!(message, "accuracy 0 is out of range")
        }
        _ => panic!("the error of the source is handed on"),
    }
    let located: Result<String, LocationError> = Err(LocationError::Output("no fix".to_string()));
    match attest_located::<Fixed, Ed25519, Blake2_256>(located, key) {
        Err(AttestError::Location(LocationError::Output(message))) => assert_eq!(message, "no fix"),
        _ => panic!("the error of the source is handed on"),
    }
}

#[test]
fn attestation_of_a_given_location() {
    let key = test_key();
    let (place, signature) =
        attest_located::<Fixed, Ed25519, Blake2_256>(Ok("bcdefg".to_string()), key)
            .expect("an attestation");
    assert_eq!(place, "bcdefg");
    assert_eq!(
        Ok::<Vec<u8>, String>(signature),
        Ed25519::sign(Blake2_256::hash(b"bcdefg"), key).map_err(|error| match error {
            SignerError::SignatureFailed(message) => message,
        })
    );
}
