use ark_ec::PrimeGroup;
use ark_ff::PrimeField;
use ark_serialize::CanonicalDeserialize;
use ark_test_curves::bls12_381::{Fr, G1Affine, G1Projective};
use attendance::schnorr::{generate_key_pair, hash, sign, verify, Signature, POINT_BYTES, SCALAR_BYTES};
use sha2::{Digest, Sha256};

#[test]
fn g1_works() {
    let message = "hello".as_bytes();
    let keypair = generate_key_pair();
    let signature = sign(&keypair, message.into());

    assert!(verify(&keypair.public_key, &signature, message.into()));
}

#[test]
fn key_pair_has_the_encoded_lengths() {
    let keypair = generate_key_pair();
    assert_eq!(keypair.private_key.len(), SCALAR_BYTES);
    assert_eq!(keypair.public_key.len(), POINT_BYTES);
    let signature = sign(&keypair, vec![]);
    assert_eq!(signature.r.len(), POINT_BYTES);
    assert_eq!(signature.z.len(), SCALAR_BYTES);
    assert!(verify(&keypair.public_key, &signature, vec![]));
}

#[test]
fn hash_is_sha256_of_key_then_message_then_commitment() {
    // SHA-256 of "abc".
    let expected: [u8; 32] = [
        0xba, 0x78, 0x16, 0xbf, 0x8f, 0x01, 0xcf, 0xea, 0x41, 0x41, 0x40, 0xde, 0x5d, 0xae, 0x22,
        0x23, 0xb0, 0x03, 0x61, 0xa3, 0x96, 0x17, 0x7a, 0x9c, 0xb4, 0x10, 0xff, 0x61, 0xf2, 0x00,
        0x15, 0xad,
    ];
    assert_eq!(hash(b"b", b"a", b"c"), expected.to_vec());
    assert_ne!(hash(b"a", b"b", b"c"), hash(b"b", b"a", b"c").to_vec().iter().map(|b| !b).collect::<Vec<u8>>());
    // SHA-256 of the empty string.
    assert_eq!(hash(b"", b"", b"")[..4], [0xe3, 0xb0, 0xc4, 0x42]);
}

#[test]
fn two_signatures_of_one_message_differ_and_both_verify() {
    let keypair = generate_key_pair();
    let first = sign(&keypair, b"bcdefg".to_vec());
    let second = sign(&keypair, b"bcdefg".to_vec());
    assert_ne!(first, second);
    assert!(verify(&keypair.public_key, &first, b"bcdefg".to_vec()));
    assert!(verify(&keypair.public_key, &second, b"bcdefg".to_vec()));
}

#[test]
fn another_message_is_rejected() {
    let keypair = generate_key_pair();
    let signature = sign(&keypair, b"hello".to_vec());
    assert!(!verify(&keypair.public_key, &signature, b"hellp".to_vec()));
    assert!(!verify(&keypair.public_key, &signature, b"hello ".to_vec()));
}

#[test]
fn another_key_is_rejected() {
    let keypair = generate_key_pair();
    let other = generate_key_pair();
    let signature = sign(&keypair, b"hello".to_vec());
    assert!(!verify(&other.public_key, &signature, b"hello".to_vec()));
}

#[test]
fn a_flipped_bit_of_the_response_is_rejected() {
    let keypair = generate_key_pair();
    let signature = sign(&keypair, b"hello".to_vec());
    for byte in 0..SCALAR_BYTES {
        let mut z = signature.z.clone();
        z[byte] ^= 1 << (byte % 8);
        let tampered = Signature { r: signature.r.clone(), z };
        assert!(!verify(&keypair.public_key, &tampered, b"hello".to_vec()));
    }
}

#[test]
fn a_flipped_bit_of_the_commitment_is_rejected() {
    let keypair = generate_key_pair();
    let signature = sign(&keypair, b"hello".to_vec());
    for byte in 0..POINT_BYTES {
        let mut r = signature.r.clone();
        r[byte] ^= 1 << (byte % 8);
        let tampered = Signature { r, z: signature.z.clone() };
        assert!(!verify(&keypair.public_key, &tampered, b"hello".to_vec()));
    }
}

#[test]
fn malformed_lengths_are_rejected() {
    let keypair = generate_key_pair();
    let signature = sign(&keypair, b"hello".to_vec());
    assert!(!verify(&keypair.public_key[..95], &signature, b"hello".to_vec()));
    assert!(!verify(&[], &signature, b"hello".to_vec()));
    let short_r = Signature { r: signature.r[..48].to_vec(), z: signature.z.clone() };
    assert!(!verify(&keypair.public_key, &short_r, b"hello".to_vec()));
    let mut long_z = signature.z.clone();
    long_z.push(0);
    let long = Signature { r: signature.r.clone(), z: long_z };
    assert!(!verify(&keypair.public_key, &long, b"hello".to_vec()));
    let empty = Signature { r: vec![], z: vec![] };
    assert!(!verify(&keypair.public_key, &empty, b"hello".to_vec()));
}

#[test]
fn bytes_that_are_no_point_are_rejected() {
    let keypair = generate_key_pair();
    let signature = sign(&keypair, b"hello".to_vec());
    let garbage = vec![0x11u8; POINT_BYTES];
    assert!(!verify(&garbage, &signature, b"hello".to_vec()));
    let forged = Signature { r: garbage, z: signature.z.clone() };
    assert!(!verify(&keypair.public_key, &forged, b"hello".to_vec()));
}

#[test]
fn scalars_of_any_length_are_reduced() {
    let keypair = generate_key_pair();
    let odd = attendance::schnorr::Keypair { private_key: vec![], public_key: keypair.public_key.clone() };
    let signature = sign(&odd, b"hello".to_vec());
    assert_eq!(signature.z.len(), SCALAR_BYTES);
    assert!(!verify(&keypair.public_key, &signature, b"hello".to_vec()));
    let long = attendance::schnorr::Keypair { private_key: vec![0xff; 80], public_key: vec![1, 2, 3] };
    let signature = sign(&long, b"hello".to_vec());
    assert_eq!(signature.r.len(), POINT_BYTES);
    assert!(!verify(&long.public_key, &signature, b"hello".to_vec()));
}

#[test]
fn signature_satisfies_the_equation_on_the_curve() {
    let keypair = generate_key_pair();
    let message = b"u4pruydqqvj".to_vec();
    let signature = sign(&keypair, message.clone());

    let public_key = G1Affine::deserialize_uncompressed(&keypair.public_key[..]).expect("a point");
    let private_key = Fr::from_le_bytes_mod_order(&keypair.private_key);
    assert_eq!(G1Projective::generator() * private_key, G1Projective::from(public_key));

    let r = G1Affine::deserialize_uncompressed(&signature.r[..]).expect("a point");
    let z = Fr::from_le_bytes_mod_order(&signature.z);
    let mut hasher = Sha256::new();
    hasher.update(&keypair.public_key);
    hasher.update(&message);
    hasher.update(&signature.r);
    let digest = hasher.finalize().to_vec();
    assert_eq!(hash(&message, &keypair.public_key, &signature.r), digest);
    let c = Fr::from_be_bytes_mod_order(&digest);
    assert_eq!(r + public_key * c, G1Projective::generator() * z);
}

#[test]
fn a_response_beyond_the_order_is_rejected() {
    // The order of the group, least significant byte first.
    let order: [u8; 32] = [
        0x01, 0x00, 0x00, 0x00, 0xff, 0xff, 0xff, 0xff, 0xfe, 0x5b, 0xfe, 0xff, 0x02, 0xa4, 0xbd,
        0x53, 0x05, 0xd8, 0xa1, 0x09, 0x08, 0xd8, 0x39, 0x33, 0x48, 0x7d, 0x9d, 0x29, 0x53, 0xa7,
        0xed, 0x73,
    ];
    let keypair = generate_key_pair();
    let signature = sign(&keypair, b"hello".to_vec());
    assert!(verify(&keypair.public_key, &signature, b"hello".to_vec()));
    // The same scalar, written as the response plus the order.
    let mut shifted = vec![0u8; SCALAR_BYTES];
    let mut carry = 0u16;
    for i in 0..SCALAR_BYTES {
        let sum = signature.z[i] as u16 + order[i] as u16 + carry;
        shifted[i] = (sum & 0xff) as u8;
        carry = sum >> 8;
    }
    assert_eq!(carry, 0);
    assert_eq!(Fr::from_le_bytes_mod_order(&shifted), Fr::from_le_bytes_mod_order(&signature.z));
    let malleated = Signature { r: signature.r.clone(), z: shifted };
    assert!(!verify(&keypair.public_key, &malleated, b"hello".to_vec()));
    // The order itself and the largest 32 bytes are no scalars either.
    let zero_in_disguise = Signature { r: signature.r.clone(), z: order.to_vec() };
    assert!(!verify(&keypair.public_key, &zero_in_disguise, b"hello".to_vec()));
    let largest = Signature { r: signature.r.clone(), z: vec![0xff; SCALAR_BYTES] };
    assert!(!verify(&keypair.public_key, &largest, b"hello".to_vec()));
}
