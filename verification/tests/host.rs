use ark_bn254::{Bn254, Fr};
use ark_groth16::Groth16;
use ark_r1cs_std::alloc::AllocVar;
use ark_r1cs_std::eq::EqGadget;
use ark_r1cs_std::fields::fp::FpVar;
use ark_relations::r1cs::{ConstraintSynthesizer, ConstraintSystemRef, SynthesisError};
use ark_serialize::CanonicalSerialize;
use ark_snark::SNARK;
use attendance::blake2_256::Blake2_256;
use attendance::circuit::CompareCircuit;
use attendance::host::SchnorrHost;
use attendance::oracle::Hasher;
use attendance::pallet::{Config, Error, Event, MintLog, Origin, Pallet, Verdict};
use attendance::schnorr::{generate_key_pair, sign, Signature, POINT_BYTES, SCALAR_BYTES, SIGNATURE_BYTES};

const ALICE: u64 = 1;
const BOB: u64 = 2;

type Counter = MintLog<u64>;

struct Synthesizer(CompareCircuit);

impl ConstraintSynthesizer<Fr> for Synthesizer {
    fn generate_constraints(self, cs: ConstraintSystemRef<Fr>) -> Result<(), SynthesisError> {
        let synthesis = self.0.generate_constraints().map_err(|_| SynthesisError::Unsatisfiable)?;
        let mut instance = Vec::new();
        for value in &synthesis.instance {
            instance.push(FpVar::new_input(cs.clone(), || Ok(Fr::from(*value)))?);
        }
        let mut witness = Vec::new();
        for value in &synthesis.witness {
            witness.push(FpVar::new_witness(cs.clone(), || Ok(Fr::from(*value)))?);
        }
        for constraint in &synthesis.constraints {
            witness[constraint.witness].enforce_equal(&instance[constraint.instance])?;
        }
        Ok(())
    }
}

fn keys_and_proof(small: &str, large: &str) -> (Vec<u8>, Vec<u8>) {
    let circuit = CompareCircuit::new_from_str(small, large);
    let rng = &mut rand::thread_rng();
    let (pk, vk) = Groth16::<Bn254>::circuit_specific_setup(Synthesizer(circuit.clone()), rng)
        .expect("setup of a valid instance");
    let proof = Groth16::<Bn254>::prove(&pk, Synthesizer(circuit), rng).expect("a true statement");
    let mut key_bytes = Vec::new();
    vk.serialize_uncompressed(&mut key_bytes).expect("key is written");
    let mut proof_bytes = Vec::new();
    proof.serialize_uncompressed(&mut proof_bytes).expect("proof is written");
    (key_bytes, proof_bytes)
}

#[test]
fn signature_bytes_round_trip() {
    let keypair = generate_key_pair();
    let signature = sign(&keypair, b"bcdefg".to_vec());
    let raw = signature.to_bytes();
    assert_eq!(raw.len(), SIGNATURE_BYTES);
    assert_eq!(&raw[..POINT_BYTES], &signature.r[..]);
    assert_eq!(&raw[POINT_BYTES..], &signature.z[..]);
    assert_eq!(Signature::from_slice(&raw), Some(signature));
    assert_eq!(Signature::from_slice(&raw[..127]), None);
    assert_eq!(Signature::from_slice(&[]), None);
    let mut long = raw.clone();
    long.push(0);
    assert_eq!(Signature::from_slice(&long), None);
    let spelled = Signature::from_slice(&[9u8; 128]).expect("128 bytes");
    assert_eq!(spelled.r, vec![9u8; POINT_BYTES]);
    assert_eq!(spelled.z, vec![9u8; SCALAR_BYTES]);
}

#[test]
fn host_reads_keys_and_signatures_by_length() {
    assert_eq!(SchnorrHost::public_key_from_slice(&[3u8; 96]), Some(vec![3u8; 96]));
    assert_eq!(SchnorrHost::public_key_from_slice(&[3u8; 95]), None);
    assert_eq!(SchnorrHost::public_key_from_slice(&[3u8; 32]), None);
    assert!(SchnorrHost::signature_from_slice(&[3u8; 128]).is_some());
    assert!(SchnorrHost::signature_from_slice(&[3u8; 64]).is_none());
    assert_eq!(SchnorrHost::hash(b"bcd").as_bytes(), Blake2_256::hash(b"bcd").as_bytes());
}

#[test]
fn host_accepts_what_the_oracle_signed() {
    let oracle = generate_key_pair();
    let digest = Blake2_256::hash(b"bcdefg");
    let signature = sign(&oracle, digest.as_bytes().to_vec());
    assert!(SchnorrHost::verify(&signature, &digest, &oracle.public_key));
    assert!(!SchnorrHost::verify(&signature, &Blake2_256::hash(b"bcdefh"), &oracle.public_key));
    let raw = signature.to_bytes();
    assert_eq!(Pallet::judge::<SchnorrHost>(&oracle.public_key, b"bcdefg", &raw), Verdict::Accepted);
    assert_eq!(Pallet::judge::<SchnorrHost>(&oracle.public_key, b"bcdefh", &raw), Verdict::Rejected);
    assert_eq!(Pallet::judge::<SchnorrHost>(&oracle.public_key[..32], b"bcdefg", &raw), Verdict::MalformedKey);
    assert_eq!(Pallet::judge::<SchnorrHost>(&oracle.public_key, b"bcdefg", &raw[..64]), Verdict::MalformedSignature);
}

#[test]
fn signed_location_is_accepted_once() {
    let oracle = generate_key_pair();
    let stranger = generate_key_pair();
    let mut pallet = Pallet::new(12);
    let mut minter = Counter::new();
    assert_eq!(pallet.create_challenge(Origin::Signed(ALICE), b"bcd".to_vec()), Ok(()));
    let digest = Blake2_256::hash(b"bcdefg");
    let signature = sign(&oracle, digest.as_bytes().to_vec()).to_bytes();
    let forged = sign(&stranger, digest.as_bytes().to_vec()).to_bytes();
    let submit = |pallet: &mut Pallet, minter: &mut Counter, who: u64, location: &[u8], signature: &[u8]| {
        pallet.submission_with_signature::<SchnorrHost, Counter>(
            minter,
            Origin::Signed(who),
            b"bcd".to_vec(),
            location.to_vec(),
            signature.to_vec(),
        )
    };
    assert_eq!(submit(&mut pallet, &mut minter, BOB, b"bcdefg", &signature), Err(Error::InvalidPublicKey));
    assert_eq!(pallet.set_oracle_public_key(Origin::Root, oracle.public_key[..48].to_vec()), Ok(()));
    assert_eq!(submit(&mut pallet, &mut minter, BOB, b"bcdefg", &signature), Err(Error::InvalidPublicKey));
    assert_eq!(pallet.set_oracle_public_key(Origin::Root, oracle.public_key.clone()), Ok(()));
    assert_eq!(submit(&mut pallet, &mut minter, BOB, b"bcdefg", &signature[..64]), Err(Error::InvalidSignature));
    assert_eq!(submit(&mut pallet, &mut minter, BOB, b"bcdefg", &forged), Err(Error::InvalidSignature));
    assert_eq!(submit(&mut pallet, &mut minter, BOB, b"bcdefh", &signature), Err(Error::InvalidSignature));
    assert_eq!(submit(&mut pallet, &mut minter, BOB, b"cdefgh", &signature), Err(Error::InvalidGeohash));
    assert!(minter.accounts().is_empty());
    assert_eq!(submit(&mut pallet, &mut minter, BOB, b"bcdefg", &signature), Ok(()));
    assert_eq!(submit(&mut pallet, &mut minter, BOB, b"bcdefg", &signature), Err(Error::AlreadySubmitted));
    assert_eq!(minter.accounts(), &vec![BOB]);
    assert_eq!(
        pallet.events().last(),
        Some(&Event::SubmissionAccepted { who: BOB, challenge: b"bcd".to_vec(), signature })
    );
    // After a rotation of the oracle key the old signature no longer verifies.
    assert_eq!(pallet.set_oracle_public_key(Origin::Root, stranger.public_key.clone()), Ok(()));
    let old = sign(&oracle, digest.as_bytes().to_vec()).to_bytes();
    assert_eq!(submit(&mut pallet, &mut minter, ALICE, b"bcdefg", &old), Err(Error::InvalidSignature));
    assert_eq!(submit(&mut pallet, &mut minter, ALICE, b"bcdefg", &forged), Ok(()));
    assert_eq!(minter.accounts(), &vec![BOB, ALICE]);
}

#[test]
fn proof_is_accepted_under_the_registered_key() {
    let (key, proof) = keys_and_proof("bcd", "bcdefg");
    let mut pallet = Pallet::new(12);
    let mut minter = Counter::new();
    assert_eq!(pallet.create_challenge(Origin::Signed(ALICE), b"bcd".to_vec()), Ok(()));
    assert_eq!(
        pallet.submission_with_proof(&mut minter, Origin::Signed(BOB), b"bcd".to_vec(), proof.clone()),
        Err(Error::InvalidProof)
    );
    assert_eq!(pallet.set_verifying_key(Origin::Signed(BOB), key.clone()), Err(Error::BadOrigin));
    assert_eq!(pallet.set_verifying_key(Origin::Root, key.clone()), Ok(()));
    assert!(pallet.verify_zkp(&proof, b"bcd"));
    assert!(!pallet.verify_zkp(&proof, b"bce"));
    assert!(!pallet.verify_zkp(&proof, b"bc"));
    assert_eq!(
        pallet.submission_with_proof(&mut minter, Origin::Signed(BOB), b"bce".to_vec(), proof.clone()),
        Err(Error::InvalidProof)
    );
    let mut tampered = proof.clone();
    tampered[100] ^= 0x04;
    assert_eq!(
        pallet.submission_with_proof(&mut minter, Origin::Signed(BOB), b"bcd".to_vec(), tampered),
        Err(Error::InvalidProof)
    );
    assert_eq!(
        pallet.submission_with_proof(&mut minter, Origin::Anonymous, b"bcd".to_vec(), proof.clone()),
        Err(Error::BadOrigin)
    );
    assert!(minter.accounts().is_empty());
    assert!(!pallet.has_submitted(b"bcd", BOB));
    assert_eq!(
        pallet.submission_with_proof(&mut minter, Origin::Signed(BOB), b"bcd".to_vec(), proof.clone()),
        Ok(())
    );
    assert!(pallet.has_submitted(b"bcd", BOB));
    assert_eq!(minter.accounts(), &vec![BOB]);
    // The same proof again, or any other, is refused and rewards nobody.
    let recorded = pallet.events().clone();
    assert_eq!(
        pallet.submission_with_proof(&mut minter, Origin::Signed(BOB), b"bcd".to_vec(), proof.clone()),
        Err(Error::AlreadySubmitted)
    );
    assert_eq!(
        pallet.submission_with_proof(&mut minter, Origin::Signed(BOB), b"bcd".to_vec(), vec![]),
        Err(Error::AlreadySubmitted)
    );
    assert_eq!(minter.accounts(), &vec![BOB]);
    assert_eq!(pallet.submission_count(), 1);
    assert_eq!(pallet.events(), &recorded);
    assert_eq!(
        pallet.events().last(),
        Some(&Event::SubmissionAccepted { who: BOB, challenge: b"bcd".to_vec(), signature: proof.clone() })
    );
    // Another participant may still prove the same.
    assert_eq!(
        pallet.submission_with_proof(&mut minter, Origin::Signed(ALICE), b"bcd".to_vec(), proof.clone()),
        Ok(())
    );
    assert_eq!(minter.accounts(), &vec![BOB, ALICE]);
    // A key for another length of challenge does not fit.
    let (other_key, other_proof) = keys_and_proof("bc", "bcdefg");
    assert!(!pallet.verify_zkp(&other_proof, b"bc"));
    assert_eq!(pallet.set_verifying_key(Origin::Root, other_key), Ok(()));
    assert!(pallet.verify_zkp(&other_proof, b"bc"));
    assert!(!pallet.verify_zkp(&other_proof, b"bcd"));
}
