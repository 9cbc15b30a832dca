//! Schnorr signatures over the prime-order group of the curve BLS12-381.
//!
//! Scalars and points travel as bytes: a scalar as 32 little-endian bytes, a
//! point as its 96-byte uncompressed encoding. The arithmetic of the group is
//! done by the curve library; what this module decides is which values are
//! hashed, combined and compared.

use crate::bytes::{bytes_eq, copy_bytes};
use ark_ec::{CurveGroup, PrimeGroup};
use ark_ff::{BigInteger, PrimeField, UniformRand};
use ark_serialize::{CanonicalDeserialize, CanonicalSerialize};
use ark_test_curves::bls12_381::{Fr, G1Affine, G1Projective};
use sha2::Digest;
use vstd::arithmetic::div_mod::{lemma_mod_bound, lemma_small_mod};
use vstd::prelude::*;
use vstd::slice::slice_subrange;

verus! {

/// Bytes of a scalar.
pub const SCALAR_BYTES: usize = 32;

/// Bytes of a point.
pub const POINT_BYTES: usize = 96;

/// Bytes of a signature: a point, then a scalar.
pub const SIGNATURE_BYTES: usize = 128;

/// Two to the power of 64.
pub open spec fn limb() -> nat {
    0x1_0000_0000_0000_0000
}

/// The order of the group, a prime of 255 bits, written in four parts of 64
/// bits, the most significant first.
pub open spec fn group_order() -> nat {
    ((0x73ed_a753_299d_7d48 * limb() + 0x3339_d808_09a1_d805) * limb() + 0x53bd_a402_fffe_5bfe)
        * limb() + 0xffff_ffff_0000_0001
}

/// The number that `bytes` spell, least significant byte first.
pub open spec fn le_value(bytes: Seq<u8>) -> nat
    decreases bytes.len(),
{
    if bytes.len() == 0 {
        0
    } else {
        bytes[0] as nat + 256 * le_value(bytes.drop_first())
    }
}

/// The number that `bytes` spell, most significant byte first.
pub open spec fn be_value(bytes: Seq<u8>) -> nat
    decreases bytes.len(),
{
    if bytes.len() == 0 {
        0
    } else {
        256 * be_value(bytes.drop_last()) + bytes.last() as nat
    }
}

/// `bytes` is the encoding of a scalar: 32 bytes that spell a number below
/// the order of the group.
pub open spec fn is_scalar(bytes: Seq<u8>) -> bool {
    bytes.len() == SCALAR_BYTES && le_value(bytes) < group_order()
}

/// The SHA-256 digest of `data`.
pub uninterp spec fn sha256_digest(data: Seq<u8>) -> Seq<u8>;

/// The `len` lowest bytes of `n`, least significant byte first.
pub open spec fn le_bytes(n: nat, len: nat) -> Seq<u8>
    decreases len,
{
    if len == 0 {
        Seq::empty()
    } else {
        seq![(n % 256) as u8] + le_bytes(n / 256, (len - 1) as nat)
    }
}

/// What is left of `n` above its `len` lowest bytes.
pub open spec fn high_part(n: nat, len: nat) -> nat
    decreases len,
{
    if len == 0 {
        n
    } else {
        high_part(n / 256, (len - 1) as nat)
    }
}

/// The encoding of the scalar `n`: its 32 bytes, least significant first.
pub open spec fn scalar_encoding(n: nat) -> Seq<u8> {
    le_bytes(n, SCALAR_BYTES as nat)
}

/// The scalar that a digest stands for: the number that the digest spells,
/// most significant byte first, reduced by the order of the group.
pub open spec fn digest_scalar(digest: Seq<u8>) -> Seq<u8> {
    scalar_encoding(be_value(digest) % group_order())
}

/// The sum of two scalars, reduced by the order of the group.
pub open spec fn scalar_sum(a: Seq<u8>, b: Seq<u8>) -> Seq<u8> {
    scalar_encoding((le_value(a) + le_value(b)) % group_order())
}

/// The product of two scalars, reduced by the order of the group.
pub open spec fn scalar_product(a: Seq<u8>, b: Seq<u8>) -> Seq<u8> {
    scalar_encoding((le_value(a) * le_value(b)) % group_order())
}

/// The generator of the group taken `scalar` times.
pub uninterp spec fn generator_multiple(scalar: Seq<u8>) -> Seq<u8>;

/// `point` taken `scalar` times; `None` where `point` is not the encoding of
/// a point of the group.
pub uninterp spec fn point_multiple(point: Seq<u8>, scalar: Seq<u8>) -> Option<Seq<u8>>;

/// The sum of two points; `None` where one of them is not the encoding of a
/// point of the group.
pub uninterp spec fn point_sum(a: Seq<u8>, b: Seq<u8>) -> Option<Seq<u8>>;

/// The view of an optional byte string.
pub open spec fn optional_bytes(bytes: Option<Vec<u8>>) -> Option<Seq<u8>> {
    match bytes {
        Some(b) => Some(b@),
        None => None,
    }
}

/// A private scalar and the public point that belongs to it.
#[derive(Debug, Clone)]
pub struct Keypair {
    pub private_key: Vec<u8>,
    pub public_key: Vec<u8>,
}

/// A signature: the commitment point `r` and the response scalar `z`.
#[derive(Debug, Clone, PartialEq, Eq)]
pub struct Signature {
    pub r: Vec<u8>,
    pub z: Vec<u8>,
}

/// The mathematical content of a [`Signature`].
pub struct SignatureView {
    pub r: Seq<u8>,
    pub z: Seq<u8>,
}

impl View for Signature {
    type V = SignatureView;

    open spec fn view(&self) -> SignatureView {
        SignatureView { r: self.r@, z: self.z@ }
    }
}

impl Signature {
    /// The signature as 128 bytes: the commitment, then the response.
    pub open spec fn encoding(signature: SignatureView) -> Seq<u8> {
        signature.r + signature.z
    }

    /// The signature that 128 bytes spell: the first 96 are the commitment,
    /// the last 32 the response.
    pub open spec fn decoding(raw: Seq<u8>) -> SignatureView {
        SignatureView {
            r: raw.subrange(0, POINT_BYTES as int),
            z: raw.subrange(POINT_BYTES as int, SIGNATURE_BYTES as int),
        }
    }

    /// The commitment followed by the response.
    pub fn to_bytes(&self) -> (raw: Vec<u8>)
        ensures
            raw@ == Self::encoding(self@),
    {
        let mut raw = copy_bytes(self.r.as_slice());
        let mut i: usize = 0;
        while i < self.z.len()
            invariant
                i <= self.z@.len(),
                raw@ == self.r@ + self.z@.subrange(0, i as int),
            decreases self.z@.len() - i,
        {
            raw.push(self.z[i]);
            assert(raw@ =~= self.r@ + self.z@.subrange(0, i + 1));
            i += 1;
        }
        assert(self.z@.subrange(0, self.z@.len() as int) =~= self.z@);
        raw
    }

    /// Reads a signature from exactly 128 bytes; any other length is refused.
    pub fn from_slice(raw: &[u8]) -> (signature: Option<Signature>)
        ensures
            signature is Some <==> raw@.len() == SIGNATURE_BYTES,
            signature is Some ==> signature->Some_0@ == Self::decoding(raw@),
    {
        if raw.len() != SIGNATURE_BYTES {
            return None;
        }
        let r = copy_bytes(slice_subrange(raw, 0, POINT_BYTES));
        let z = copy_bytes(slice_subrange(raw, POINT_BYTES, SIGNATURE_BYTES));
        Some(Signature { r, z })
    }
}

/// A signature with a commitment of 96 bytes and a response of 32 is read
/// back from its encoding as it was.
pub proof fn lemma_signature_round_trip(signature: SignatureView)
    requires
        signature.r.len() == POINT_BYTES,
        signature.z.len() == SCALAR_BYTES,
    ensures
        Signature::encoding(signature).len() == SIGNATURE_BYTES,
        Signature::decoding(Signature::encoding(signature)) == signature,
{
    let raw = Signature::encoding(signature);
    assert(raw.subrange(0, POINT_BYTES as int) =~= signature.r);
    assert(raw.subrange(POINT_BYTES as int, SIGNATURE_BYTES as int) =~= signature.z);
}

impl Keypair {
    /// The public point is the generator taken private-scalar times.
    pub open spec fn well_formed(&self) -> bool {
        &&& is_scalar(self.private_key@)
        &&& self.public_key@ == generator_multiple(self.private_key@)
        &&& self.public_key@.len() == POINT_BYTES
    }
}

/// The bytes that are hashed into the challenge: the public key, then the
/// message, then the commitment.
pub open spec fn challenge_input(public_key: Seq<u8>, message: Seq<u8>, r: Seq<u8>) -> Seq<u8> {
    public_key + message + r
}

/// The challenge scalar of a signature.
pub open spec fn challenge_scalar(public_key: Seq<u8>, message: Seq<u8>, r: Seq<u8>) -> Seq<u8> {
    digest_scalar(sha256_digest(challenge_input(public_key, message, r)))
}

/// `signature` is what signing `message` gives with the nonce `nonce`: the
/// commitment is the generator taken `nonce` times, and the response is the
/// nonce plus the challenge times the private scalar.
pub open spec fn signed_with(
    private_key: Seq<u8>,
    public_key: Seq<u8>,
    nonce: Seq<u8>,
    message: Seq<u8>,
    signature: SignatureView,
) -> bool {
    &&& signature.r == generator_multiple(nonce)
    &&& signature.z == scalar_sum(
        nonce,
        scalar_product(challenge_scalar(public_key, message, signature.r), private_key),
    )
}

/// `signature` is accepted for `message` under `public_key`: the points have
/// the right length, the response is the encoding of a scalar, and the
/// commitment plus the public key taken challenge times is the generator
/// taken response times.
pub open spec fn verifies(public_key: Seq<u8>, signature: SignatureView, message: Seq<u8>) -> bool {
    &&& public_key.len() == POINT_BYTES
    &&& signature.r.len() == POINT_BYTES
    &&& is_scalar(signature.z)
    &&& match point_multiple(public_key, challenge_scalar(public_key, message, signature.r)) {
        Some(shift) => point_sum(signature.r, shift) == Some(generator_multiple(signature.z)),
        None => false,
    }
}

/// Two byte strings of one length that spell the same number, least
/// significant byte first, are the same.
pub proof fn lemma_le_value_injective(a: Seq<u8>, b: Seq<u8>)
    requires
        a.len() == b.len(),
        le_value(a) == le_value(b),
    ensures
        a == b,
    decreases a.len(),
{
    if a.len() > 0 {
        lemma_le_value_injective(a.drop_first(), b.drop_first());
        assert(a =~= seq![a[0]] + a.drop_first());
        assert(b =~= seq![b[0]] + b.drop_first());
    } else {
        assert(a =~= b);
    }
}

/// A number that fits into `len` bytes is the number that its `len` lowest
/// bytes spell.
pub proof fn lemma_le_bytes_spell(n: nat, len: nat)
    requires
        high_part(n, len) == 0,
    ensures
        le_bytes(n, len).len() == len,
        le_value(le_bytes(n, len)) == n,
    decreases len,
{
    if len > 0 {
        lemma_le_bytes_spell(n / 256, (len - 1) as nat);
        let bytes = le_bytes(n, len);
        assert(bytes.drop_first() =~= le_bytes(n / 256, (len - 1) as nat));
        assert(bytes[0] == (n % 256) as u8);
    }
}

/// What is left above `a + b` bytes is what is left above `b` bytes of what
/// is left above `a` bytes.
pub proof fn lemma_high_part_splits(n: nat, a: nat, b: nat)
    ensures
        high_part(n, a + b) == high_part(high_part(n, a), b),
    decreases a,
{
    if a > 0 {
        lemma_high_part_splits(n / 256, (a - 1) as nat, b);
        assert((a - 1) as nat + b == (a + b - 1) as nat);
    }
}

/// What is left above eight bytes is the number divided by two to the
/// power of 64.
pub proof fn lemma_high_part_of_limb(n: nat)
    ensures
        high_part(n, 8) == n / limb(),
{
    reveal_with_fuel(high_part, 9);
}

/// A number below the order of the group is a scalar: its encoding has 32
/// bytes and spells the number.
pub proof fn lemma_scalar_encoding(n: nat)
    requires
        n < group_order(),
    ensures
        is_scalar(scalar_encoding(n)),
        le_value(scalar_encoding(n)) == n,
{
    let first = high_part(n, 8);
    let second = high_part(first, 8);
    let third = high_part(second, 8);
    lemma_high_part_of_limb(n);
    lemma_high_part_of_limb(first);
    lemma_high_part_of_limb(second);
    lemma_high_part_of_limb(third);
    lemma_high_part_splits(n, 8, 8);
    lemma_high_part_splits(n, 16, 8);
    lemma_high_part_splits(n, 24, 8);
    assert(high_part(n, 32) == 0);
    lemma_le_bytes_spell(n, 32);
}

/// The sum, the product and the scalar of a digest are scalars, and spell
/// the reduced numbers.
pub proof fn lemma_scalar_arithmetic(a: Seq<u8>, b: Seq<u8>)
    ensures
        is_scalar(scalar_sum(a, b)),
        le_value(scalar_sum(a, b)) == (le_value(a) + le_value(b)) % group_order(),
        is_scalar(scalar_product(a, b)),
        le_value(scalar_product(a, b)) == (le_value(a) * le_value(b)) % group_order(),
        is_scalar(digest_scalar(a)),
        le_value(digest_scalar(a)) == be_value(a) % group_order(),
{
    lemma_mod_bound((le_value(a) + le_value(b)) as int, group_order() as int);
    lemma_mod_bound((le_value(a) * le_value(b)) as int, group_order() as int);
    lemma_mod_bound(be_value(a) as int, group_order() as int);
    lemma_scalar_encoding((le_value(a) + le_value(b)) % group_order());
    lemma_scalar_encoding((le_value(a) * le_value(b)) % group_order());
    lemma_scalar_encoding(be_value(a) % group_order());
}

/// Decodes 32 bytes with `Fr::deserialize_compressed`, which reads them least
/// significant first and admits them where the number is below the order of
/// the group.
#[verifier::external_body]
fn is_canonical(scalar: &[u8]) -> (canonical: bool)
    requires
        scalar@.len() == SCALAR_BYTES,
    ensures
        canonical == is_scalar(scalar@),
{
    Fr::deserialize_compressed(scalar).is_ok()
}

/// Draws a scalar with `Fr::rand` from `rand::thread_rng()`. Of the outcome
/// only its form is stated: it is the encoding of a scalar.
#[verifier::external_body]
fn random_scalar() -> (scalar: Vec<u8>)
    ensures
        is_scalar(scalar@),
{
    let mut rng = rand::thread_rng();
    Fr::rand(&mut rng).into_bigint().to_bytes_le()
}

/// Computes `Sha256::digest`: the SHA-256 digest of `data`, which is 32 bytes.
#[verifier::external_body]
fn sha256(data: &[u8]) -> (digest: Vec<u8>)
    ensures
        digest@ == sha256_digest(data@),
        digest@.len() == 32,
{
    sha2::Sha256::digest(data).to_vec()
}

/// Converts a digest with `Fr::from_be_bytes_mod_order`: the bytes are read
/// most significant first and reduced by the order of the group. The result
/// is written with `to_bytes_le`, which gives its 32 bytes.
#[verifier::external_body]
fn scalar_from_digest(digest: &[u8]) -> (scalar: Vec<u8>)
    ensures
        scalar@ == digest_scalar(digest@),
{
    Fr::from_be_bytes_mod_order(digest).into_bigint().to_bytes_le()
}

/// Reads two scalars with `Fr::from_le_bytes_mod_order` and adds them with
/// the `+` of `Fr`: the sum of the two numbers, reduced by the order of the
/// group. The result is written with `to_bytes_le`, which gives its 32 bytes.
#[verifier::external_body]
fn scalar_add(a: &[u8], b: &[u8]) -> (sum: Vec<u8>)
    ensures
        sum@ == scalar_sum(a@, b@),
{
    let sum = Fr::from_le_bytes_mod_order(a) + Fr::from_le_bytes_mod_order(b);
    sum.into_bigint().to_bytes_le()
}

/// Reads two scalars with `Fr::from_le_bytes_mod_order` and multiplies them
/// with the `*` of `Fr`: the product of the two numbers, reduced by the order
/// of the group. The result is written with `to_bytes_le`, which gives its 32
/// bytes.
#[verifier::external_body]
fn scalar_mul(a: &[u8], b: &[u8]) -> (product: Vec<u8>)
    ensures
        product@ == scalar_product(a@, b@),
{
    let product = Fr::from_le_bytes_mod_order(a) * Fr::from_le_bytes_mod_order(b);
    product.into_bigint().to_bytes_le()
}

/// Multiplies `G1Projective::generator()` by a scalar and encodes the point
/// with `serialize_uncompressed`, which gives 96 bytes. Beside naming the
/// result, the contract states one law of a group of prime order: scalars
/// that give the same multiple of the generator are the same number up to
/// the order of the group.
#[verifier::external_body]
fn generator_mul(scalar: &[u8]) -> (point: Vec<u8>)
    ensures
        point@ == generator_multiple(scalar@),
        point@.len() == POINT_BYTES,
        forall|other: Seq<u8>| #[trigger]
            generator_multiple(other) == point@ ==> le_value(other) % group_order() == le_value(
                scalar@,
            ) % group_order(),
{
    let point = G1Projective::generator() * Fr::from_le_bytes_mod_order(scalar);
    let mut encoded = Vec::new();
    point.into_affine().serialize_uncompressed(&mut encoded).unwrap();
    encoded
}

/// Decodes a point with `deserialize_uncompressed`, which admits only points
/// of the group, and multiplies it by a scalar with the `*` of `G1Projective`.
/// Beside naming the result, the contract states one law of a group of prime
/// order: a multiple of the generator, taken `scalar` times, is the generator
/// taken product-of-the-two-scalars times.
#[verifier::external_body]
fn point_mul(point: &[u8], scalar: &[u8]) -> (product: Option<Vec<u8>>)
    requires
        point@.len() == POINT_BYTES,
    ensures
        optional_bytes(product) == point_multiple(point@, scalar@),
        product is Some ==> product->Some_0@.len() == POINT_BYTES,
        forall|x: Seq<u8>| #[trigger]
            generator_multiple(x) == point@ ==> optional_bytes(product) == Some(
                generator_multiple(scalar_product(scalar@, x)),
            ),
{
    let point = G1Affine::deserialize_uncompressed(point).ok()?;
    let product = point * Fr::from_le_bytes_mod_order(scalar);
    let mut encoded = Vec::new();
    product.into_affine().serialize_uncompressed(&mut encoded).unwrap();
    Some(encoded)
}

/// Decodes two points with `deserialize_uncompressed` and adds them with the
/// `+` of the curve library. Beside naming the result, the contract states one
/// law of a group of prime order: the sum of two multiples of the generator is
/// the generator taken sum-of-the-two-scalars times.
#[verifier::external_body]
fn point_add(a: &[u8], b: &[u8]) -> (sum: Option<Vec<u8>>)
    requires
        a@.len() == POINT_BYTES,
        b@.len() == POINT_BYTES,
    ensures
        optional_bytes(sum) == point_sum(a@, b@),
        sum is Some ==> sum->Some_0@.len() == POINT_BYTES,
        forall|x: Seq<u8>, y: Seq<u8>|
            #![trigger generator_multiple(x), generator_multiple(y)]
            generator_multiple(x) == a@ && generator_multiple(y) == b@ ==> optional_bytes(sum)
                == Some(generator_multiple(scalar_sum(x, y))),
{
    let a = G1Affine::deserialize_uncompressed(a).ok()?;
    let b = G1Affine::deserialize_uncompressed(b).ok()?;
    let mut encoded = Vec::new();
    (a + b).into_affine().serialize_uncompressed(&mut encoded).unwrap();
    Some(encoded)
}

/// A fresh key pair: a random private scalar and the generator taken that
/// many times.
pub fn generate_key_pair() -> (keypair: Keypair)
    ensures
        keypair.well_formed(),
{
    let private_key = random_scalar();
    let public_key = generator_mul(private_key.as_slice());
    Keypair { private_key, public_key }
}

/// The digest that becomes the challenge: SHA-256 over the public key, then
/// the message, then the commitment.
pub fn hash(message: &[u8], public_key: &[u8], r: &[u8]) -> (digest: Vec<u8>)
    ensures
        digest@ == sha256_digest(challenge_input(public_key@, message@, r@)),
        digest@.len() == 32,
{
    let mut input = copy_bytes(public_key);
    let mut i: usize = 0;
    while i < message.len()
        invariant
            i <= message.len(),
            input@ == public_key@ + message@.subrange(0, i as int),
        decreases message.len() - i,
    {
        input.push(message[i]);
        assert(input@ =~= public_key@ + message@.subrange(0, i + 1));
        i += 1;
    }
    assert(message@.subrange(0, message.len() as int) =~= message@);
    let mut j: usize = 0;
    while j < r.len()
        invariant
            j <= r.len(),
            input@ == public_key@ + message@ + r@.subrange(0, j as int),
        decreases r.len() - j,
    {
        input.push(r[j]);
        assert(input@ =~= public_key@ + message@ + r@.subrange(0, j + 1));
        j += 1;
    }
    assert(r@.subrange(0, r.len() as int) =~= r@);
    sha256(input.as_slice())
}

/// Signs `message` with a nonce that the caller has drawn.
fn sign_with_nonce(keypair: &Keypair, message: &[u8], nonce: &[u8]) -> (signature: Signature)
    ensures
        signed_with(keypair.private_key@, keypair.public_key@, nonce@, message@, signature@),
        signature.r@.len() == POINT_BYTES,
        is_scalar(signature.z@),
{
    let r = generator_mul(nonce);
    let digest = hash(message, keypair.public_key.as_slice(), r.as_slice());
    let c = scalar_from_digest(digest.as_slice());
    let shift = scalar_mul(c.as_slice(), keypair.private_key.as_slice());
    let z = scalar_add(nonce, shift.as_slice());
    proof {
        lemma_scalar_arithmetic(nonce@, shift@);
    }
    Signature { r, z }
}

/// Signs `message` with the private scalar of `keypair` and a nonce drawn
/// afresh for this call.
pub fn sign(keypair: &Keypair, message: Vec<u8>) -> (signature: Signature)
    ensures
        exists|nonce: Seq<u8>|
            is_scalar(nonce) && #[trigger] signed_with(
                keypair.private_key@,
                keypair.public_key@,
                nonce,
                message@,
                signature@,
            ),
        signature.r@.len() == POINT_BYTES,
        is_scalar(signature.z@),
{
    let nonce = random_scalar();
    sign_with_nonce(keypair, message.as_slice(), nonce.as_slice())
}

/// Whether `signature` is accepted for `message` under `public_key`.
///
/// Encodings of the wrong length, and a response that is not the encoding of
/// a scalar, are turned down before any arithmetic of the group. A signature
/// made over `message` with the private scalar that `public_key` belongs to
/// is accepted, whatever the nonce was. Where a signature is accepted, the
/// same commitment with any other response is not.
pub fn verify(public_key: &[u8], signature: &Signature, message: Vec<u8>) -> (accepted: bool)
    ensures
        accepted == verifies(public_key@, signature@, message@),
        forall|private_key: Seq<u8>, nonce: Seq<u8>|
            #![trigger signed_with(private_key, public_key@, nonce, message@, signature@)]
            public_key@.len() == POINT_BYTES && public_key@ == generator_multiple(private_key)
                && signature.r@.len() == POINT_BYTES && is_scalar(signature.z@) && signed_with(
                private_key,
                public_key@,
                nonce,
                message@,
                signature@,
            ) ==> accepted,
        forall|other: Seq<u8>|
            accepted && other != signature.z@ ==> !#[trigger] verifies(
                public_key@,
                SignatureView { r: signature.r@, z: other },
                message@,
            ),
{
    if public_key.len() != POINT_BYTES || signature.r.len() != POINT_BYTES || signature.z.len()
        != SCALAR_BYTES {
        return false;
    }
    if !is_canonical(signature.z.as_slice()) {
        return false;
    }
    let digest = hash(message.as_slice(), public_key, signature.r.as_slice());
    let c = scalar_from_digest(digest.as_slice());
    let shift = match point_mul(public_key, c.as_slice()) {
        Some(shift) => shift,
        None => { return false; },
    };
    let left = match point_add(signature.r.as_slice(), shift.as_slice()) {
        Some(left) => left,
        None => { return false; },
    };
    let right = generator_mul(signature.z.as_slice());
    let accepted = bytes_eq(left.as_slice(), right.as_slice());
    proof {
        if accepted {
            assert forall|other: Seq<u8>| other != signature.z@ implies !#[trigger] verifies(
                public_key@,
                SignatureView { r: signature.r@, z: other },
                message@,
            ) by {
                if verifies(public_key@, SignatureView { r: signature.r@, z: other }, message@) {
                    assert(generator_multiple(other) == right@);
                    lemma_small_mod(le_value(other), group_order());
                    lemma_small_mod(le_value(signature.z@), group_order());
                    lemma_le_value_injective(other, signature.z@);
                }
            }
        }
    }
    accepted
}

} // verus!
