use vstd::prelude::*;

use ark_bls12_381::Fr;
use ark_ff::field_hashers::{DefaultFieldHasher, HashToField};
use ark_ff::{BigInt, PrimeField};
use ark_serialize::{CanonicalDeserialize, CanonicalSerialize};
use ark_serialize::SerializationError as ArkSerializationError;

use crate::group::{failed_with, succeeded_with, SerializationError};
use digest::{FixedOutputReset, Update};
use sha2::Sha256;

verus! {

/// The order of the groups of BLS12-381, which is the modulus of the scalar field.
pub open spec fn scalar_modulus() -> nat {
    52435875175126190479447740508185965837690552500527637822603658699938581184513nat
}

/// Value of a little-endian sequence of 64-bit limbs.
pub open spec fn limbs_value(l: Seq<u64>) -> nat
    decreases l.len(),
{
    if l.len() == 0 {
        0
    } else {
        l[0] as nat + 0x1_0000_0000_0000_0000nat * limbs_value(l.skip(1))
    }
}

/// Bit `n` (counted from the least significant) of a little-endian limb sequence.
pub open spec fn limb_bit(l: Seq<u64>, n: int) -> bool {
    ((l[n / 64] >> ((n % 64) as u64)) & 1u64) == 1u64
}

/// Four limbs holding a value below the scalar modulus: the representation
/// of an element of the scalar field.
pub open spec fn scalar_canonical(l: Seq<u64>) -> bool {
    l.len() == 4 && limbs_value(l) < scalar_modulus()
}

/// An element of the scalar field of BLS12-381, held by its four canonical
/// little-endian limbs.
#[derive(Clone, Copy, Debug)]
pub struct Scalar {
    limbs: [u64; 4],
}

impl View for Scalar {
    type V = Seq<u64>;

    closed spec fn view(&self) -> Seq<u64> {
        self.limbs@
    }
}

/// Calls `Fr::from_bigint`, which gives an element exactly when the integer
/// is below the modulus; the element's limbs are then the given ones.
#[verifier::external_body]
fn fr_from_limbs(limbs: [u64; 4]) -> (r: Option<[u64; 4]>)
    ensures
        r is Some <==> limbs_value(limbs@) < scalar_modulus(),
        r matches Some(v) ==> v@ == limbs@,
{
    match Fr::from_bigint(BigInt::new(limbs)) {
        Some(f) => Some(f.into_bigint().0),
        None => None,
    }
}

impl Scalar {
    /// The scalar with the given limbs, if their value is below the modulus.
    pub fn from_limbs(limbs: [u64; 4]) -> (r: Option<Scalar>)
        ensures
            r is Some <==> limbs_value(limbs@) < scalar_modulus(),
            r matches Some(s) ==> s@ == limbs@ && scalar_canonical(s@),
    {
        match fr_from_limbs(limbs) {
            Some(v) => Some(Scalar { limbs: v }),
            None => None,
        }
    }

    /// The limbs of the scalar.
    pub fn limbs(&self) -> (r: [u64; 4])
        ensures
            r@ == self@,
    {
        self.limbs
    }
}


/// The 32-byte little-endian encoding of four limbs.
pub open spec fn limbs_le_bytes(l: Seq<u64>) -> Seq<u8> {
    Seq::new(32, |i: int| ((l[i / 8] >> (8 * (i % 8)) as u64) & 0xffu64) as u8)
}

/// The scalar the hash-to-field of arkworks derives from a message:
/// `DefaultFieldHasher::<Sha256>::new(&[]).hash_to_field::<1>(msg)[0]`,
/// given by its canonical limbs.
pub uninterp spec fn hash_to_scalar(msg: Seq<u8>) -> Seq<u64>;

/// The SHA-256 digest of a message.
pub uninterp spec fn sha256_digest(msg: Seq<u8>) -> Seq<u8>;

/// Hashes a message to a scalar with `DefaultFieldHasher<Sha256>` and an
/// empty domain, through `HashToField::hash_to_field`; the result is a field
/// element, so its limbs are canonical.
#[verifier::external_body]
fn hash_to_scalar_raw(msg: &[u8]) -> (r: [u64; 4])
    ensures
        r@ == hash_to_scalar(msg@),
        scalar_canonical(r@),
{
    let hasher = <DefaultFieldHasher<Sha256> as HashToField<Fr>>::new(&[]);
    let f: [Fr; 1] = hasher.hash_to_field::<1>(msg);
    f[0].into_bigint().0
}

/// Computes the SHA-256 digest of a message with `Update::update` and
/// `FixedOutputReset::finalize_fixed_reset`; it is 32 bytes long.
#[verifier::external_body]
fn sha256_raw(msg: &[u8]) -> (r: Vec<u8>)
    ensures
        r@ == sha256_digest(msg@),
        r@.len() == 32,
{
    let mut hasher = Sha256::default();
    hasher.update(msg);
    hasher.finalize_fixed_reset().to_vec()
}

/// Multiplies two field elements with `Fr * Fr`: the product modulo the modulus.
#[verifier::external_body]
fn fr_mul_raw(a: [u64; 4], b: [u64; 4]) -> (r: [u64; 4])
    requires
        scalar_canonical(a@),
        scalar_canonical(b@),
    ensures
        scalar_canonical(r@),
        limbs_value(r@) == (limbs_value(a@) * limbs_value(b@)) % scalar_modulus(),
{
    let x = Fr::from_bigint(BigInt::new(a)).unwrap();
    let y = Fr::from_bigint(BigInt::new(b)).unwrap();
    (x * y).into_bigint().0
}

/// Subtracts two field elements with `Fr - Fr`: the difference modulo the modulus.
#[verifier::external_body]
fn fr_sub_raw(a: [u64; 4], b: [u64; 4]) -> (r: [u64; 4])
    requires
        scalar_canonical(a@),
        scalar_canonical(b@),
    ensures
        scalar_canonical(r@),
        limbs_value(r@) as int == (limbs_value(a@) as int - limbs_value(b@) as int) % (
        scalar_modulus() as int),
{
    let x = Fr::from_bigint(BigInt::new(a)).unwrap();
    let y = Fr::from_bigint(BigInt::new(b)).unwrap();
    (x - y).into_bigint().0
}

/// Serializes a field element with `serialize_compressed`: the 32
/// little-endian bytes of its canonical limbs.
#[verifier::external_body]
fn fr_to_bytes_raw(a: [u64; 4]) -> (r: Vec<u8>)
    requires
        scalar_canonical(a@),
    ensures
        r@ == limbs_le_bytes(a@),
{
    let x = Fr::from_bigint(BigInt::new(a)).unwrap();
    let mut out = Vec::new();
    x.serialize_compressed(&mut out).unwrap();
    out
}

/// Overwrites the limbs with zeros through `Zeroize::zeroize`.
#[verifier::external_body]
fn zeroize_limbs(a: &mut [u64; 4])
    ensures
        final(a)@ == seq![0u64, 0u64, 0u64, 0u64],
{
    zeroize::Zeroize::zeroize(a);
}

impl Scalar {
    /// The scalar a message hashes to.
    pub fn hash_to_scalar(msg: &[u8]) -> (r: Scalar)
        ensures
            r@ == hash_to_scalar(msg@),
            scalar_canonical(r@),
    {
        Scalar { limbs: hash_to_scalar_raw(msg) }
    }

    /// The product of two scalars.
    pub fn mul(&self, other: &Scalar) -> (r: Scalar)
        requires
            scalar_canonical(self@),
            scalar_canonical(other@),
        ensures
            scalar_canonical(r@),
            limbs_value(r@) == (limbs_value(self@) * limbs_value(other@)) % scalar_modulus(),
    {
        Scalar { limbs: fr_mul_raw(self.limbs, other.limbs) }
    }

    /// The difference of two scalars.
    pub fn sub(&self, other: &Scalar) -> (r: Scalar)
        requires
            scalar_canonical(self@),
            scalar_canonical(other@),
        ensures
            scalar_canonical(r@),
            limbs_value(r@) as int == (limbs_value(self@) as int - limbs_value(other@) as int) % (
            scalar_modulus() as int),
    {
        Scalar { limbs: fr_sub_raw(self.limbs, other.limbs) }
    }

    /// The 32-byte little-endian encoding of the scalar.
    pub fn to_bytes(&self) -> (r: Vec<u8>)
        requires
            scalar_canonical(self@),
        ensures
            r@ == limbs_le_bytes(self@),
    {
        fr_to_bytes_raw(self.limbs)
    }

    /// Overwrites the scalar with zero.
    pub fn zeroize(&mut self)
        ensures
            final(self)@ == seq![0u64, 0u64, 0u64, 0u64],
    {
        zeroize_limbs(&mut self.limbs);
    }

    /// Whether two scalars are equal.
    pub fn equals(&self, other: &Scalar) -> (r: bool)
        ensures
            r == (self@ == other@),
    {
        let r = self.limbs[0] == other.limbs[0] && self.limbs[1] == other.limbs[1]
            && self.limbs[2] == other.limbs[2] && self.limbs[3] == other.limbs[3];
        proof {
            if r {
                assert(self.limbs@ =~= other.limbs@);
            }
        }
        r
    }
}

/// The SHA-256 digest of a message.
pub fn sha256(msg: &[u8]) -> (r: Vec<u8>)
    ensures
        r@ == sha256_digest(msg@),
        r@.len() == 32,
{
    sha256_raw(msg)
}


/// The scalar whose 32-byte little-endian encoding is `b`, if there is one.
pub open spec fn scalar_from_le_bytes(b: Seq<u8>) -> Option<Seq<u64>> {
    if exists|l: Seq<u64>| scalar_canonical(l) && limbs_le_bytes(l) == b {
        Some(choose|l: Seq<u64>| scalar_canonical(l) && limbs_le_bytes(l) == b)
    } else {
        None
    }
}

/// A 64-bit word is determined by its eight bytes.
proof fn lemma_u64_bytes_determine(x: u64, y: u64)
    requires
        (x & 0xffu64) == (y & 0xffu64),
        ((x >> 8u64) & 0xffu64) == ((y >> 8u64) & 0xffu64),
        ((x >> 16u64) & 0xffu64) == ((y >> 16u64) & 0xffu64),
        ((x >> 24u64) & 0xffu64) == ((y >> 24u64) & 0xffu64),
        ((x >> 32u64) & 0xffu64) == ((y >> 32u64) & 0xffu64),
        ((x >> 40u64) & 0xffu64) == ((y >> 40u64) & 0xffu64),
        ((x >> 48u64) & 0xffu64) == ((y >> 48u64) & 0xffu64),
        ((x >> 56u64) & 0xffu64) == ((y >> 56u64) & 0xffu64),
    ensures
        x == y,
{
    assert(x == y) by (bit_vector)
        requires
            (x & 0xffu64) == (y & 0xffu64),
            ((x >> 8u64) & 0xffu64) == ((y >> 8u64) & 0xffu64),
            ((x >> 16u64) & 0xffu64) == ((y >> 16u64) & 0xffu64),
            ((x >> 24u64) & 0xffu64) == ((y >> 24u64) & 0xffu64),
            ((x >> 32u64) & 0xffu64) == ((y >> 32u64) & 0xffu64),
            ((x >> 40u64) & 0xffu64) == ((y >> 40u64) & 0xffu64),
            ((x >> 48u64) & 0xffu64) == ((y >> 48u64) & 0xffu64),
            ((x >> 56u64) & 0xffu64) == ((y >> 56u64) & 0xffu64),
    ;
}

/// Byte `j` of limb `i` agrees when the encodings agree.
proof fn lemma_byte_eq(a: Seq<u64>, b: Seq<u64>, i: int, j: int)
    requires
        a.len() == 4,
        b.len() == 4,
        0 <= i < 4,
        0 <= j < 8,
        limbs_le_bytes(a) == limbs_le_bytes(b),
    ensures
        ((a[i] >> (8 * j) as u64) & 0xffu64) == ((b[i] >> (8 * j) as u64) & 0xffu64),
{
    let k = 8 * i + j;
    assert(k / 8 == i && k % 8 == j);
    assert(limbs_le_bytes(a)[k] == ((a[k / 8] >> (8 * (k % 8)) as u64) & 0xffu64) as u8);
    assert(limbs_le_bytes(b)[k] == ((b[k / 8] >> (8 * (k % 8)) as u64) & 0xffu64) as u8);
    assert(limbs_le_bytes(a)[k] == limbs_le_bytes(b)[k]);
    let x = a[i];
    let y = b[i];
    let sh = (8 * j) as u64;
    let xb = (x >> sh) & 0xffu64;
    let yb = (y >> sh) & 0xffu64;
    assert(xb < 256 && yb < 256) by (bit_vector)
        requires
            xb == (x >> sh) & 0xffu64,
            yb == (y >> sh) & 0xffu64,
    ;
    assert(xb as u8 == yb as u8);
}

/// Two four-limb sequences with the same little-endian bytes are equal.
pub proof fn lemma_le_bytes_injective(a: Seq<u64>, b: Seq<u64>)
    requires
        a.len() == 4,
        b.len() == 4,
        limbs_le_bytes(a) == limbs_le_bytes(b),
    ensures
        a == b,
{
    assert forall|i: int| 0 <= i < 4 implies a[i] == b[i] by {
        let x = a[i];
        let y = b[i];
        lemma_byte_eq(a, b, i, 0);
        lemma_byte_eq(a, b, i, 1);
        lemma_byte_eq(a, b, i, 2);
        lemma_byte_eq(a, b, i, 3);
        lemma_byte_eq(a, b, i, 4);
        lemma_byte_eq(a, b, i, 5);
        lemma_byte_eq(a, b, i, 6);
        lemma_byte_eq(a, b, i, 7);
        assert(((x >> 0u64) & 0xffu64) == (x & 0xffu64)) by (bit_vector);
        assert(((y >> 0u64) & 0xffu64) == (y & 0xffu64)) by (bit_vector);
        lemma_u64_bytes_determine(x, y);
    }
    assert(a =~= b);
}

/// What reading a scalar from a byte stream gives: the first 32 bytes,
/// little-endian, as a value below the modulus; too few bytes are an I/O
/// error, a value not below the modulus is invalid data.
pub open spec fn scalar_read(b: Seq<u8>) -> Result<Seq<u64>, SerializationError> {
    if b.len() < 32 {
        Err(SerializationError::IoError)
    } else {
        match scalar_from_le_bytes(b.subrange(0, 32)) {
            Some(l) => Ok(l),
            None => Err(SerializationError::InvalidData),
        }
    }
}

/// Reads a field element with `deserialize_compressed`: its first 32 bytes,
/// little-endian, must be below the modulus. Too few bytes fail the read
/// (`IoError`), a value not below the modulus is `InvalidData`; no flags are
/// read, so no other error comes.
#[verifier::external_body]
fn fr_from_bytes_raw(b: &[u8]) -> (r: Result<[u64; 4], SerializationError>)
    ensures
        r matches Ok(l) ==> b@.len() >= 32 && scalar_canonical(l@) && limbs_le_bytes(l@)
            == b@.subrange(0, 32),
        r is Err ==> b@.len() < 32 || scalar_from_le_bytes(b@.subrange(0, 32)) is None,
        b@.len() < 32 ==> failed_with(r, SerializationError::IoError),
        b@.len() >= 32 && scalar_from_le_bytes(b@.subrange(0, 32)) is None ==> failed_with(
            r,
            SerializationError::InvalidData,
        ),
{
    match Fr::deserialize_compressed(b) {
        Ok(f) => Ok(f.into_bigint().0),
        Err(ArkSerializationError::NotEnoughSpace) => Err(SerializationError::NotEnoughSpace),
        Err(ArkSerializationError::InvalidData) => Err(SerializationError::InvalidData),
        Err(ArkSerializationError::UnexpectedFlags) => Err(SerializationError::UnexpectedFlags),
        Err(ArkSerializationError::IoError(_)) => Err(SerializationError::IoError),
    }
}

impl Scalar {
    /// Reads a scalar from the first 32 bytes, little-endian; the value must
    /// be below the modulus.
    pub fn from_bytes(b: &[u8]) -> (r: Result<Scalar, SerializationError>)
        ensures
            r matches Ok(s) ==> succeeded_with(scalar_read(b@), s@)
                && scalar_canonical(s@),
            r matches Err(e) ==> failed_with(scalar_read(b@), e),
    {
        match fr_from_bytes_raw(b) {
            Ok(l) => {
                proof {
                    let w = choose|w: Seq<u64>|
                        scalar_canonical(w) && limbs_le_bytes(w) == b@.subrange(0, 32);
                    lemma_le_bytes_injective(w, l@);
                }
                Ok(Scalar { limbs: l })
            },
            Err(e) => Err(e),
        }
    }
}

} // verus!
