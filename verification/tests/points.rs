use ark_bls12_381::{Fq, Fq2, Fr, G1Affine, G1Projective, G2Affine, G2Projective};
use ark_ec::{AffineRepr, CurveGroup, PrimeGroup};
use ark_ff::field_hashers::HashToField;
use ark_ff::{BigInteger, PrimeField};
use ark_serialize::{CanonicalDeserialize, CanonicalSerialize};

use nugget_bls::group::{G1Point, G2Point, SerializationError};
use nugget_bls::scalar::{sha256, Scalar};

fn to_point(p: G1Projective) -> G1Point {
    let mut bytes = Vec::new();
    p.into_affine().serialize_compressed(&mut bytes).unwrap();
    G1Point::from_compressed(&bytes).unwrap()
}

fn scalar(x: u64) -> Scalar {
    Scalar::from_limbs([x, 0, 0, 0]).unwrap()
}

fn fr_of(s: &Scalar) -> Fr {
    Fr::from_bigint(ark_ff::BigInt::new(s.limbs())).unwrap()
}

#[test]
fn generator_compresses_to_standard_encoding() {
    let g = G1Point::generator();
    let hex: String = g.to_compressed().iter().map(|b| format!("{:02x}", b)).collect();
    assert_eq!(
        hex,
        "97f1d3a73197d7942695638c4fa9ac0fc3688c4f9774b905a14e3a3f171bac586c55e83ff97a1aeffb3af00adb22c6bb"
    );
    assert!(g.equals(&to_point(G1Projective::generator())));
}

#[test]
fn identity_compresses_with_infinity_flag() {
    let id = G1Point::identity();
    let bytes = id.to_compressed();
    assert_eq!(bytes[0], 0xc0);
    assert!(bytes[1..].iter().all(|b| *b == 0));
    assert!(id.equals(&to_point(G1Projective::default())));
}

#[test]
fn group_operations_match_arkworks() {
    let g = G1Projective::generator();
    let p = g * Fr::from(7u64);
    let q = g * Fr::from(11u64);
    let pp = to_point(p);
    let qq = to_point(q);
    assert!(pp.add(&qq).equals(&to_point(p + q)));
    assert!(pp.double().equals(&to_point(p + p)));
    assert!(pp.neg().equals(&to_point(-p)));
    assert!(pp.mul(&scalar(5)).equals(&to_point(p * Fr::from(5u64))));
    assert!(!pp.add(&qq).equals(&pp));
    assert!(!pp.double().equals(&pp));
    assert!(!pp.neg().equals(&pp));
}

#[test]
fn endomorphism_is_multiplication_by_lambda() {
    let lambda = Fr::from_bigint(
        ark_ff::BigInt::try_from(num_lambda()).unwrap(),
    )
    .unwrap();
    let g = G1Point::generator();
    let expected = to_point(G1Projective::generator() * lambda);
    assert!(g.endomorphism().equals(&expected));
}

fn num_lambda() -> ark_ff::BigInt<4> {
    let fr: Fr = <ark_bls12_381::g1::Config as ark_ec::scalar_mul::glv::GLVConfig>::LAMBDA;
    fr.into_bigint()
}

#[test]
fn compressed_roundtrip_and_rejection() {
    let p = to_point(G1Projective::generator() * Fr::from(123u64));
    let bytes = p.to_compressed();
    let back = G1Point::from_compressed(&bytes).unwrap();
    assert!(back.equals(&p));
    let mut bad = bytes.clone();
    bad[47] ^= 1;
    bad[0] &= 0x9f;
    let decoded = G1Point::from_compressed(&bad);
    if let Ok(d) = decoded {
        assert!(!d.equals(&p));
    }
    assert_eq!(G1Point::from_compressed(&bytes[..47]).err(), Some(SerializationError::InvalidData));
    assert_eq!(G1Point::from_compressed(&[0xffu8; 48]).err(), Some(SerializationError::InvalidData));
    let mut flagless = bytes.clone();
    flagless[0] &= 0x5f;
    assert_eq!(G1Point::from_compressed(&flagless).err(), Some(SerializationError::UnexpectedFlags));
}

#[test]
fn uncompressed_roundtrip_and_rejection() {
    let p = to_point(G1Projective::generator() * Fr::from(321u64));
    let bytes = p.to_uncompressed();
    assert_eq!(bytes.len(), 96);
    let mut expected = Vec::new();
    (G1Projective::generator() * Fr::from(321u64)).into_affine().serialize_uncompressed(&mut expected).unwrap();
    assert_eq!(bytes, expected);
    assert!(G1Point::from_uncompressed(&bytes).unwrap().equals(&p));
    assert!(G1Point::deserialize_with_mode(&p.serialize_with_mode(false), false).unwrap().equals(&p));
    assert!(G1Point::deserialize_with_mode(&p.serialize_with_mode(true), true).unwrap().equals(&p));
    assert_eq!(G1Point::from_uncompressed(&p.to_compressed()).err(), Some(SerializationError::InvalidData));
    let mut flagged = bytes.clone();
    flagged[0] |= 0x80;
    assert_eq!(G1Point::from_uncompressed(&flagged).err(), Some(SerializationError::UnexpectedFlags));
    let q = G2Point::generator();
    let qb = q.to_uncompressed();
    assert_eq!(qb.len(), 192);
    assert!(G2Point::from_uncompressed(&qb).unwrap().equals(&q));
    assert!(G2Point::deserialize_with_mode(&q.serialize_with_mode(false), false).unwrap().equals(&q));
    assert_eq!(G2Point::from_uncompressed(&qb[..191]).err(), Some(SerializationError::InvalidData));
    assert_eq!(G2Point::from_compressed(&q.to_compressed()[..95]).err(), Some(SerializationError::InvalidData));
}

#[test]
fn scalar_from_bytes_errors() {
    let mut bytes = [0u8; 32];
    bytes[0] = 5;
    let s = Scalar::from_bytes(&bytes).unwrap();
    assert_eq!(s.limbs(), [5, 0, 0, 0]);
    assert_eq!(Scalar::from_bytes(&bytes[..31]).err(), Some(SerializationError::IoError));
    assert_eq!(Scalar::from_bytes(&[0xffu8; 32]).err(), Some(SerializationError::InvalidData));
}

#[test]
fn g2_generator_and_multiplication() {
    let g = G2Point::generator();
    let mut bytes = Vec::new();
    G2Affine::generator().serialize_compressed(&mut bytes).unwrap();
    assert_eq!(g.to_compressed(), bytes);
    let k = scalar(9);
    let mut expected = Vec::new();
    (G2Projective::generator() * Fr::from(9u64)).into_affine().serialize_compressed(&mut expected).unwrap();
    assert_eq!(g.mul(&k).to_compressed(), expected);
    let back = G2Point::from_compressed(&expected).unwrap();
    assert!(back.equals(&g.mul(&k)));
    assert!(!back.equals(&g));
}

#[test]
fn scalar_from_limbs_checks_the_modulus() {
    let r = [0xffffffff00000001u64, 0x53bda402fffe5bfe, 0x3339d80809a1d805, 0x73eda753299d7d48];
    assert!(Scalar::from_limbs(r).is_none());
    let mut below = r;
    below[0] -= 1;
    let s = Scalar::from_limbs(below).unwrap();
    assert_eq!(s.limbs(), below);
    assert!(Scalar::from_limbs([u64::MAX; 4]).is_none());
    assert!(Scalar::from_limbs([0; 4]).is_some());
}

#[test]
fn scalar_arithmetic_is_modular() {
    let a = scalar(5);
    let b = scalar(7);
    assert_eq!(a.mul(&b).limbs(), [35, 0, 0, 0]);
    // 5 - 7 = r - 2
    let d = a.sub(&b);
    assert_eq!(
        d.limbs(),
        [0xfffffffeffffffff, 0x53bda402fffe5bfe, 0x3339d80809a1d805, 0x73eda753299d7d48]
    );
    assert_eq!(fr_of(&d), Fr::from(5u64) - Fr::from(7u64));
    assert_eq!(b.sub(&a).limbs(), [2, 0, 0, 0]);
    let big = Scalar::from_limbs([3, 1, 0, 0]).unwrap();
    assert_eq!(fr_of(&big.mul(&big)), fr_of(&big) * fr_of(&big));
}

#[test]
fn scalar_bytes_are_little_endian() {
    let s = Scalar::from_limbs([0x0102030405060708, 0, 0, 0x1122334455667788]).unwrap();
    let b = s.to_bytes();
    assert_eq!(b.len(), 32);
    assert_eq!(&b[0..8], &[8, 7, 6, 5, 4, 3, 2, 1]);
    assert_eq!(&b[24..32], &[0x88, 0x77, 0x66, 0x55, 0x44, 0x33, 0x22, 0x11]);
    assert!(b[8..24].iter().all(|x| *x == 0));
}

#[test]
fn scalar_zeroize_and_equality() {
    let mut s = scalar(42);
    assert!(s.equals(&scalar(42)));
    assert!(!s.equals(&scalar(43)));
    s.zeroize();
    assert_eq!(s.limbs(), [0, 0, 0, 0]);
}

#[test]
fn sha256_of_abc() {
    let d = sha256(b"abc");
    let hex: String = d.iter().map(|b| format!("{:02x}", b)).collect();
    assert_eq!(hex, "ba7816bf8f01cfea414140de5dae2223b00361a396177a9cb410ff61f20015ad");
}

#[test]
fn hash_to_scalar_is_a_canonical_field_element() {
    let a = Scalar::hash_to_scalar(b"message");
    let b = Scalar::hash_to_scalar(b"message");
    let c = Scalar::hash_to_scalar(b"other message");
    assert!(a.equals(&b));
    assert!(!a.equals(&c));
    assert!(Scalar::from_limbs(a.limbs()).is_some());
    let hasher = <ark_ff::field_hashers::DefaultFieldHasher<sha2::Sha256> as ark_ff::field_hashers::HashToField<Fr>>::new(&[]);
    let expected: [Fr; 1] = hasher.hash_to_field::<1>(b"message");
    assert_eq!(expected[0].into_bigint().to_bytes_le(), fr_of(&a).into_bigint().to_bytes_le());
    let _ = G1Affine::generator();
}

#[test]
fn uncompressed_off_curve_pair_is_rejected() {
    // (4x, 8y) for a point (x, y) of G1 lies on y^2 = x^3 + 256, not on the
    // curve, yet it passes the subgroup check of the uncompressed decoding.
    let p = (G1Projective::generator() * Fr::from(77u64)).into_affine();
    let off = G1Affine::new_unchecked(p.x * Fq::from(4u64), p.y * Fq::from(8u64));
    let mut bytes = Vec::new();
    off.serialize_uncompressed(&mut bytes).unwrap();
    assert!(G1Affine::deserialize_uncompressed(&bytes[..]).is_ok());
    assert_eq!(G1Point::from_uncompressed(&bytes).err(), Some(SerializationError::InvalidData));
    assert_eq!(G1Point::deserialize_with_mode(&bytes, false).err(), Some(SerializationError::InvalidData));
    let q = (G2Projective::generator() * Fr::from(77u64)).into_affine();
    let off2 = G2Affine::new_unchecked(q.x * Fq2::from(4u64), q.y * Fq2::from(8u64));
    let mut bytes2 = Vec::new();
    off2.serialize_uncompressed(&mut bytes2).unwrap();
    assert!(G2Affine::deserialize_uncompressed(&bytes2[..]).is_ok());
    assert_eq!(G2Point::from_uncompressed(&bytes2).err(), Some(SerializationError::InvalidData));
}
