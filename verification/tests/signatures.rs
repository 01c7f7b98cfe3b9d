use ark_bls12_381::{Fr, G1Projective};
use ark_ec::{CurveGroup, PrimeGroup};
use ark_ff::PrimeField;
use ark_serialize::CanonicalSerialize;

use nugget_bls::chaum_pedersen_signature::{
    strauss_shamir_dual_scalar_multiplications, verify_cp_signature, ChaumPedersenVerifier,
};
use nugget_bls::double_nugget::{DoubleNuggetBLS, NuggetDoublePublicKey};
use nugget_bls::double_nugget_glv::{DoubleNuggetBLSGLV, NuggetDoublePublicKeyGLV};
use nugget_bls::group::{G1Point, G2Point, SerializationError};
use nugget_bls::nugget::{Message, NuggetBLS, NuggetSignature, NuggetSignedMessage, SecretKeyVT};
use nugget_bls::scalar::Scalar;
use nugget_bls::triple_nugget::TripleNuggetBLS;

fn to_point(p: G1Projective) -> G1Point {
    let mut bytes = Vec::new();
    p.into_affine().serialize_compressed(&mut bytes).unwrap();
    G1Point::from_compressed(&bytes).unwrap()
}

fn scalar_of(f: Fr) -> Scalar {
    Scalar::from_limbs(f.into_bigint().0).unwrap()
}

fn message(text: &[u8]) -> Message {
    let k = Fr::from_le_bytes_mod_order(text);
    Message::from_point(to_point(G1Projective::generator() * k))
}

fn secret() -> SecretKeyVT {
    SecretKeyVT(scalar_of(Fr::from_le_bytes_mod_order(b"a secret key for the tests here")))
}

#[test]
fn signature_verifies_with_double_public_key() {
    let mut sk = secret();
    let good = message(b"test message");
    let bad = message(b"wrong message");
    let public_key = DoubleNuggetBLS::into_nugget_double_public_key(&sk);
    let good_sig = sk.sign(&good);
    assert!(public_key.verify(&good, &good_sig), "Verification of a valid signature failed!");
    let bad_sig = sk.sign(&bad);
    assert!(bad_sig.verify(&bad, &public_key));
    assert!(!good.equals(&bad));
    assert!(!good_sig.0.equals(&bad_sig.0));
    assert!(!bad_sig.verify(&good, &public_key));
    assert!(!good_sig.verify(&bad, &public_key));
    assert!(public_key.verify_cp_signature_with_strauss_shamir_optimization(&good, &good_sig));
}

#[test]
fn signature_verifies_with_glv_public_key() {
    let mut sk = secret();
    let good = message(b"test message");
    let bad = message(b"wrong message");
    let public_key = DoubleNuggetBLSGLV::into_nugget_double_public_key(&sk);
    let good_sig = sk.sign(&good);
    assert!(public_key.verify(&good, &good_sig));
    assert!(!public_key.verify(&bad, &good_sig));
    assert_eq!(public_key.straus_sister_group_precomputed_points().len(), 256);
}

#[test]
fn signature_verifies_with_triple_public_key() {
    let mut sk = secret();
    let good = message(b"test message");
    let bad = message(b"wrong message");
    let public_key = sk.into_nugget_triple_public_key();
    let good_sig = sk.sign(&good);
    assert!(public_key.verify(&good, &good_sig));
    assert!(!public_key.verify(&bad, &good_sig));
    assert!(public_key.3.equals(&G1Point::generator().add(&public_key.2)));
}

#[test]
fn signature_from_another_key_fails() {
    let mut sk = secret();
    let mut other = SecretKeyVT(scalar_of(Fr::from(17u64)));
    let m = message(b"test message");
    let sig = other.sign(&m);
    let public_key = DoubleNuggetBLS::into_nugget_double_public_key(&sk);
    assert!(!public_key.verify(&m, &sig));
    let own = sk.sign(&m);
    assert!(public_key.verify(&m, &own));
    let pk_sig = sk.into_public_key_in_signature_group().0;
    let pk_sis = sk.into_public_key_in_sister_group().0;
    assert!(verify_cp_signature(&pk_sig, &pk_sis, &m, &own));
}

#[test]
fn tampered_proof_fails() {
    let mut sk = secret();
    let m = message(b"test message");
    let sig = sk.sign(&m);
    let public_key = DoubleNuggetBLS::into_nugget_double_public_key(&sk);
    let bumped = sig.1 .1.sub(&scalar_of(Fr::from(1u64)));
    let tampered = NuggetSignature(sig.0.clone(), (sig.1 .0.clone(), bumped));
    assert!(!public_key.verify(&m, &tampered));
}

#[test]
fn bls_signature_is_message_point_times_secret() {
    let mut sk = secret();
    let m = message(b"test message");
    let sig = sk.sign(&m);
    let x = Fr::from_le_bytes_mod_order(b"a secret key for the tests here");
    let mk = Fr::from_le_bytes_mod_order(b"test message");
    assert!(sig.0.equals(&to_point(G1Projective::generator() * (mk * x))));
}

#[test]
fn double_public_key_serialization_roundtrip() {
    let sk = secret();
    let public_key = DoubleNuggetBLS::into_nugget_double_public_key(&sk);
    let bytes = public_key.serialize();
    assert_eq!(bytes.len(), public_key.serialized_size(true));
    let back = NuggetDoublePublicKey::deserialize(&bytes).unwrap();
    assert!(back.0.equals(&public_key.0));
    assert!(back.1.equals(&public_key.1));
    assert!(back.2.equals(&public_key.2));
    assert_eq!(NuggetDoublePublicKey::deserialize(&bytes[..143]).err(), Some(SerializationError::InvalidData));
    assert_eq!(NuggetDoublePublicKey::deserialize(&bytes[..40]).err(), Some(SerializationError::InvalidData));
    let mut longer = bytes.clone();
    longer.push(7);
    assert!(NuggetDoublePublicKey::deserialize(&longer).is_ok());
    let mut bad = bytes.clone();
    bad[0] = 0xff;
    assert_eq!(NuggetDoublePublicKey::deserialize(&bad).err(), Some(SerializationError::InvalidData));
    // The second key fails: its error is returned.
    let mut bad_second = bytes.clone();
    bad_second[48] &= 0x5f;
    assert_eq!(NuggetDoublePublicKey::deserialize(&bad_second).err(), Some(SerializationError::UnexpectedFlags));
    // Uncompressed mode.
    let raw = public_key.serialize_with_mode(false);
    assert_eq!(raw.len(), 288);
    assert_eq!(raw.len(), public_key.serialized_size(false));
    assert_eq!(raw[..96].to_vec(), public_key.0.to_uncompressed());
    assert_eq!(raw[96..].to_vec(), public_key.1.to_uncompressed());
    let back = NuggetDoublePublicKey::deserialize_with_mode(&raw, false).unwrap();
    assert!(back.0.equals(&public_key.0));
    assert!(back.1.equals(&public_key.1));
    assert!(NuggetDoublePublicKey::deserialize_with_mode(&bytes, false).is_err());
    assert!(NuggetDoublePublicKey::deserialize_with_mode(&raw, true).is_err());
}

#[test]
fn glv_public_key_serialization_roundtrip() {
    let mut sk = secret();
    let public_key = DoubleNuggetBLSGLV::into_nugget_double_public_key(&sk);
    let bytes = public_key.serialize();
    assert_eq!(bytes.len(), 144);
    assert_eq!(bytes.len(), public_key.serialized_size(true));
    let back = NuggetDoublePublicKeyGLV::deserialize(&bytes).unwrap();
    assert!(back.public_key_in_signature_group.equals(&public_key.public_key_in_signature_group));
    assert!(back.public_key.equals(&public_key.public_key));
    let m = message(b"test message");
    let sig = sk.sign(&m);
    assert!(back.verify(&m, &sig));
    assert_eq!(NuggetDoublePublicKeyGLV::deserialize(&bytes[..100]).err(), Some(SerializationError::InvalidData));
    let raw = public_key.serialize_with_mode(false);
    assert_eq!(raw.len(), public_key.serialized_size(false));
    let back = NuggetDoublePublicKeyGLV::deserialize_with_mode(&raw, false).unwrap();
    assert!(back.public_key_in_signature_group.equals(&public_key.public_key_in_signature_group));
    assert!(back.verify(&m, &sig));
}

#[test]
fn signed_message_verifies_and_compares() {
    let mut sk = secret();
    let m = message(b"test message");
    let sig = sk.sign(&m);
    let signed = NuggetSignedMessage::new(m.clone(), DoubleNuggetBLS::into_nugget_double_public_key(&sk), sig);
    assert!(signed.verify(), "valid double signed message should verify");
    let bytes = signed.publickey.serialize();
    let again = NuggetSignedMessage::new(
        m.clone(),
        NuggetDoublePublicKey::deserialize(&bytes).unwrap(),
        NuggetSignature(signed.signature.0.clone(), (signed.signature.1 .0.clone(), signed.signature.1 .1.clone())),
    );
    assert!(again.verify(), "deserialized valid double signed message should verify");
    assert!(signed.eq(&again));
    let (msg, pk) = signed.messages_and_publickeys();
    assert!(msg.equals(&m));
    assert!(pk.0.equals(&signed.publickey.1));
    assert!(signed.signature().0.equals(&signed.signature.0));
    let other_sig = sk.sign(&message(b"other"));
    let different = NuggetSignedMessage::new(m.clone(), DoubleNuggetBLS::into_nugget_double_public_key(&sk), other_sig);
    assert!(!signed.eq(&different));
}

#[test]
fn sister_public_key_roundtrip() {
    let sk = secret();
    let pk = sk.into_public_key_in_sister_group().0;
    let back = G1Point::from_compressed(&pk.to_compressed()).unwrap();
    assert!(back.equals(&pk), "deserialized public key in the sister group should be the same as the original");
    let g2 = sk.into_public().0;
    assert!(G2Point::from_compressed(&g2.to_compressed()).unwrap().equals(&g2));
}

#[test]
fn interleaved_sum_with_precomputed_generator_plus_key() {
    let sk = secret();
    let public_key = sk.into_nugget_triple_public_key();
    let g = G1Projective::generator();
    let x = Fr::from_le_bytes_mod_order(b"a secret key for the tests here");
    let pk = g * x;
    // s = 3 (bits 11) and c = 1 (bits 01).
    let r = public_key.strauss_shamir_dual_scalar_multiplications(&scalar_of(Fr::from(3u64)), &scalar_of(Fr::from(1u64)));
    assert!(r.equals(&to_point(g * Fr::from(3u64) + pk)));
    // s = 2, c = 0: the clear pair at bit 0 still doubles.
    let r = strauss_shamir_dual_scalar_multiplications(
        &public_key.2,
        &public_key.3,
        &scalar_of(Fr::from(2u64)),
        &scalar_of(Fr::from(0u64)),
    );
    assert!(r.equals(&G1Point::generator().double()));
    // s = 4, c = 1: clear pairs below the top bit.
    let r = public_key.strauss_shamir_dual_scalar_multiplications(&scalar_of(Fr::from(4u64)), &scalar_of(Fr::from(1u64)));
    assert!(r.equals(&to_point(g * Fr::from(4u64) + pk)));
    // A large pair of scalars.
    let s = Fr::from_le_bytes_mod_order(b"response scalar for the tests!!");
    let c = Fr::from_le_bytes_mod_order(b"challenge scalar for the tests!");
    let r = public_key.strauss_shamir_dual_scalar_multiplications(&scalar_of(s), &scalar_of(c));
    assert!(r.equals(&to_point(g * s + pk * c)));
    // Both zero: the identity.
    let zero = scalar_of(Fr::from(0u64));
    let r = public_key.strauss_shamir_dual_scalar_multiplications(&zero, &zero);
    assert!(r.equals(&G1Point::identity()));
}

#[test]
fn signature_serialization_roundtrip() {
    let mut sk = secret();
    let m = message(b"test message");
    let sig = sk.sign(&m);
    let bytes = sig.serialize();
    assert_eq!(bytes.len(), 112);
    let back = NuggetSignature::deserialize(&bytes).unwrap();
    assert!(back.0.equals(&sig.0));
    assert!(back.1 .0.equals(&sig.1 .0));
    assert!(back.1 .1.equals(&sig.1 .1));
    let public_key = DoubleNuggetBLS::into_nugget_double_public_key(&sk);
    assert!(public_key.verify(&m, &back));
    assert_eq!(NuggetSignature::deserialize(&bytes[..111]).err(), Some(SerializationError::IoError));
    assert_eq!(NuggetSignature::deserialize(&bytes[..20]).err(), Some(SerializationError::InvalidData));
    let mut bad = bytes.clone();
    for b in bad[48..80].iter_mut() {
        *b = 0xff;
    }
    assert_eq!(NuggetSignature::deserialize(&bad).err(), Some(SerializationError::InvalidData));
    let raw = sig.serialize_with_mode(false);
    assert_eq!(raw.len(), 160);
    let back = NuggetSignature::deserialize_with_mode(&raw, false).unwrap();
    assert!(back.0.equals(&sig.0));
    assert!(back.1 .0.equals(&sig.1 .0));
    assert!(back.1 .1.equals(&sig.1 .1));
}

#[test]
fn triple_public_key_serialization_roundtrip() {
    let mut sk = secret();
    let public_key = sk.into_nugget_triple_public_key();
    let bytes = public_key.serialize();
    assert_eq!(bytes.len(), 240);
    let back = nugget_bls::triple_nugget::NuggetTriplePublicKey::deserialize(&bytes).unwrap();
    assert!(back.0.equals(&public_key.0));
    assert!(back.1.equals(&public_key.1));
    assert!(back.2.equals(&public_key.2));
    assert!(back.3.equals(&public_key.3));
    let m = message(b"test message");
    let sig = sk.sign(&m);
    assert!(back.verify(&m, &sig));
    assert_eq!(
        nugget_bls::triple_nugget::NuggetTriplePublicKey::deserialize(&bytes[..239]).err(),
        Some(SerializationError::InvalidData)
    );
    let raw = public_key.serialize_with_mode(false);
    assert_eq!(raw.len(), 480);
    let back = nugget_bls::triple_nugget::NuggetTriplePublicKey::deserialize_with_mode(&raw, false).unwrap();
    assert!(back.2.equals(&public_key.2));
    assert!(back.3.equals(&public_key.3));
}

#[test]
fn double_signed_message_alias() {
    let mut sk = secret();
    let m = message(b"test message");
    let sig = sk.sign(&m);
    let signed: nugget_bls::double_nugget::DoubleSignedMessage =
        NuggetSignedMessage::new(m, DoubleNuggetBLS::into_nugget_double_public_key(&sk), sig);
    assert!(signed.verify());
    let m2 = message(b"test message");
    let sig2 = sk.sign(&m2);
    let signed_glv: nugget_bls::double_nugget_glv::DoubleSignedMessageGLV =
        NuggetSignedMessage::new(m2, DoubleNuggetBLSGLV::into_nugget_double_public_key(&sk), sig2);
    assert!(signed_glv.verify());
    assert!(signed_glv.signature().0.equals(&signed.signature().0));
}

#[test]
fn double_public_key_precomputed_sum() {
    let sk = secret();
    let public_key = DoubleNuggetBLS::into_nugget_double_public_key(&sk);
    let pre = public_key.straus_sister_group_precomputed_points();
    assert_eq!(pre.len(), 1);
    assert!(pre[0].equals(&G1Point::generator().add(&public_key.0)));
    let s = scalar_of(Fr::from(1234567u64));
    let c = scalar_of(Fr::from(7654321u64));
    let with_table = nugget_bls::dual_scalar_mul::straus_dual_scalar_mul(&s, &c, &G1Point::generator(), &public_key.0, Some(pre));
    let without = nugget_bls::dual_scalar_mul::straus_dual_scalar_mul(&s, &c, &G1Point::generator(), &public_key.0, None);
    assert!(with_table.equals(&without));
    let x = Fr::from_le_bytes_mod_order(b"a secret key for the tests here");
    let expected = to_point(G1Projective::generator() * (Fr::from(1234567u64) + Fr::from(7654321u64) * x));
    assert!(with_table.equals(&expected));
}

#[test]
fn cloned_keys_keep_precomputed_points() {
    let sk = secret();
    let public_key = DoubleNuggetBLS::into_nugget_double_public_key(&sk);
    let copy = public_key.clone();
    assert!(copy.straus_sister_group_precomputed_points()[0].equals(&public_key.straus_sister_group_precomputed_points()[0]));
    assert!(copy.0.equals(&public_key.0));
    assert!(copy.1.equals(&public_key.1));
    let glv = DoubleNuggetBLSGLV::into_nugget_double_public_key(&sk);
    let glv_copy = glv.clone();
    let a = glv.straus_sister_group_precomputed_points();
    let b = glv_copy.straus_sister_group_precomputed_points();
    assert_eq!(a.len(), b.len());
    for k in 0..a.len() {
        assert!(a[k].equals(&b[k]));
    }
    let triple = sk.into_nugget_triple_public_key();
    let triple_copy = triple.clone();
    assert!(triple_copy.3.equals(&triple.3));
}
