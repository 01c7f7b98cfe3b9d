use ark_bls12_381::{Fr, G1Projective};
use ark_ec::hashing::curve_maps::wb::WBMap;
use ark_ec::hashing::map_to_curve_hasher::MapToCurveBasedHasher;
use ark_ec::hashing::HashToCurve;
use ark_ff::field_hashers::DefaultFieldHasher;
use ark_ff::PrimeField;
use ark_serialize::CanonicalSerialize;
use sha2::Sha256;

use nugget_bls::double_nugget::{DoubleNuggetBLS, DoubleSignedMessage, NuggetDoublePublicKey};
use nugget_bls::double_nugget_glv::{DoubleNuggetBLSGLV, DoubleSignedMessageGLV, NuggetDoublePublicKeyGLV};
use nugget_bls::group::G1Point;
use nugget_bls::nugget::{Message, NuggetBLS, NuggetSignature, NuggetSignedMessage, SecretKeyVT};
use nugget_bls::scalar::Scalar;
use nugget_bls::triple_nugget::TripleNuggetBLS;

/// The message point of a context and a message, hashed to G1.
fn new_message(context: &[u8], message: &[u8]) -> Message {
    let hasher = MapToCurveBasedHasher::<
        G1Projective,
        DefaultFieldHasher<Sha256, 128>,
        WBMap<ark_bls12_381::g1::Config>,
    >::new(context)
    .unwrap();
    let point = hasher.hash(message).unwrap();
    let mut bytes = Vec::new();
    point.serialize_compressed(&mut bytes).unwrap();
    Message::from_point(G1Point::from_compressed(&bytes).unwrap())
}

fn generate_secret(seed: &[u8]) -> SecretKeyVT {
    let f = Fr::from_le_bytes_mod_order(seed);
    SecretKeyVT(Scalar::from_limbs(f.into_bigint().0).unwrap())
}

fn copy_signature(sig: &NuggetSignature) -> NuggetSignature {
    NuggetSignature::deserialize(&sig.serialize()).unwrap()
}

fn double_nugget_public_key_serialization_test(x: DoubleSignedMessage) -> DoubleSignedMessage {
    let NuggetSignedMessage { message, publickey, signature } = x;
    let publickey = NuggetDoublePublicKey::deserialize(&publickey.serialize()).unwrap();
    let signature = NuggetSignature::deserialize(&signature.serialize()).unwrap();
    NuggetSignedMessage { message, publickey, signature }
}

fn double_nugget_public_key_glv_serialization_test(x: DoubleSignedMessageGLV) -> DoubleSignedMessageGLV {
    let NuggetSignedMessage { message, publickey, signature } = x;
    let publickey = NuggetDoublePublicKeyGLV::deserialize(&publickey.serialize()).unwrap();
    let signature = NuggetSignature::deserialize(&signature.serialize()).unwrap();
    NuggetSignedMessage { message, publickey, signature }
}

#[test]
fn test_double_public_key_double_signature_serialization_for_bls12_381() {
    let mut keypair = generate_secret(b"keypair for the bls12-381 double key");
    let message = new_message(b"ctx", b"test message");
    let good_sig0 = keypair.sign(&message);

    let signed_message = DoubleSignedMessage {
        message,
        publickey: DoubleNuggetBLS::into_nugget_double_public_key(&keypair),
        signature: good_sig0,
    };

    assert!(signed_message.verify(), "valid double signed message should verify");

    let deserialized_signed_message = double_nugget_public_key_serialization_test(signed_message);

    assert!(
        deserialized_signed_message.verify(),
        "deserialized valid double signed message should verify"
    );
}

#[test]
fn test_single_bls_message_double_signature_scheme_for_bls12_381() {
    let good = new_message(b"ctx", b"test message");

    let mut keypair = generate_secret(b"keypair for the single message test");
    let public_key = DoubleNuggetBLS::into_nugget_double_public_key(&keypair);
    let good_sig = keypair.sign(&good);

    assert!(public_key.verify(&good, &good_sig), "Verification of a valid signature failed!");

    let bad = new_message(b"ctx", b"wrong message");
    let bad_sig = keypair.sign(&bad);

    assert!(bad_sig.verify(&bad, &DoubleNuggetBLS::into_nugget_double_public_key(&keypair)));

    assert!(!good.equals(&bad), "good == bad");
    assert!(!good_sig.0.equals(&bad_sig.0), "good sig == bad sig");

    assert!(
        !bad_sig.verify(&good, &DoubleNuggetBLS::into_nugget_double_public_key(&keypair)),
        "Verification of a signature on a different message passed!"
    );
    assert!(
        !good_sig.verify(&bad, &DoubleNuggetBLS::into_nugget_double_public_key(&keypair)),
        "Verification of a signature on a different message passed!"
    );
}

#[test]
fn test_double_public_key_glv_double_signature_serialization_for_bls12_381() {
    let mut keypair = generate_secret(b"keypair for the bls12-381 glv key");
    let message = new_message(b"ctx", b"test message");
    let good_sig0 = keypair.sign(&message);

    let signed_message = DoubleSignedMessageGLV {
        message,
        publickey: DoubleNuggetBLSGLV::into_nugget_double_public_key(&keypair),
        signature: good_sig0,
    };

    assert!(signed_message.verify(), "valid double signed message should verify");

    let deserialized_signed_message = double_nugget_public_key_glv_serialization_test(signed_message);

    assert!(
        deserialized_signed_message.verify(),
        "deserialized valid double signed message should verify"
    );
}

#[test]
fn test_single_bls_message_double_signature_scheme_glv_for_bls12_381() {
    let good = new_message(b"ctx", b"test message");

    let mut keypair = generate_secret(b"keypair for the glv message test");
    let public_key = DoubleNuggetBLSGLV::into_nugget_double_public_key(&keypair);
    let good_sig = keypair.sign(&good);

    assert!(public_key.verify(&good, &good_sig), "Verification of a valid signature failed!");

    let bad = new_message(b"ctx", b"wrong message");
    let bad_sig = keypair.sign(&bad);

    assert!(bad_sig.verify(&bad, &DoubleNuggetBLSGLV::into_nugget_double_public_key(&keypair)));

    assert!(!good.equals(&bad), "good == bad");
    assert!(!good_sig.0.equals(&bad_sig.0), "good sig == bad sig");

    assert!(
        !bad_sig.verify(&good, &DoubleNuggetBLSGLV::into_nugget_double_public_key(&keypair)),
        "Verification of a signature on a different message passed!"
    );
    assert!(
        !good_sig.verify(&bad, &DoubleNuggetBLSGLV::into_nugget_double_public_key(&keypair)),
        "Verification of a signature on a different message passed!"
    );
}

#[test]
fn test_single_bls_message_double_signature_triple_publickey_scheme_for_bls12_381_edwards() {
    let good = new_message(b"ctx", b"test message");

    let mut keypair = generate_secret(b"keypair for the triple key test");
    let public_key = keypair.into_nugget_triple_public_key();
    let good_sig = keypair.sign(&good);

    assert!(public_key.verify(&good, &good_sig), "Verification of a valid signature failed!");

    let bad = new_message(b"ctx", b"wrong message");
    let bad_sig = keypair.sign(&bad);

    assert!(bad_sig.verify(&bad, &keypair.into_nugget_triple_public_key()));

    assert!(!good.equals(&bad), "good == bad");
    assert!(!good_sig.0.equals(&bad_sig.0), "good sig == bad sig");

    assert!(
        !bad_sig.verify(&good, &keypair.into_nugget_triple_public_key()),
        "Verification of a signature on a different message passed!"
    );
    assert!(
        !copy_signature(&good_sig).verify(&bad, &keypair.into_nugget_triple_public_key()),
        "Verification of a signature on a different message passed!"
    );
}

#[test]
fn test_serialize_triple_public_key_for_bls12_381_sw() {
    let keypair = generate_secret(b"keypair for the sister key test");
    let deserialized_sister_public_key =
        G1Point::from_compressed(&keypair.into_public_key_in_sister_group().0.to_compressed())
            .unwrap();

    assert!(
        deserialized_sister_public_key.equals(&keypair.into_public_key_in_sister_group().0),
        "deserialized public key in the sister group should be the same as the original"
    );
}
