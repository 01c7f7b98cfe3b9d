//! BLS key pair with public keys in the signature group and in a sister group
//! of the same prime order, unaggregated BLS signatures accompanied by a
//! Chaum-Pedersen DLEQ proof. Here the sister group is G1, the signature group.
use vstd::prelude::*;

use crate::group::{g1_generator_encoding, g1_mul, g1_valid, g2_generator_encoding, g2_mul, g2_valid, G1Point, G2Point};
use crate::chaum_pedersen_signature::nugget_signature_valid;
use crate::group::{
    byte_window, failed_with, g1_read, g1_size, g1_write, read_window, succeeded_with,
    SerializationError,
};
use crate::scalar::{
    lemma_le_bytes_injective, limbs_le_bytes, scalar_canonical, scalar_from_le_bytes, scalar_read,
    Scalar,
};

verus! {

/// A message to sign, held by its point in the signature group (the point
/// the message hashes to).
#[derive(Debug)]
pub struct Message {
    point: G1Point,
}

impl View for Message {
    type V = Seq<u8>;

    closed spec fn view(&self) -> Seq<u8> {
        self.point@
    }
}

impl Clone for Message {
    fn clone(&self) -> (r: Message)
        ensures
            r@ == self@,
    {
        Message { point: self.point.clone() }
    }
}

impl Message {
    /// The message whose hash in the signature group is `point`.
    pub fn from_point(point: G1Point) -> (r: Message)
        requires
            g1_valid(point@),
        ensures
            r@ == point@,
    {
        Message { point }
    }

    /// The point of the message in the signature group.
    pub fn hash_to_signature_curve(&self) -> (r: G1Point)
        ensures
            r@ == self@,
    {
        self.point.clone()
    }

    /// Whether two messages are equal.
    pub fn equals(&self, other: &Message) -> (r: bool)
        ensures
            r == (self@ == other@),
    {
        self.point.equals(&other.point)
    }
}

/// A BLS public key: a point of G2.
#[derive(Debug)]
pub struct PublicKey(pub G2Point);

/// A BLS signature: a point of G1.
#[derive(Debug)]
pub struct Signature(pub G1Point);

/// Wrapper for a point in the signature group which is supposed to have the
/// same logarithm as the public key in the public key group.
#[derive(Debug)]
pub struct PublicKeyInSignatureGroup(pub G1Point);

/// Wrapper for a point in the sister group which is supposed to have the
/// same logarithm as the public key in the public key group.
#[derive(Debug)]
pub struct PublicKeyInSisterGroup(pub G1Point);

impl Clone for PublicKeyInSisterGroup {
    fn clone(&self) -> (r: Self)
        ensures
            r.0@ == self.0@,
    {
        PublicKeyInSisterGroup(self.0.clone())
    }
}

/// A DLEQ proof: the challenge `c` and the response `s`.
pub type SchnorrProof = (Scalar, Scalar);

/// Detached BLS signature containing a DLEQ proof.
#[derive(Debug)]
pub struct NuggetSignature(pub G1Point, pub SchnorrProof);

impl Clone for NuggetSignature {
    fn clone(&self) -> (r: NuggetSignature)
        ensures
            r.0@ == self.0@,
            r.1.0@ == self.1.0@,
            r.1.1@ == self.1.1@,
    {
        NuggetSignature(self.0.clone(), (self.1.0, self.1.1))
    }
}

/// A secret key: a scalar.
#[derive(Debug)]
pub struct SecretKeyVT(pub Scalar);

impl SecretKeyVT {
    /// The BLS public key: the generator of G2 times the secret.
    pub fn into_public(&self) -> (r: PublicKey)
        requires
            scalar_canonical(self.0@),
        ensures
            r.0@ == g2_mul(g2_generator_encoding(), self.0@),
            g2_valid(r.0@),
    {
        PublicKey(G2Point::generator().mul(&self.0))
    }

    /// The plain BLS signature of a message: its point times the secret.
    pub fn sign_bls(&self, message: &Message) -> (r: Signature)
        requires
            scalar_canonical(self.0@),
            g1_valid(message@),
        ensures
            r.0@ == g1_mul(message@, self.0@),
            g1_valid(r.0@),
    {
        Signature(message.hash_to_signature_curve().mul(&self.0))
    }
}


/// A public key with sub keys in the signature group, the BLS public key
/// group and the sister group.
pub trait NuggetPublicKey: Sized {
    /// The public key in the signature group.
    spec fn signature_group_key(&self) -> Seq<u8>;

    /// The BLS public key in G2.
    spec fn bls_key(&self) -> Seq<u8>;

    /// The public key in the sister group.
    spec fn sister_group_key(&self) -> Seq<u8>;

    /// The precomputed sum of the sister group's generator and public key.
    spec fn sister_gen_plus_key(&self) -> Seq<u8>;

    /// The sub keys are valid points.
    spec fn well_formed(&self) -> bool;

    fn into_public_key_in_signature_group(&self) -> (r: PublicKeyInSignatureGroup)
        requires
            self.well_formed(),
        ensures
            r.0@ == self.signature_group_key(),
            g1_valid(r.0@),
    ;

    fn into_bls_public_key(&self) -> (r: PublicKey)
        requires
            self.well_formed(),
        ensures
            r.0@ == self.bls_key(),
            g2_valid(r.0@),
    ;

    fn into_public_key_in_sister_group(&self) -> (r: PublicKeyInSisterGroup)
        requires
            self.well_formed(),
        ensures
            r.0@ == self.sister_group_key(),
            g1_valid(r.0@),
    ;

    fn sister_gen_plus_public_key(&self) -> (r: G1Point)
        requires
            self.well_formed(),
        ensures
            r@ == self.sister_gen_plus_key(),
            g1_valid(r@),
    ;
}


/// Secret keys of the nugget scheme.
pub trait NuggetBLS {
    /// The key holds a canonical secret.
    spec fn secret_value(&self) -> Seq<u64>;

    /// The public key in the signature group: the generator of G1 times the secret.
    fn into_public_key_in_signature_group(&self) -> (r: PublicKeyInSignatureGroup)
        requires
            scalar_canonical(self.secret_value()),
        ensures
            r.0@ == g1_mul(g1_generator_encoding(), self.secret_value()),
            g1_valid(r.0@),
    ;

    /// The public key in the sister group: its generator times the secret.
    fn into_public_key_in_sister_group(&self) -> (r: PublicKeyInSisterGroup)
        requires
            scalar_canonical(self.secret_value()),
        ensures
            r.0@ == g1_mul(g1_generator_encoding(), self.secret_value()),
            g1_valid(r.0@),
    ;
}

impl NuggetBLS for SecretKeyVT {
    open spec fn secret_value(&self) -> Seq<u64> {
        self.0@
    }

    fn into_public_key_in_signature_group(&self) -> (r: PublicKeyInSignatureGroup) {
        PublicKeyInSignatureGroup(G1Point::generator().mul(&self.0))
    }

    fn into_public_key_in_sister_group(&self) -> (r: PublicKeyInSisterGroup) {
        PublicKeyInSisterGroup(G1Point::generator().mul(&self.0))
    }
}

/// Message with attached BLS signature and DLEQ proof, and the public key.
#[derive(Debug, Clone)]
pub struct NuggetSignedMessage<P: NuggetPublicKey> {
    pub message: Message,
    pub publickey: P,
    pub signature: NuggetSignature,
}

impl<P: NuggetPublicKey> NuggetSignedMessage<P> {
    pub fn new(message: Message, publickey: P, signature: NuggetSignature) -> (r: Self)
        ensures
            r.message@ == message@,
            r.publickey == publickey,
            r.signature.0@ == signature.0@,
            r.signature.1.0@ == signature.1.0@,
            r.signature.1.1@ == signature.1.1@,
    {
        NuggetSignedMessage { message, publickey, signature }
    }

    /// Two signed messages are equal when their messages, their public keys
    /// in each group and their BLS signatures are.
    pub fn eq(&self, other: &Self) -> (r: bool)
        requires
            self.publickey.well_formed(),
            other.publickey.well_formed(),
        ensures
            r == (self.message@ == other.message@ && self.publickey.bls_key()
                == other.publickey.bls_key() && self.publickey.signature_group_key()
                == other.publickey.signature_group_key() && self.publickey.sister_group_key()
                == other.publickey.sister_group_key() && self.signature.0@ == other.signature.0@),
    {
        self.message.equals(&other.message) && self.publickey.into_bls_public_key().0.equals(
            &other.publickey.into_bls_public_key().0,
        ) && self.publickey.into_public_key_in_signature_group().0.equals(
            &other.publickey.into_public_key_in_signature_group().0,
        ) && self.publickey.into_public_key_in_sister_group().0.equals(
            &other.publickey.into_public_key_in_sister_group().0,
        ) && self.signature.0.equals(&other.signature.0)
    }

    /// The message with its BLS public key.
    pub fn messages_and_publickeys(&self) -> (r: (Message, PublicKey))
        requires
            self.publickey.well_formed(),
        ensures
            r.0@ == self.message@,
            r.1.0@ == self.publickey.bls_key(),
    {
        (self.message.clone(), self.publickey.into_bls_public_key())
    }

    /// The plain BLS signature.
    pub fn signature(&self) -> (r: Signature)
        ensures
            r.0@ == self.signature.0@,
    {
        Signature(self.signature.0.clone())
    }
}


/// The serialization of a signature: the signature point, compressed or
/// not, then the challenge and the response, 32 little-endian bytes each.
pub open spec fn nugget_signature_bytes(sig: Seq<u8>, c: Seq<u64>, s: Seq<u64>, compress: bool) -> Seq<u8> {
    g1_write(sig, compress) + limbs_le_bytes(c) + limbs_le_bytes(s)
}

/// Decoding of a serialized signature, read in order from the stream: a
/// checked point of G1 in the given mode, then two scalars below the
/// modulus from the next 32 bytes each; the first part that fails gives
/// the error, and later bytes are not read.
pub open spec fn nugget_signature_decode(b: Seq<u8>, compress: bool) -> Result<
    (Seq<u8>, Seq<u64>, Seq<u64>),
    SerializationError,
> {
    let n = g1_size(compress);
    match g1_read(byte_window(b, 0, n), compress) {
        Err(e) => Err(e),
        Ok(p) => match scalar_read(byte_window(b, n, 32)) {
            Err(e) => Err(e),
            Ok(c) => match scalar_read(byte_window(b, n + 32, 32)) {
                Err(e) => Err(e),
                Ok(s) => Ok((p, c, s)),
            },
        },
    }
}

impl NuggetSignature {
    /// Serializes the signature point, compressed or not, and the proof.
    pub fn serialize_with_mode(&self, compress: bool) -> (r: Vec<u8>)
        requires
            nugget_signature_valid(self),
        ensures
            r@ == nugget_signature_bytes(self.0@, self.1.0@, self.1.1@, compress),
            r@.len() == g1_size(compress) + 64,
    {
        let mut out = self.0.serialize_with_mode(compress);
        let mut c = self.1.0.to_bytes();
        let mut s = self.1.1.to_bytes();
        out.append(&mut c);
        out.append(&mut s);
        out
    }

    /// Serializes the signature point, compressed, and the proof.
    pub fn serialize(&self) -> (r: Vec<u8>)
        requires
            nugget_signature_valid(self),
        ensures
            r@ == nugget_signature_bytes(self.0@, self.1.0@, self.1.1@, true),
            r@.len() == 112,
    {
        self.serialize_with_mode(true)
    }

    /// Deserializes a signature in the given mode, checking the point and
    /// the scalars; the error is that of the first part that fails.
    pub fn deserialize_with_mode(b: &[u8], compress: bool) -> (r: Result<
        NuggetSignature,
        SerializationError,
    >)
        ensures
            r matches Ok(x) ==> succeeded_with(
                nugget_signature_decode(b@, compress),
                (x.0@, x.1.0@, x.1.1@),
            ) && nugget_signature_valid(&x),
            r matches Err(e) ==> failed_with(nugget_signature_decode(b@, compress), e),
    {
        let n: usize = if compress {
            48
        } else {
            96
        };
        let point = match G1Point::deserialize_with_mode(read_window(b, 0, n), compress) {
            Ok(p) => p,
            Err(e) => return Err(e),
        };
        let c = match Scalar::from_bytes(read_window(b, n, 32)) {
            Ok(c) => c,
            Err(e) => return Err(e),
        };
        let s = match Scalar::from_bytes(read_window(b, n + 32, 32)) {
            Ok(s) => s,
            Err(e) => return Err(e),
        };
        Ok(NuggetSignature(point, (c, s)))
    }

    /// Deserializes a compressed signature.
    pub fn deserialize(b: &[u8]) -> (r: Result<NuggetSignature, SerializationError>)
        ensures
            r matches Ok(x) ==> succeeded_with(
                nugget_signature_decode(b@, true),
                (x.0@, x.1.0@, x.1.1@),
            ) && nugget_signature_valid(&x),
            r matches Err(e) ==> failed_with(nugget_signature_decode(b@, true), e),
    {
        Self::deserialize_with_mode(b, true)
    }
}

/// Decoding a scalar's encoding gives the scalar back.
proof fn lemma_scalar_bytes_roundtrip(c: Seq<u64>)
    requires
        scalar_canonical(c),
    ensures
        scalar_from_le_bytes(limbs_le_bytes(c)) == Some(c),
{
    let w = choose|w: Seq<u64>| scalar_canonical(w) && limbs_le_bytes(w) == limbs_le_bytes(c);
    lemma_le_bytes_injective(w, c);
}

/// Deserializing a serialized signature gives it back: for every point
/// `S` of G1, scalars `c`, `s` and either mode, decoding the serialization
/// of `(S, (c, s))` gives `(S, c, s)`.
pub proof fn law_nugget_signature_roundtrip(sig: Seq<u8>, c: Seq<u64>, s: Seq<u64>, compress: bool)
    requires
        g1_valid(sig),
        scalar_canonical(c),
        scalar_canonical(s),
    ensures
        succeeded_with(
            nugget_signature_decode(nugget_signature_bytes(sig, c, s, compress), compress),
            (sig, c, s),
        ),
{
    let b = nugget_signature_bytes(sig, c, s, compress);
    let n = g1_size(compress);
    assert(byte_window(b, 0, n) =~= g1_write(sig, compress));
    assert(byte_window(b, n, 32) =~= limbs_le_bytes(c));
    assert(byte_window(b, n + 32, 32) =~= limbs_le_bytes(s));
    assert(limbs_le_bytes(c).subrange(0, 32) =~= limbs_le_bytes(c));
    assert(limbs_le_bytes(s).subrange(0, 32) =~= limbs_le_bytes(s));
    lemma_scalar_bytes_roundtrip(c);
    lemma_scalar_bytes_roundtrip(s);
}

} // verus!
