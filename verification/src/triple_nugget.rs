//! BLS public key with sub keys in G1, G2 and a sister group of the same
//! prime order (here G1 again), with the sister generator plus public key
//! precomputed for the Strauss-Shamir speed up.
use vstd::prelude::*;

use crate::chaum_pedersen_signature::{cp_verifies, nugget_signature_valid, ChaumPedersenVerifier};
use crate::group::{
    byte_window, failed_with, g1_add, g1_generator_encoding, g1_mul, g1_read, g1_size, g1_valid,
    g1_write, g2_generator_encoding, g2_mul, g2_read, g2_size, g2_valid, g2_write, read_window,
    succeeded_with, G1Point, G2Point, SerializationError,
};
use crate::nugget::{
    Message, NuggetBLS, NuggetPublicKey, NuggetSignature, PublicKey, PublicKeyInSignatureGroup,
    PublicKeyInSisterGroup, SecretKeyVT,
};
use crate::scalar::scalar_canonical;

verus! {

/// BLS Public Key with sub keys in G1, G2 and the sister group, and the
/// sister group's generator plus public key.
#[derive(Debug)]
pub struct NuggetTriplePublicKey(pub G1Point, pub G2Point, pub G1Point, pub G1Point);

impl Clone for NuggetTriplePublicKey {
    fn clone(&self) -> (r: Self)
        ensures
            r.0@ == self.0@,
            r.1@ == self.1@,
            r.2@ == self.2@,
            r.3@ == self.3@,
    {
        NuggetTriplePublicKey(self.0.clone(), self.1.clone(), self.2.clone(), self.3.clone())
    }
}

impl NuggetPublicKey for NuggetTriplePublicKey {
    open spec fn signature_group_key(&self) -> Seq<u8> {
        self.0@
    }

    open spec fn bls_key(&self) -> Seq<u8> {
        self.1@
    }

    open spec fn sister_group_key(&self) -> Seq<u8> {
        self.2@
    }

    open spec fn sister_gen_plus_key(&self) -> Seq<u8> {
        self.3@
    }

    open spec fn well_formed(&self) -> bool {
        g1_valid(self.0@) && g2_valid(self.1@) && g1_valid(self.2@) && g1_valid(self.3@)
    }

    fn into_public_key_in_signature_group(&self) -> (r: PublicKeyInSignatureGroup) {
        PublicKeyInSignatureGroup(self.0.clone())
    }

    fn into_bls_public_key(&self) -> (r: PublicKey) {
        PublicKey(self.1.clone())
    }

    fn into_public_key_in_sister_group(&self) -> (r: PublicKeyInSisterGroup) {
        PublicKeyInSisterGroup(self.2.clone())
    }

    fn sister_gen_plus_public_key(&self) -> (r: G1Point) {
        self.3.clone()
    }
}

impl ChaumPedersenVerifier for NuggetTriplePublicKey {

}

/// The serialization of a triple public key: its four points in order,
/// compressed or not.
pub open spec fn triple_public_key_bytes(
    a: Seq<u8>,
    b: Seq<u8>,
    c: Seq<u8>,
    d: Seq<u8>,
    compress: bool,
) -> Seq<u8> {
    g1_write(a, compress) + g2_write(b, compress) + g1_write(c, compress) + g1_write(d, compress)
}

/// Decoding of a serialized triple public key, read in order from the
/// stream: four checked points (G1, G2, then the sister group twice) in
/// the given mode; the first part that fails gives the error, and later
/// bytes are not read.
pub open spec fn triple_public_key_decode(bytes: Seq<u8>, compress: bool) -> Result<
    (Seq<u8>, Seq<u8>, Seq<u8>, Seq<u8>),
    SerializationError,
> {
    let n1 = g1_size(compress);
    let n2 = g2_size(compress);
    match g1_read(byte_window(bytes, 0, n1), compress) {
        Err(e) => Err(e),
        Ok(a) => match g2_read(byte_window(bytes, n1, n2), compress) {
            Err(e) => Err(e),
            Ok(b) => match g1_read(byte_window(bytes, n1 + n2, n1), compress) {
                Err(e) => Err(e),
                Ok(c) => match g1_read(byte_window(bytes, 2 * n1 + n2, n1), compress) {
                    Err(e) => Err(e),
                    Ok(d) => Ok((a, b, c, d)),
                },
            },
        },
    }
}

impl NuggetTriplePublicKey {
    /// Serializes the four points, compressed or not.
    pub fn serialize_with_mode(&self, compress: bool) -> (r: Vec<u8>)
        requires
            self.well_formed(),
        ensures
            r@ == triple_public_key_bytes(self.0@, self.1@, self.2@, self.3@, compress),
            r@.len() == 3 * g1_size(compress) + g2_size(compress),
    {
        let mut out = self.0.serialize_with_mode(compress);
        let mut b = self.1.serialize_with_mode(compress);
        let mut c = self.2.serialize_with_mode(compress);
        let mut d = self.3.serialize_with_mode(compress);
        out.append(&mut b);
        out.append(&mut c);
        out.append(&mut d);
        out
    }

    /// Serializes the four points, compressed.
    pub fn serialize(&self) -> (r: Vec<u8>)
        requires
            self.well_formed(),
        ensures
            r@ == triple_public_key_bytes(self.0@, self.1@, self.2@, self.3@, true),
            r@.len() == 240,
    {
        self.serialize_with_mode(true)
    }

    /// Deserializes the four points in the given mode, checking each; the
    /// error is that of the first point that fails.
    pub fn deserialize_with_mode(bytes: &[u8], compress: bool) -> (r: Result<
        Self,
        SerializationError,
    >)
        ensures
            r matches Ok(k) ==> succeeded_with(
                triple_public_key_decode(bytes@, compress),
                (k.0@, k.1@, k.2@, k.3@),
            ) && k.well_formed(),
            r matches Err(e) ==> failed_with(triple_public_key_decode(bytes@, compress), e),
    {
        let n1: usize = if compress {
            48
        } else {
            96
        };
        let n2: usize = if compress {
            96
        } else {
            192
        };
        let a = match G1Point::deserialize_with_mode(read_window(bytes, 0, n1), compress) {
            Ok(p) => p,
            Err(e) => return Err(e),
        };
        let b = match G2Point::deserialize_with_mode(read_window(bytes, n1, n2), compress) {
            Ok(p) => p,
            Err(e) => return Err(e),
        };
        let c = match G1Point::deserialize_with_mode(read_window(bytes, n1 + n2, n1), compress) {
            Ok(p) => p,
            Err(e) => return Err(e),
        };
        let d = match G1Point::deserialize_with_mode(
            read_window(bytes, 2 * n1 + n2, n1),
            compress,
        ) {
            Ok(p) => p,
            Err(e) => return Err(e),
        };
        Ok(NuggetTriplePublicKey(a, b, c, d))
    }

    /// Deserializes the four points, compressed.
    pub fn deserialize(bytes: &[u8]) -> (r: Result<Self, SerializationError>)
        ensures
            r matches Ok(k) ==> succeeded_with(
                triple_public_key_decode(bytes@, true),
                (k.0@, k.1@, k.2@, k.3@),
            ) && k.well_formed(),
            r matches Err(e) ==> failed_with(triple_public_key_decode(bytes@, true), e),
    {
        Self::deserialize_with_mode(bytes, true)
    }

    /// Verifies a signature with its DLEQ proof against this key.
    pub fn verify(&self, message: &Message, signature: &NuggetSignature) -> (r: bool)
        requires
            self.well_formed(),
            g1_valid(message@),
            nugget_signature_valid(signature),
        ensures
            r == cp_verifies(
                self.0@,
                self.2@,
                message@,
                signature.0@,
                signature.1.0@,
                signature.1.1@,
            ),
    {
        signature.verify(message, self)
    }
}

/// Keys that give a triple public key.
pub trait TripleNuggetBLS {
    /// The key can give its public keys.
    spec fn key_well_formed(&self) -> bool;

    /// Return a triple public object containing public keys in G1, G2 and
    /// the sister group.
    fn into_nugget_triple_public_key(&self) -> (r: NuggetTriplePublicKey)
        requires
            self.key_well_formed(),
        ensures
            r.well_formed(),
    ;
}

impl TripleNuggetBLS for SecretKeyVT {
    open spec fn key_well_formed(&self) -> bool {
        scalar_canonical(self.0@)
    }

    /// The triple public key of the secret `x`: `G1*x`, `G2*x`, `S*x` and
    /// `S + S*x`, with `S` the sister group's generator.
    fn into_nugget_triple_public_key(&self) -> (r: NuggetTriplePublicKey)
        ensures
            r.0@ == g1_mul(g1_generator_encoding(), self.0@),
            r.1@ == g2_mul(g2_generator_encoding(), self.0@),
            r.2@ == g1_mul(g1_generator_encoding(), self.0@),
            r.3@ == g1_add(g1_generator_encoding(), g1_mul(g1_generator_encoding(), self.0@)),
    {
        NuggetTriplePublicKey(
            self.into_public_key_in_signature_group().0,
            self.into_public().0,
            self.into_public_key_in_sister_group().0,
            G1Point::generator().add(&self.into_public_key_in_sister_group().0),
        )
    }
}


/// Deserializing a serialized triple public key gives back its four points,
/// in either mode.
pub proof fn law_triple_public_key_roundtrip(
    a: Seq<u8>,
    b: Seq<u8>,
    c: Seq<u8>,
    d: Seq<u8>,
    compress: bool,
)
    requires
        g1_valid(a),
        g2_valid(b),
        g1_valid(c),
        g1_valid(d),
    ensures
        succeeded_with(
            triple_public_key_decode(triple_public_key_bytes(a, b, c, d, compress), compress),
            (a, b, c, d),
        ),
{
    let bytes = triple_public_key_bytes(a, b, c, d, compress);
    let n1 = g1_size(compress);
    let n2 = g2_size(compress);
    assert(byte_window(bytes, 0, n1) =~= g1_write(a, compress));
    assert(byte_window(bytes, n1, n2) =~= g2_write(b, compress));
    assert(byte_window(bytes, n1 + n2, n1) =~= g1_write(c, compress));
    assert(byte_window(bytes, 2 * n1 + n2, n1) =~= g1_write(d, compress));
}

} // verus!
