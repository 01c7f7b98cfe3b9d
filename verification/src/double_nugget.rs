//! BLS public key with sub keys in both G1 and G2: the case of the nugget
//! scheme where the sister group is G1, the signature group.
use vstd::prelude::*;

use crate::chaum_pedersen_signature::{cp_verifies, nugget_signature_valid, ChaumPedersenVerifier};
use crate::group::{
    byte_window, failed_with, g1_add, g1_generator_encoding, g1_mul, g1_read, g1_size, g1_valid,
    g1_write, g2_generator_encoding, g2_mul, g2_read, g2_size, g2_valid, g2_write, read_window,
    succeeded_with, G1Point, G2Point, SerializationError,
};
use crate::nugget::{
    Message, NuggetBLS, NuggetPublicKey, NuggetSignature, NuggetSignedMessage, PublicKey, PublicKeyInSignatureGroup,
    PublicKeyInSisterGroup, SecretKeyVT,
};
use crate::scalar::scalar_canonical;

verus! {

/// BLS Public Key with sub keys in both groups. It also stores the signature
/// group generator plus public key for the Strauss-Shamir speed up; that sum
/// is not serialized.
#[derive(Debug)]
pub struct NuggetDoublePublicKey(pub G1Point, pub G2Point, pub G1Point);

impl Clone for NuggetDoublePublicKey {
    fn clone(&self) -> (r: Self)
        ensures
            r.0@ == self.0@,
            r.1@ == self.1@,
            r.2@ == self.2@,
    {
        NuggetDoublePublicKey(self.0.clone(), self.1.clone(), self.2.clone())
    }
}

/// Length of a serialized double public key: a point of G1 and a point of
/// G2, compressed or not.
pub open spec fn double_public_key_size(compress: bool) -> int {
    g1_size(compress) + g2_size(compress)
}

/// The serialization of a double public key: its two keys, compressed or
/// not, and not the precomputed sum.
pub open spec fn double_public_key_bytes(p: Seq<u8>, q: Seq<u8>, compress: bool) -> Seq<u8> {
    g1_write(p, compress) + g2_write(q, compress)
}

/// A one-element slice holding the referenced value (`core::slice::from_ref`).
#[verifier::external_body]
fn slice_from_ref<T>(x: &T) -> (r: &[T])
    ensures
        r@ == seq![*x],
{
    core::slice::from_ref(x)
}

/// Decoding of a serialized double public key, read in order from the
/// stream: a point of G1, then a point of G2, both checked and both in the
/// given mode; the first part that fails gives the error, and later bytes
/// are not read.
pub open spec fn double_public_key_decode(bytes: Seq<u8>, compress: bool) -> Result<
    (Seq<u8>, Seq<u8>),
    SerializationError,
> {
    match g1_read(byte_window(bytes, 0, g1_size(compress)), compress) {
        Err(e) => Err(e),
        Ok(a) => match g2_read(byte_window(bytes, g1_size(compress), g2_size(compress)), compress) {
            Err(e) => Err(e),
            Ok(b) => Ok((a, b)),
        },
    }
}

impl NuggetDoublePublicKey {
    /// The precomputed sum of the generator and the public key in the
    /// signature group.
    pub open spec fn gen_plus_key(&self) -> Seq<u8> {
        self.2@
    }

    /// The public key in the signature group.
    pub open spec fn sig_key(&self) -> Seq<u8> {
        self.0@
    }

    /// The BLS public key in G2.
    pub open spec fn pk_key(&self) -> Seq<u8> {
        self.1@
    }

    /// Creates a new NuggetDoublePublicKey from the public key components.
    /// The third element (gen + public_key) is computed automatically for
    /// the Strauss-Shamir optimization.
    pub fn new(public_key_in_signature_group: G1Point, public_key: G2Point) -> (r: Self)
        requires
            g1_valid(public_key_in_signature_group@),
            g2_valid(public_key@),
        ensures
            r.sig_key() == public_key_in_signature_group@,
            r.pk_key() == public_key@,
            r.gen_plus_key() == g1_add(g1_generator_encoding(), public_key_in_signature_group@),
            g1_valid(r.gen_plus_key()),
    {
        let gen_plus_public_key = G1Point::generator().add(&public_key_in_signature_group);
        NuggetDoublePublicKey(public_key_in_signature_group, public_key, gen_plus_public_key)
    }

    /// Serializes the two public keys, compressed or not, and not the
    /// precomputed sum.
    pub fn serialize_with_mode(&self, compress: bool) -> (r: Vec<u8>)
        requires
            g1_valid(self.0@),
            g2_valid(self.1@),
        ensures
            r@ == double_public_key_bytes(self.0@, self.1@, compress),
            r@.len() == double_public_key_size(compress),
    {
        let mut out = self.0.serialize_with_mode(compress);
        let mut tail = self.1.serialize_with_mode(compress);
        out.append(&mut tail);
        out
    }

    /// Serializes the two public keys, compressed.
    pub fn serialize(&self) -> (r: Vec<u8>)
        requires
            g1_valid(self.0@),
            g2_valid(self.1@),
        ensures
            r@ == double_public_key_bytes(self.0@, self.1@, true),
            r@.len() == double_public_key_size(true),
    {
        self.serialize_with_mode(true)
    }

    /// The size of the serialization in the given mode.
    pub fn serialized_size(&self, compress: bool) -> (r: usize)
        ensures
            r == double_public_key_size(compress),
    {
        if compress {
            48 + 96
        } else {
            96 + 192
        }
    }

    /// Deserializes the two public keys in the given mode, checking that
    /// they are points of their groups, and recomputes the precomputed sum;
    /// the error is that of the first key that fails, and bytes after the
    /// two keys are not read.
    pub fn deserialize_with_mode(bytes: &[u8], compress: bool) -> (r: Result<
        Self,
        SerializationError,
    >)
        ensures
            r matches Ok(k) ==> succeeded_with(
                double_public_key_decode(bytes@, compress),
                (k.0@, k.1@),
            ) && k.2@ == g1_add(g1_generator_encoding(), k.0@) && k.well_formed(),
            r matches Err(e) ==> failed_with(double_public_key_decode(bytes@, compress), e),
    {
        let g1_len: usize = if compress {
            48
        } else {
            96
        };
        let g2_len: usize = if compress {
            96
        } else {
            192
        };
        let public_key_in_signature_group = match G1Point::deserialize_with_mode(
            read_window(bytes, 0, g1_len),
            compress,
        ) {
            Ok(p) => p,
            Err(e) => return Err(e),
        };
        let public_key = match G2Point::deserialize_with_mode(
            read_window(bytes, g1_len, g2_len),
            compress,
        ) {
            Ok(p) => p,
            Err(e) => return Err(e),
        };
        Ok(Self::new(public_key_in_signature_group, public_key))
    }

    /// Deserializes the two public keys, compressed.
    pub fn deserialize(bytes: &[u8]) -> (r: Result<Self, SerializationError>)
        ensures
            r matches Ok(k) ==> succeeded_with(double_public_key_decode(bytes@, true), (k.0@, k.1@))
                && k.2@ == g1_add(g1_generator_encoding(), k.0@) && k.well_formed(),
            r matches Err(e) ==> failed_with(double_public_key_decode(bytes@, true), e),
    {
        Self::deserialize_with_mode(bytes, true)
    }

    /// The precomputed points handed to the Strauss-Shamir multiplication:
    /// the sum of the generator and the public key.
    pub fn straus_sister_group_precomputed_points(&self) -> (r: &[G1Point])
        ensures
            r@.len() == 1,
            r@[0]@ == self.gen_plus_key(),
    {
        slice_from_ref(&self.2)
    }
}

impl NuggetPublicKey for NuggetDoublePublicKey {
    open spec fn signature_group_key(&self) -> Seq<u8> {
        self.sig_key()
    }

    open spec fn bls_key(&self) -> Seq<u8> {
        self.pk_key()
    }

    open spec fn sister_group_key(&self) -> Seq<u8> {
        self.sig_key()
    }

    open spec fn sister_gen_plus_key(&self) -> Seq<u8> {
        self.gen_plus_key()
    }

    open spec fn well_formed(&self) -> bool {
        g1_valid(self.sig_key()) && g2_valid(self.pk_key()) && g1_valid(self.gen_plus_key())
    }

    fn into_public_key_in_signature_group(&self) -> (r: PublicKeyInSignatureGroup) {
        PublicKeyInSignatureGroup(self.0.clone())
    }

    fn into_bls_public_key(&self) -> (r: PublicKey) {
        PublicKey(self.1.clone())
    }

    fn into_public_key_in_sister_group(&self) -> (r: PublicKeyInSisterGroup) {
        PublicKeyInSisterGroup(self.0.clone())
    }

    fn sister_gen_plus_public_key(&self) -> (r: G1Point) {
        self.2.clone()
    }
}

impl ChaumPedersenVerifier for NuggetDoublePublicKey {

}

impl NuggetDoublePublicKey {
    /// Verifies a signature with its DLEQ proof against this key.
    pub fn verify(&self, message: &Message, signature: &NuggetSignature) -> (r: bool)
        requires
            self.well_formed(),
            g1_valid(message@),
            nugget_signature_valid(signature),
        ensures
            r == cp_verifies(
                self.sig_key(),
                self.sig_key(),
                message@,
                signature.0@,
                signature.1.0@,
                signature.1.1@,
            ),
    {
        signature.verify(message, self)
    }
}

/// Message with attached BLS signature and double public key.
pub type DoubleSignedMessage = NuggetSignedMessage<NuggetDoublePublicKey>;

/// Keys that give a double public key.
pub trait DoubleNuggetBLS {
    /// The key can give its public keys.
    spec fn key_well_formed(&self) -> bool;

    /// Return a double public object containing public keys both in G1 and G2.
    fn into_nugget_double_public_key(&self) -> (r: NuggetDoublePublicKey)
        requires
            self.key_well_formed(),
        ensures
            r.well_formed(),
    ;
}

impl DoubleNuggetBLS for SecretKeyVT {
    open spec fn key_well_formed(&self) -> bool {
        scalar_canonical(self.0@)
    }

    /// The double public key of the secret `x`: `G1*x` and `G2*x`.
    fn into_nugget_double_public_key(&self) -> (r: NuggetDoublePublicKey)
        ensures
            r.sig_key() == g1_mul(g1_generator_encoding(), self.0@),
            r.pk_key() == g2_mul(g2_generator_encoding(), self.0@),
            r.gen_plus_key() == g1_add(g1_generator_encoding(), r.sig_key()),
    {
        NuggetDoublePublicKey::new(
            self.into_public_key_in_signature_group().0,
            self.into_public().0,
        )
    }
}

/// Deserializing a serialized double public key gives back its two keys:
/// for all points `P` of G1 and `Q` of G2 and either mode, decoding the
/// serialization of `P` followed by that of `Q` gives `(P, Q)`.
pub proof fn law_double_public_key_roundtrip(p: Seq<u8>, q: Seq<u8>, compress: bool)
    requires
        g1_valid(p),
        g2_valid(q),
    ensures
        succeeded_with(double_public_key_decode(double_public_key_bytes(p, q, compress), compress), (p, q)),
{
    let bytes = double_public_key_bytes(p, q, compress);
    assert(byte_window(bytes, 0, g1_size(compress)) =~= g1_write(p, compress));
    assert(byte_window(bytes, g1_size(compress), g2_size(compress)) =~= g2_write(q, compress));
}

} // verus!
