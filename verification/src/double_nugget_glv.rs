//! GLV-optimized BLS key pair with public keys in both G1 and G2: the double
//! nugget public key carrying the 256-entry Straus table of its GLV bases.
use vstd::prelude::*;

use crate::chaum_pedersen_signature::{cp_verifies, nugget_signature_valid, ChaumPedersenVerifier};
use crate::double_nugget::{double_public_key_bytes, double_public_key_decode, double_public_key_size};
use crate::dual_scalar_mul::{all_valid, glv_bases, glv_tables, points_view, StrausPrecomputedTable};
use crate::group::{
    failed_with, g1_add, g1_generator_encoding, g1_mul, g1_valid, g2_generator_encoding, g2_mul,
    g2_valid, read_window, succeeded_with, G1Point, G2Point, SerializationError,
};
use crate::nugget::{
    Message, NuggetBLS, NuggetPublicKey, NuggetSignature, NuggetSignedMessage, PublicKey, PublicKeyInSignatureGroup,
    PublicKeyInSisterGroup, SecretKeyVT,
};
use crate::scalar::scalar_canonical;

verus! {

/// BLS Public Key with sub keys in both groups, for a signature group with a
/// GLV endomorphism: it carries the GLV-decomposed table of subset sums of
/// the generator and the public key, which is not serialized.
#[derive(Debug)]
pub struct NuggetDoublePublicKeyGLV {
    pub public_key_in_signature_group: G1Point,
    pub public_key: G2Point,
    pub glv_decomposition_of_gen_and_pubkey_sums: StrausPrecomputedTable,
}

impl Clone for NuggetDoublePublicKeyGLV {
    fn clone(&self) -> (r: Self)
        ensures
            r.sig_key() == self.sig_key(),
            r.pk_key() == self.pk_key(),
            r.table() == self.table(),
    {
        NuggetDoublePublicKeyGLV {
            public_key_in_signature_group: self.public_key_in_signature_group.clone(),
            public_key: self.public_key.clone(),
            glv_decomposition_of_gen_and_pubkey_sums: self.glv_decomposition_of_gen_and_pubkey_sums.clone(),
        }
    }
}

impl NuggetDoublePublicKeyGLV {
    /// The public key in the signature group.
    pub open spec fn sig_key(&self) -> Seq<u8> {
        self.public_key_in_signature_group@
    }

    /// The BLS public key in G2.
    pub open spec fn pk_key(&self) -> Seq<u8> {
        self.public_key@
    }

    /// The precomputed table.
    pub open spec fn table(&self) -> Seq<Seq<u8>> {
        points_view(self.glv_decomposition_of_gen_and_pubkey_sums.table@)
    }

    /// Creates a new NuggetDoublePublicKeyGLV from the public key components.
    /// The Straus table is precomputed for GLV-optimized verification.
    pub fn new(public_key_in_signature_group: G1Point, public_key: G2Point) -> (r: Self)
        requires
            g1_valid(public_key_in_signature_group@),
            g2_valid(public_key@),
        ensures
            r.sig_key() == public_key_in_signature_group@,
            r.pk_key() == public_key@,
            r.table() == glv_tables(glv_bases(g1_generator_encoding(), r.sig_key()), 16),
            r.well_formed(),
    {
        let generator = G1Point::generator();
        let glv_decomposition_of_gen_and_pubkey_sums = StrausPrecomputedTable::new(
            generator,
            public_key_in_signature_group.clone(),
        );
        NuggetDoublePublicKeyGLV {
            public_key_in_signature_group,
            public_key,
            glv_decomposition_of_gen_and_pubkey_sums,
        }
    }

    /// Serializes the two public keys, compressed or not, and not the table.
    pub fn serialize_with_mode(&self, compress: bool) -> (r: Vec<u8>)
        requires
            self.well_formed(),
        ensures
            r@ == double_public_key_bytes(self.sig_key(), self.pk_key(), compress),
            r@.len() == double_public_key_size(compress),
    {
        let mut out = self.public_key_in_signature_group.serialize_with_mode(compress);
        let mut tail = self.public_key.serialize_with_mode(compress);
        out.append(&mut tail);
        out
    }

    /// Serializes the two public keys, compressed.
    pub fn serialize(&self) -> (r: Vec<u8>)
        requires
            self.well_formed(),
        ensures
            r@ == double_public_key_bytes(self.sig_key(), self.pk_key(), true),
            r@.len() == double_public_key_size(true),
    {
        self.serialize_with_mode(true)
    }

    /// The size of the serialization in the given mode.
    pub fn serialized_size(&self, compress: bool) -> (r: usize)
        ensures
            r == double_public_key_size(compress),
    {
        if compress {
            48 + 96
        } else {
            96 + 192
        }
    }

    /// Deserializes the two public keys in the given mode, checking that
    /// they are points of their groups, and recomputes the table; the error
    /// is that of the first key that fails, and bytes after the two keys
    /// are not read.
    pub fn deserialize_with_mode(bytes: &[u8], compress: bool) -> (r: Result<
        Self,
        SerializationError,
    >)
        ensures
            r matches Ok(k) ==> succeeded_with(
                double_public_key_decode(bytes@, compress),
                (k.sig_key(), k.pk_key()),
            ) && k.table() == glv_tables(glv_bases(g1_generator_encoding(), k.sig_key()), 16)
                && k.well_formed(),
            r matches Err(e) ==> failed_with(double_public_key_decode(bytes@, compress), e),
    {
        let g1_len: usize = if compress {
            48
        } else {
            96
        };
        let g2_len: usize = if compress {
            96
        } else {
            192
        };
        let public_key_in_signature_group = match G1Point::deserialize_with_mode(
            read_window(bytes, 0, g1_len),
            compress,
        ) {
            Ok(p) => p,
            Err(e) => return Err(e),
        };
        let public_key = match G2Point::deserialize_with_mode(
            read_window(bytes, g1_len, g2_len),
            compress,
        ) {
            Ok(p) => p,
            Err(e) => return Err(e),
        };
        Ok(Self::new(public_key_in_signature_group, public_key))
    }

    /// Deserializes the two public keys, compressed.
    pub fn deserialize(bytes: &[u8]) -> (r: Result<Self, SerializationError>)
        ensures
            r matches Ok(k) ==> succeeded_with(
                double_public_key_decode(bytes@, true),
                (k.sig_key(), k.pk_key()),
            ) && k.table() == glv_tables(glv_bases(g1_generator_encoding(), k.sig_key()), 16)
                && k.well_formed(),
            r matches Err(e) ==> failed_with(double_public_key_decode(bytes@, true), e),
    {
        Self::deserialize_with_mode(bytes, true)
    }

    /// The precomputed points handed to the GLV Strauss-Shamir multiplication:
    /// the 256-entry table.
    pub fn straus_sister_group_precomputed_points(&self) -> (r: &[G1Point])
        ensures
            points_view(r@) == self.table(),
    {
        self.glv_decomposition_of_gen_and_pubkey_sums.table.as_slice()
    }
}

impl NuggetPublicKey for NuggetDoublePublicKeyGLV {
    open spec fn signature_group_key(&self) -> Seq<u8> {
        self.sig_key()
    }

    open spec fn bls_key(&self) -> Seq<u8> {
        self.pk_key()
    }

    open spec fn sister_group_key(&self) -> Seq<u8> {
        self.sig_key()
    }

    open spec fn sister_gen_plus_key(&self) -> Seq<u8> {
        g1_add(g1_generator_encoding(), self.sig_key())
    }

    open spec fn well_formed(&self) -> bool {
        g1_valid(self.sig_key()) && g2_valid(self.pk_key()) && all_valid(self.table())
    }

    fn into_public_key_in_signature_group(&self) -> (r: PublicKeyInSignatureGroup) {
        PublicKeyInSignatureGroup(self.public_key_in_signature_group.clone())
    }

    fn into_bls_public_key(&self) -> (r: PublicKey) {
        PublicKey(self.public_key.clone())
    }

    fn into_public_key_in_sister_group(&self) -> (r: PublicKeyInSisterGroup) {
        PublicKeyInSisterGroup(self.public_key_in_signature_group.clone())
    }

    fn sister_gen_plus_public_key(&self) -> (r: G1Point) {
        G1Point::generator().add(&self.public_key_in_signature_group)
    }
}

impl ChaumPedersenVerifier for NuggetDoublePublicKeyGLV {

}

impl NuggetDoublePublicKeyGLV {
    /// Verifies a signature with its DLEQ proof against this key.
    pub fn verify(&self, message: &Message, signature: &NuggetSignature) -> (r: bool)
        requires
            self.well_formed(),
            g1_valid(message@),
            nugget_signature_valid(signature),
        ensures
            r == cp_verifies(
                self.sig_key(),
                self.sig_key(),
                message@,
                signature.0@,
                signature.1.0@,
                signature.1.1@,
            ),
    {
        signature.verify(message, self)
    }
}

/// Message with attached BLS signature and GLV double public key.
pub type DoubleSignedMessageGLV = NuggetSignedMessage<NuggetDoublePublicKeyGLV>;

/// Keys that give a GLV double public key.
pub trait DoubleNuggetBLSGLV {
    /// The key can give its public keys.
    spec fn key_well_formed(&self) -> bool;

    /// Return a double public object containing public keys both in G1 and G2.
    fn into_nugget_double_public_key(&self) -> (r: NuggetDoublePublicKeyGLV)
        requires
            self.key_well_formed(),
        ensures
            r.well_formed(),
    ;
}

impl DoubleNuggetBLSGLV for SecretKeyVT {
    open spec fn key_well_formed(&self) -> bool {
        scalar_canonical(self.0@)
    }

    /// The GLV double public key of the secret `x`: `G1*x` and `G2*x`.
    fn into_nugget_double_public_key(&self) -> (r: NuggetDoublePublicKeyGLV)
        ensures
            r.sig_key() == g1_mul(g1_generator_encoding(), self.0@),
            r.pk_key() == g2_mul(g2_generator_encoding(), self.0@),
            r.table() == glv_tables(glv_bases(g1_generator_encoding(), r.sig_key()), 16),
    {
        NuggetDoublePublicKeyGLV::new(
            self.into_public_key_in_signature_group().0,
            self.into_public().0,
        )
    }
}

} // verus!
