//! The Chaum-Pedersen DLEQ proof attached to a BLS signature: it shows that
//! the signature and the public key in the sister group have the same
//! logarithm (to the message point and to the generator).
use vstd::prelude::*;

use crate::group::{
    g1_add, g1_compress, g1_double, g1_generator_encoding, g1_identity_encoding, g1_mul,
    g1_valid, G1Point,
};
use crate::nugget::{Message, NuggetBLS, NuggetPublicKey, NuggetSignedMessage, NuggetSignature, SecretKeyVT};
use crate::scalar::{
    hash_to_scalar, limbs_le_bytes, limbs_value, scalar_canonical, scalar_modulus,
    sha256, sha256_digest, Scalar,
};
use crate::dual_scalar_mul::{
    digit_index, lemma_digit_index_two, lemma_top_index_at_least, lemma_top_index_nonzero_digit,
    lemma_top_index_range,
    pair_table, scalar_bit, straus_acc, straus_eval, top_index,
};

verus! {

/// The first commitment recomputed by the verifier: `G*s + PK*c`, with `G`
/// the generator and `PK` the public key in the sister group.
pub open spec fn cp_point_a(pk_sister: Seq<u8>, c: Seq<u64>, s: Seq<u64>) -> Seq<u8> {
    g1_add(g1_mul(g1_generator_encoding(), s), g1_mul(pk_sister, c))
}

/// The second commitment recomputed by the verifier: `M*s + S*c`, with `M`
/// the message point and `S` the BLS signature.
pub open spec fn cp_point_b(m: Seq<u8>, sig: Seq<u8>, c: Seq<u64>, s: Seq<u64>) -> Seq<u8> {
    g1_add(g1_mul(m, s), g1_mul(sig, c))
}

/// The bytes hashed into the challenge: the compressed message point, public
/// key in the signature group, signature and the two commitments, in order.
pub open spec fn cp_transcript(
    m: Seq<u8>,
    pk_sig: Seq<u8>,
    sig: Seq<u8>,
    a: Seq<u8>,
    b: Seq<u8>,
) -> Seq<u8> {
    g1_compress(m) + g1_compress(pk_sig) + g1_compress(sig) + g1_compress(a) + g1_compress(b)
}

/// Whether a signature `sig` with proof `(c, s)` verifies for message point
/// `m` and the public keys in the signature and sister groups: the hash of
/// the transcript with the recomputed commitments is the challenge `c`.
pub open spec fn cp_verifies(
    pk_sig: Seq<u8>,
    pk_sister: Seq<u8>,
    m: Seq<u8>,
    sig: Seq<u8>,
    c: Seq<u64>,
    s: Seq<u64>,
) -> bool {
    hash_to_scalar(
        cp_transcript(m, pk_sig, sig, cp_point_a(pk_sister, c, s), cp_point_b(m, sig, c, s)),
    ) == c
}

/// The signature point is a point of G1 and both proof scalars are canonical.
pub open spec fn nugget_signature_valid(sig: &NuggetSignature) -> bool {
    g1_valid(sig.0@) && scalar_canonical(sig.1.0@) && scalar_canonical(sig.1.1@)
}

/// Verifies a BLS signature with its DLEQ proof against the public keys in
/// the signature and sister groups.
pub fn verify_cp_signature(
    public_key_in_signature_group: &G1Point,
    public_key_in_sister_group: &G1Point,
    message: &Message,
    signature_proof: &NuggetSignature,
) -> (r: bool)
    requires
        g1_valid(public_key_in_signature_group@),
        g1_valid(public_key_in_sister_group@),
        g1_valid(message@),
        nugget_signature_valid(signature_proof),
    ensures
        r == cp_verifies(
            public_key_in_signature_group@,
            public_key_in_sister_group@,
            message@,
            signature_proof.0@,
            signature_proof.1.0@,
            signature_proof.1.1@,
        ),
{
    let c = &signature_proof.1.0;
    let s = &signature_proof.1.1;
    let a_check_point = G1Point::generator().mul(s).add(&public_key_in_sister_group.mul(c));

    let message_point = message.hash_to_signature_curve();
    let b_check_point = message_point.mul(s).add(&signature_proof.0.mul(c));

    let a_point_as_bytes = a_check_point.to_compressed();
    let b_point_as_bytes = b_check_point.to_compressed();

    let signature_point_as_bytes = signature_proof.0.to_compressed();
    let message_point_as_bytes = message_point.to_compressed();
    let public_key_in_signature_group_as_bytes = public_key_in_signature_group.to_compressed();

    let mut resulting_proof_basis = message_point_as_bytes;
    let mut tail1 = public_key_in_signature_group_as_bytes;
    let mut tail2 = signature_point_as_bytes;
    let mut tail3 = a_point_as_bytes;
    let mut tail4 = b_point_as_bytes;
    resulting_proof_basis.append(&mut tail1);
    resulting_proof_basis.append(&mut tail2);
    resulting_proof_basis.append(&mut tail3);
    resulting_proof_basis.append(&mut tail4);

    let c_check = Scalar::hash_to_scalar(resulting_proof_basis.as_slice());
    c_check.equals(c)
}


/// The secret witness derived from the secret key and the compressed message
/// point: the hash to a scalar of the SHA-256 digest of the key's bytes
/// followed by the message point's bytes.
pub open spec fn cp_witness(x: Seq<u64>, m_bytes: Seq<u8>) -> Seq<u64> {
    hash_to_scalar(sha256_digest(limbs_le_bytes(x)) + m_bytes)
}

/// The challenge of the proof made with secret `x` for message point `m` and
/// BLS signature `sig`: the hash of the transcript with the commitments
/// `G*k` and `M*k` of the witness `k`.
pub open spec fn cp_challenge(x: Seq<u64>, m: Seq<u8>, sig: Seq<u8>) -> Seq<u64> {
    let k = cp_witness(x, g1_compress(m));
    hash_to_scalar(
        cp_transcript(
            m,
            g1_mul(g1_generator_encoding(), x),
            sig,
            g1_mul(g1_generator_encoding(), k),
            g1_mul(m, k),
        ),
    )
}

/// The value of the response of that proof: `k - c*x` modulo the group order.
pub open spec fn cp_response_value(x: Seq<u64>, m: Seq<u8>, sig: Seq<u8>) -> nat {
    let k = cp_witness(x, g1_compress(m));
    let c = cp_challenge(x, m, sig);
    ((limbs_value(k) as int - ((limbs_value(c) * limbs_value(x)) % scalar_modulus()) as int) % (
    scalar_modulus() as int)) as nat
}

impl SecretKeyVT {
    /// The secret witness scalar of a proof, derived from the secret key and
    /// the compressed message point.
    pub fn generate_witness_scaler(&self, message_point_as_bytes: &Vec<u8>) -> (r: Scalar)
        requires
            scalar_canonical(self.0@),
        ensures
            r@ == cp_witness(self.0@, message_point_as_bytes@),
            r@ == hash_to_scalar(sha256_digest(limbs_le_bytes(self.0@)) + message_point_as_bytes@),
            scalar_canonical(r@),
    {
        let secret_key_as_bytes = self.0.to_bytes();
        let mut hashed_secret_key = sha256(secret_key_as_bytes.as_slice());
        let mut message_bytes = message_point_as_bytes.clone();
        proof {
            assert(message_bytes@ =~= message_point_as_bytes@);
        }
        hashed_secret_key.append(&mut message_bytes);
        Scalar::hash_to_scalar(hashed_secret_key.as_slice())
    }

    /// The DLEQ proof `(c, s)` that the BLS signature and the public key in
    /// the sister group share the secret as logarithm.
    pub fn generate_dleq_proof(&mut self, message: &Message, bls_signature: &G1Point) -> (r: (
        Scalar,
        Scalar,
    ))
        requires
            scalar_canonical(old(self).0@),
            g1_valid(message@),
            g1_valid(bls_signature@),
        ensures
            final(self).0@ == old(self).0@,
            r.0@ == cp_challenge(old(self).0@, message@, bls_signature@),
            limbs_value(r.1@) == cp_response_value(old(self).0@, message@, bls_signature@),
            scalar_canonical(r.0@),
            scalar_canonical(r.1@),
    {
        let message_point = message.hash_to_signature_curve();

        let signature_point_as_bytes = bls_signature.to_compressed();
        let message_point_as_bytes = message_point.to_compressed();
        let public_key_in_signature_group_as_bytes = self.into_public_key_in_signature_group().0.to_compressed();

        let mut k = self.generate_witness_scaler(&message_point_as_bytes);

        let a_point = G1Point::generator().mul(&k);
        let b_point = message_point.mul(&k);

        let a_point_as_bytes = a_point.to_compressed();
        let b_point_as_bytes = b_point.to_compressed();

        let mut proof_basis = message_point_as_bytes;
        let mut tail1 = public_key_in_signature_group_as_bytes;
        let mut tail2 = signature_point_as_bytes;
        let mut tail3 = a_point_as_bytes;
        let mut tail4 = b_point_as_bytes;
        proof_basis.append(&mut tail1);
        proof_basis.append(&mut tail2);
        proof_basis.append(&mut tail3);
        proof_basis.append(&mut tail4);

        let c = Scalar::hash_to_scalar(proof_basis.as_slice());

        let s = k.sub(&c.mul(&self.0));

        k.zeroize();  //clear secret witness from memory

        (c, s)
    }

    /// A BLS signature of the message together with its DLEQ proof.
    pub fn generate_cp_signature(&mut self, message: &Message) -> (r: NuggetSignature)
        requires
            scalar_canonical(old(self).0@),
            g1_valid(message@),
        ensures
            final(self).0@ == old(self).0@,
            r.0@ == g1_mul(message@, old(self).0@),
            r.1.0@ == cp_challenge(old(self).0@, message@, r.0@),
            limbs_value(r.1.1@) == cp_response_value(old(self).0@, message@, r.0@),
            nugget_signature_valid(&r),
    {
        //First we generate a vanila BLS Signature;
        let bls_signature = self.sign_bls(message);
        let proof = self.generate_dleq_proof(message, &bls_signature.0);
        NuggetSignature(bls_signature.0, proof)
    }
}

/// The witness of a proof is the hash to a scalar of the SHA-256 digest of
/// the secret key's bytes followed by the compressed message point: for
/// every secret `x` and message bytes `m`, and every byte string `t` made of
/// that digest and then `m`, the witness is `hash_to_scalar(t)`; so for one
/// key, different message points are hashed from different inputs.
pub proof fn law_cp_witness_hashes_key_digest_then_message(x: Seq<u64>, m: Seq<u8>, t: Seq<u8>)
    requires
        t.len() == sha256_digest(limbs_le_bytes(x)).len() + m.len(),
        t.subrange(0, sha256_digest(limbs_le_bytes(x)).len() as int) == sha256_digest(
            limbs_le_bytes(x),
        ),
        t.subrange(sha256_digest(limbs_le_bytes(x)).len() as int, t.len() as int) == m,
    ensures
        cp_witness(x, m) == hash_to_scalar(t),
{
    let d = sha256_digest(limbs_le_bytes(x));
    assert(t =~= d + m);
}

/// The challenge transcript is the compressed message point, the public key
/// in the signature group, the signature, the first commitment and the
/// second commitment, 48 bytes each and in that order.
pub proof fn law_cp_transcript_layout(
    m: Seq<u8>,
    pk_sig: Seq<u8>,
    sig: Seq<u8>,
    a: Seq<u8>,
    b: Seq<u8>,
)
    requires
        g1_valid(m),
        g1_valid(pk_sig),
        g1_valid(sig),
        g1_valid(a),
        g1_valid(b),
    ensures
        cp_transcript(m, pk_sig, sig, a, b).len() == 240,
        cp_transcript(m, pk_sig, sig, a, b).subrange(0, 48) == g1_compress(m),
        cp_transcript(m, pk_sig, sig, a, b).subrange(48, 96) == g1_compress(pk_sig),
        cp_transcript(m, pk_sig, sig, a, b).subrange(96, 144) == g1_compress(sig),
        cp_transcript(m, pk_sig, sig, a, b).subrange(144, 192) == g1_compress(a),
        cp_transcript(m, pk_sig, sig, a, b).subrange(192, 240) == g1_compress(b),
{
    let t = cp_transcript(m, pk_sig, sig, a, b);
    assert(t.subrange(0, 48) =~= g1_compress(m));
    assert(t.subrange(48, 96) =~= g1_compress(pk_sig));
    assert(t.subrange(96, 144) =~= g1_compress(sig));
    assert(t.subrange(144, 192) =~= g1_compress(a));
    assert(t.subrange(192, 240) =~= g1_compress(b));
}

/// A 240-byte string made of five compressed points, in order.
pub open spec fn five_compressed(
    t: Seq<u8>,
    p0: Seq<u8>,
    p1: Seq<u8>,
    p2: Seq<u8>,
    p3: Seq<u8>,
    p4: Seq<u8>,
) -> bool {
    &&& t.len() == 240
    &&& t.subrange(0, 48) == g1_compress(p0)
    &&& t.subrange(48, 96) == g1_compress(p1)
    &&& t.subrange(96, 144) == g1_compress(p2)
    &&& t.subrange(144, 192) == g1_compress(p3)
    &&& t.subrange(192, 240) == g1_compress(p4)
}

/// What verification checks: a signature `S` with proof `(c, s)` verifies
/// for message point `M` and keys `PK_sig`, `PK` exactly when `c` is the
/// hash to a scalar of the bytes holding the compressed `M`, `PK_sig`, `S`,
/// `G*s + PK*c` and `M*s + S*c`, in that order.
pub proof fn law_cp_verifies_hashes_message_key_signature_then_commitments(
    pk_sig: Seq<u8>,
    pk_sister: Seq<u8>,
    m: Seq<u8>,
    sig: Seq<u8>,
    c: Seq<u64>,
    s: Seq<u64>,
    t: Seq<u8>,
)
    requires
        five_compressed(
            t,
            m,
            pk_sig,
            sig,
            g1_add(g1_mul(g1_generator_encoding(), s), g1_mul(pk_sister, c)),
            g1_add(g1_mul(m, s), g1_mul(sig, c)),
        ),
    ensures
        cp_verifies(pk_sig, pk_sister, m, sig, c, s) == (hash_to_scalar(t) == c),
{
    let a = g1_add(g1_mul(g1_generator_encoding(), s), g1_mul(pk_sister, c));
    let b = g1_add(g1_mul(m, s), g1_mul(sig, c));
    lemma_five_compressed(t, m, pk_sig, sig, a, b);
}

/// The challenge the signer computes: for secret `x`, message point `M` and
/// signature `S`, with witness `k` the hash to a scalar of the SHA-256
/// digest of `x`'s bytes followed by the compressed `M`, the challenge is
/// the hash to a scalar of the bytes holding the compressed `M`, `G*x`, `S`,
/// `G*k` and `M*k`, in that order.
pub proof fn law_cp_challenge_hashes_message_key_signature_then_commitments(
    x: Seq<u64>,
    m: Seq<u8>,
    sig: Seq<u8>,
    t: Seq<u8>,
)
    requires
        five_compressed(
            t,
            m,
            g1_mul(g1_generator_encoding(), x),
            sig,
            g1_mul(
                g1_generator_encoding(),
                hash_to_scalar(sha256_digest(limbs_le_bytes(x)) + g1_compress(m)),
            ),
            g1_mul(m, hash_to_scalar(sha256_digest(limbs_le_bytes(x)) + g1_compress(m))),
        ),
    ensures
        cp_challenge(x, m, sig) == hash_to_scalar(t),
{
    let k = hash_to_scalar(sha256_digest(limbs_le_bytes(x)) + g1_compress(m));
    lemma_five_compressed(
        t,
        m,
        g1_mul(g1_generator_encoding(), x),
        sig,
        g1_mul(g1_generator_encoding(), k),
        g1_mul(m, k),
    );
}

/// A string of five compressed points in order is their transcript.
proof fn lemma_five_compressed(
    t: Seq<u8>,
    m: Seq<u8>,
    pk_sig: Seq<u8>,
    sig: Seq<u8>,
    a: Seq<u8>,
    b: Seq<u8>,
)
    requires
        five_compressed(t, m, pk_sig, sig, a, b),
    ensures
        t == cp_transcript(m, pk_sig, sig, a, b),
{
    let u = cp_transcript(m, pk_sig, sig, a, b);
    assert(g1_compress(m) == t.subrange(0, 48));
    assert(g1_compress(pk_sig) == t.subrange(48, 96));
    assert(g1_compress(sig) == t.subrange(96, 144));
    assert(g1_compress(a) == t.subrange(144, 192));
    assert(g1_compress(b) == t.subrange(192, 240));
    assert(u.len() == 240);
    assert forall|i: int| 0 <= i < 240 implies #[trigger] t[i] == u[i] by {
        if i < 48 {
            assert(t[i] == t.subrange(0, 48)[i]);
        } else if i < 96 {
            assert(t[i] == t.subrange(48, 96)[i - 48]);
        } else if i < 144 {
            assert(t[i] == t.subrange(96, 144)[i - 96]);
        } else if i < 192 {
            assert(t[i] == t.subrange(144, 192)[i - 144]);
        } else {
            assert(t[i] == t.subrange(192, 240)[i - 192]);
        }
    }
    assert(t =~= u);
}

/// Straus-Shamir interleaved computation of `G*s + PK*c` over the big-endian
/// bits of both scalars, with the precomputed `G + PK` for pairs of set bits.
/// Leading pairs of clear bits are skipped; from the first set bit on, every
/// position doubles the accumulator, and a position with a set bit then adds
/// the generator, the public key or their sum.
pub fn strauss_shamir_dual_scalar_multiplications(
    public_key: &G1Point,
    gen_plus_public_key: &G1Point,
    generator_scalar: &Scalar,
    public_key_scalar: &Scalar,
) -> (r: G1Point)
    requires
        g1_valid(public_key@),
        g1_valid(gen_plus_public_key@),
        scalar_canonical(generator_scalar@),
        scalar_canonical(public_key_scalar@),
    ensures
        r@ == straus_eval(
            seq![generator_scalar@, public_key_scalar@],
            pair_table(g1_generator_encoding(), public_key@, gen_plus_public_key@),
            256,
        ),
        g1_valid(r@),
{
    let gen = G1Point::generator();
    let gen_scalar_bits = generator_scalar.limbs();
    let pub_scalar_bits = public_key_scalar.limbs();
    let ghost sc = seq![generator_scalar@, public_key_scalar@];
    let ghost tbl = pair_table(gen@, public_key@, gen_plus_public_key@);
    let ghost top = top_index(sc, 256);
    proof {
        lemma_top_index_range(sc, 256);
    }

    let mut res = G1Point::identity();

    let mut first_non_zero_bit_reached = false;
    let mut i: usize = 256;
    while i > 0
        invariant
            i <= 256,
            -1 <= top < 256,
            top == top_index(sc, 256),
            sc == seq![gen_scalar_bits@, pub_scalar_bits@],
            tbl == pair_table(gen@, public_key@, gen_plus_public_key@),
            gen@ == g1_generator_encoding(),
            g1_valid(gen@),
            g1_valid(public_key@),
            g1_valid(gen_plus_public_key@),
            g1_valid(res@),
            first_non_zero_bit_reached == (top >= i),
            first_non_zero_bit_reached ==> res@ == straus_acc(sc, tbl, top, i as int),
            !first_non_zero_bit_reached ==> res@ == g1_identity_encoding(),
        decreases i,
    {
        i = i - 1;
        let gen_scalar_bit = scalar_bit(&gen_scalar_bits, i);
        let pub_scalar_bit = scalar_bit(&pub_scalar_bits, i);
        proof {
            lemma_digit_index_two(sc, i as int);
            if digit_index(sc, 2, i as int) != 0 {
                lemma_top_index_at_least(sc, 256, i as int);
            }
            if top >= 0 {
                lemma_top_index_nonzero_digit(sc, 256);
            }
            if top == i {
                assert(straus_acc(sc, tbl, top, i + 1) == g1_identity_encoding());
            }
        }
        let ghost before = res@;
        if !gen_scalar_bit && !pub_scalar_bit {
            if first_non_zero_bit_reached {
                res = res.double();
            }
        } else {
            first_non_zero_bit_reached = true;
            res = res.double();
            res = if gen_scalar_bit && pub_scalar_bit {
                res.add(gen_plus_public_key)
            } else if gen_scalar_bit {
                res.add(&gen)
            } else {
                res.add(public_key)
            };
        }
        proof {
            if top >= i {
                assert(before == straus_acc(sc, tbl, top, i + 1));
                assert(straus_acc(sc, tbl, top, i as int) == {
                    let d = g1_double(before);
                    let idx = digit_index(sc, sc.len(), i as int);
                    if idx == 0 {
                        d
                    } else {
                        g1_add(d, tbl[idx as int])
                    }
                });
            }
        }
    }
    res
}

/// Public keys that verify Chaum-Pedersen signatures.
pub trait ChaumPedersenVerifier: NuggetPublicKey {
    /// Verifies a BLS signature with its DLEQ proof against the key's sub
    /// keys in the signature and sister groups.
    fn verify_cp_signature(&self, message: &Message, signature_proof: &NuggetSignature) -> (r: bool)
        requires
            self.well_formed(),
            g1_valid(message@),
            nugget_signature_valid(signature_proof),
        ensures
            r == cp_verifies(
                self.signature_group_key(),
                self.sister_group_key(),
                message@,
                signature_proof.0@,
                signature_proof.1.0@,
                signature_proof.1.1@,
            ),
    {
        verify_cp_signature(
            &self.into_public_key_in_signature_group().0,
            &self.into_public_key_in_sister_group().0,
            message,
            signature_proof,
        )
    }

    /// The same verification; its commitments are computed as in
    /// `verify_cp_signature`.
    fn verify_cp_signature_with_strauss_shamir_optimization(
        &self,
        message: &Message,
        signature_proof: &NuggetSignature,
    ) -> (r: bool)
        requires
            self.well_formed(),
            g1_valid(message@),
            nugget_signature_valid(signature_proof),
        ensures
            r == cp_verifies(
                self.signature_group_key(),
                self.sister_group_key(),
                message@,
                signature_proof.0@,
                signature_proof.1.0@,
                signature_proof.1.1@,
            ),
    {
        verify_cp_signature(
            &self.into_public_key_in_signature_group().0,
            &self.into_public_key_in_sister_group().0,
            message,
            signature_proof,
        )
    }

    /// Straus-Shamir computation of `G*s + PK*c` with the key's sister group
    /// public key and precomputed `G + PK`.
    fn strauss_shamir_dual_scalar_multiplications(
        &self,
        generator_scalar: &Scalar,
        public_key_scalar: &Scalar,
    ) -> (r: G1Point)
        requires
            self.well_formed(),
            scalar_canonical(generator_scalar@),
            scalar_canonical(public_key_scalar@),
        ensures
            r@ == straus_eval(
                seq![generator_scalar@, public_key_scalar@],
                pair_table(
                    g1_generator_encoding(),
                    self.sister_group_key(),
                    self.sister_gen_plus_key(),
                ),
                256,
            ),
            g1_valid(r@),
    {
        strauss_shamir_dual_scalar_multiplications(
            &self.into_public_key_in_sister_group().0,
            &self.sister_gen_plus_public_key(),
            generator_scalar,
            public_key_scalar,
        )
    }
}

impl NuggetSignature {
    /// Verify a single BLS signature using its DLEQ proof.
    pub fn verify<P: ChaumPedersenVerifier>(&self, message: &Message, publickey: &P) -> (r: bool)
        requires
            publickey.well_formed(),
            g1_valid(message@),
            nugget_signature_valid(self),
        ensures
            r == cp_verifies(
                publickey.signature_group_key(),
                publickey.sister_group_key(),
                message@,
                self.0@,
                self.1.0@,
                self.1.1@,
            ),
    {
        publickey.verify_cp_signature(message, self)
    }
}


impl<P: ChaumPedersenVerifier> NuggetSignedMessage<P> {
    /// Verifies the signature with its DLEQ proof against the public key.
    pub fn verify(&self) -> (r: bool)
        requires
            self.publickey.well_formed(),
            g1_valid(self.message@),
            nugget_signature_valid(&self.signature),
        ensures
            r == cp_verifies(
                self.publickey.signature_group_key(),
                self.publickey.sister_group_key(),
                self.message@,
                self.signature.0@,
                self.signature.1.0@,
                self.signature.1.1@,
            ),
    {
        self.publickey.verify_cp_signature(&self.message, &self.signature)
    }
}

impl SecretKeyVT {
    /// Signs a message: the BLS signature with its DLEQ proof.
    pub fn sign(&mut self, message: &Message) -> (r: NuggetSignature)
        requires
            scalar_canonical(old(self).0@),
            g1_valid(message@),
        ensures
            final(self).0@ == old(self).0@,
            r.0@ == g1_mul(message@, old(self).0@),
            r.1.0@ == cp_challenge(old(self).0@, message@, r.0@),
            limbs_value(r.1.1@) == cp_response_value(old(self).0@, message@, r.0@),
            nugget_signature_valid(&r),
    {
        self.generate_cp_signature(message)
    }
}

} // verus!
