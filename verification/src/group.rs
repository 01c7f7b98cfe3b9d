use vstd::prelude::*;

use ark_bls12_381::g1::Config as G1Config;
use ark_bls12_381::{Fr, G1Affine, G2Affine};
use ark_ec::scalar_mul::glv::GLVConfig;
use ark_ec::{AdditiveGroup, AffineRepr, CurveGroup};
use ark_ff::{BigInt, PrimeField};
use ark_serialize::{CanonicalDeserialize, CanonicalSerialize};
use ark_serialize::SerializationError as ArkSerializationError;

use crate::scalar::{scalar_canonical, Scalar};

verus! {

/// Why decoding a point or a scalar failed; the variants of
/// `ark_serialize::SerializationError`, the I/O error without its payload.
#[derive(Debug, Clone, Copy, PartialEq, Eq, Structural)]
pub enum SerializationError {
    /// The last byte has no room for the flag bits.
    NotEnoughSpace,
    /// The bytes do not encode a valid value.
    InvalidData,
    /// Flags were set where none were expected.
    UnexpectedFlags,
    /// Reading the bytes failed (too few of them).
    IoError,
}

/// A result that succeeded with the value `v`.
pub open spec fn succeeded_with<T>(r: Result<T, SerializationError>, v: T) -> bool {
    r matches Ok(x) && x == v
}

/// A result that failed with the error `e`.
pub open spec fn failed_with<T>(r: Result<T, SerializationError>, e: SerializationError) -> bool {
    r matches Err(x) && x == e
}

/// The bytes a reader hands to a decoder that reads `n` bytes from
/// position `start`: those of `[start, start + n)` that there are.
pub open spec fn byte_window(b: Seq<u8>, start: int, n: int) -> Seq<u8> {
    if b.len() <= start {
        Seq::empty()
    } else if b.len() < start + n {
        b.subrange(start, b.len() as int)
    } else {
        b.subrange(start, start + n)
    }
}

/// The bytes of `[start, start + n)` that there are.
pub fn read_window(b: &[u8], start: usize, n: usize) -> (r: &[u8])
    requires
        start + n <= usize::MAX,
    ensures
        r@ == byte_window(b@, start as int, n as int),
{
    if b.len() <= start {
        &b[0..0]
    } else if b.len() < start + n {
        &b[start..b.len()]
    } else {
        &b[start..start + n]
    }
}

// Points of G1 of BLS12-381 are held by their canonical uncompressed
// encoding (96 bytes: x then y, big-endian, flags in the top bits of the
// first byte). Two points are equal exactly when their encodings are.

/// Encoding of the sum of two points (`Projective + Projective`).
pub uninterp spec fn g1_add(a: Seq<u8>, b: Seq<u8>) -> Seq<u8>;

/// Encoding of the double of a point (`Projective::double_in_place`).
pub uninterp spec fn g1_double(a: Seq<u8>) -> Seq<u8>;

/// Encoding of the negation of a point (`-Projective`).
pub uninterp spec fn g1_neg(a: Seq<u8>) -> Seq<u8>;

/// Encoding of the image of a point under the GLV endomorphism
/// (`GLVConfig::endomorphism_affine`).
pub uninterp spec fn g1_endomorphism(a: Seq<u8>) -> Seq<u8>;

/// Encoding of a point multiplied by a scalar given by its limbs (`Projective * Fr`).
pub uninterp spec fn g1_mul(a: Seq<u8>, k: Seq<u64>) -> Seq<u8>;

/// Compressed (48-byte) encoding of a point (`serialize_compressed`).
pub uninterp spec fn g1_compress(a: Seq<u8>) -> Seq<u8>;

/// Decoding of a compressed encoding, read from the first 48 bytes, with
/// on-curve and subgroup checks (`deserialize_compressed`): the
/// uncompressed encoding of the point, or why it failed.
pub uninterp spec fn g1_decompress(b: Seq<u8>) -> Result<Seq<u8>, SerializationError>;

/// Decoding of an uncompressed encoding, read from the first 96 bytes
/// (`deserialize_uncompressed`): the coordinates are read as they stand and
/// only the subgroup check is made, not the curve equation. The
/// uncompressed encoding of the decoded pair, or why it failed.
pub uninterp spec fn g1_decode_uncompressed(b: Seq<u8>) -> Result<Seq<u8>, SerializationError>;

/// An encoding that the uncompressed decoding reads back as itself: what
/// every `G1Point` holds, checked or not.
pub open spec fn g1_decodable(e: Seq<u8>) -> bool {
    e.len() == 96 && succeeded_with(g1_decode_uncompressed(e), e)
}

/// An encoding of a point of G1: it decodes to itself, and compressing it
/// gives 48 bytes that decode to it again (the compressed decoding checks the
/// curve equation).
pub open spec fn g1_valid(e: Seq<u8>) -> bool {
    &&& g1_decodable(e)
    &&& g1_compress(e).len() == 48
    &&& succeeded_with(g1_decompress(g1_compress(e)), e)
}

/// Decoding of an uncompressed point of G1 with the curve checked: the
/// uncompressed decoding, and then its compressed form must decode back to
/// it; a pair off the curve is `InvalidData`.
pub open spec fn g1_uncompressed_read(b: Seq<u8>) -> Result<Seq<u8>, SerializationError> {
    match g1_decode_uncompressed(b) {
        Err(e) => Err(e),
        Ok(p) => if g1_compress(p).len() == 48 && succeeded_with(g1_decompress(g1_compress(p)), p) {
            Ok(p)
        } else {
            Err(SerializationError::InvalidData)
        },
    }
}

/// The serialization of a point of G1: compressed, or its uncompressed
/// encoding.
pub open spec fn g1_write(e: Seq<u8>, compress: bool) -> Seq<u8> {
    if compress {
        g1_compress(e)
    } else {
        e
    }
}

/// Decoding of a point of G1 in either mode.
pub open spec fn g1_read(b: Seq<u8>, compress: bool) -> Result<Seq<u8>, SerializationError> {
    if compress {
        g1_decompress(b)
    } else {
        g1_uncompressed_read(b)
    }
}

/// The size of a serialized point of G1.
pub open spec fn g1_size(compress: bool) -> int {
    if compress {
        48
    } else {
        96
    }
}

/// Encoding of the point at infinity: the infinity flag and zero coordinates.
pub open spec fn g1_identity_encoding() -> Seq<u8> {
    Seq::new(96, |i: int| if i == 0 { 0x40u8 } else { 0u8 })
}

/// Encoding of the standard generator of G1.
pub open spec fn g1_generator_encoding() -> Seq<u8> {
    seq![
        23u8, 241, 211, 167, 49, 151, 215, 148, 38, 149, 99, 140,
        79, 169, 172, 15, 195, 104, 140, 79, 151, 116, 185, 5,
        161, 78, 58, 63, 23, 27, 172, 88, 108, 85, 232, 63,
        249, 122, 26, 239, 251, 58, 240, 10, 219, 34, 198, 187,
        8, 179, 244, 129, 227, 170, 160, 241, 160, 158, 48, 237,
        116, 29, 138, 228, 252, 245, 224, 149, 213, 208, 10, 246,
        0, 219, 24, 203, 44, 4, 179, 237, 208, 60, 199, 68,
        162, 136, 138, 228, 12, 170, 35, 41, 70, 197, 231, 225,
    ]
}

/// A point of G1 of BLS12-381, held by its uncompressed encoding.
#[derive(Debug)]
pub struct G1Point {
    enc: Vec<u8>,
}

impl View for G1Point {
    type V = Seq<u8>;

    closed spec fn view(&self) -> Seq<u8> {
        self.enc@
    }
}

/// Returns `G1Affine::identity()`; its encoding is the infinity flag followed by zeros.
#[verifier::external_body]
fn g1_identity_raw() -> (r: G1Point)
    ensures
        r@ == g1_identity_encoding(),
        g1_valid(r@),
{
    let mut enc = Vec::new();
    G1Affine::identity().serialize_uncompressed(&mut enc).unwrap();
    G1Point { enc }
}

/// Returns `G1Affine::generator()`, whose coordinates are the constants of the curve.
#[verifier::external_body]
fn g1_generator_raw() -> (r: G1Point)
    ensures
        r@ == g1_generator_encoding(),
        g1_valid(r@),
{
    let mut enc = Vec::new();
    G1Affine::generator().serialize_uncompressed(&mut enc).unwrap();
    G1Point { enc }
}

/// Adds two points with `Projective + Projective`; the sum of two points of
/// G1 is a point of G1.
#[verifier::external_body]
fn g1_add_raw(a: &G1Point, b: &G1Point) -> (r: G1Point)
    requires
        g1_valid(a@),
        g1_valid(b@),
    ensures
        r@ == g1_add(a@, b@),
        g1_valid(r@),
{
    let p = G1Affine::deserialize_uncompressed_unchecked(a.enc.as_slice()).unwrap();
    let q = G1Affine::deserialize_uncompressed_unchecked(b.enc.as_slice()).unwrap();
    let mut enc = Vec::new();
    (p.into_group() + q.into_group()).into_affine().serialize_uncompressed(&mut enc).unwrap();
    G1Point { enc }
}

/// Doubles a point with `Projective::double_in_place`.
#[verifier::external_body]
fn g1_double_raw(a: &G1Point) -> (r: G1Point)
    requires
        g1_valid(a@),
    ensures
        r@ == g1_double(a@),
        g1_valid(r@),
{
    let mut p = G1Affine::deserialize_uncompressed_unchecked(a.enc.as_slice()).unwrap().into_group();
    p.double_in_place();
    let mut enc = Vec::new();
    p.into_affine().serialize_uncompressed(&mut enc).unwrap();
    G1Point { enc }
}

/// Negates a point with `-Projective`.
#[verifier::external_body]
fn g1_neg_raw(a: &G1Point) -> (r: G1Point)
    requires
        g1_valid(a@),
    ensures
        r@ == g1_neg(a@),
        g1_valid(r@),
{
    let p = G1Affine::deserialize_uncompressed_unchecked(a.enc.as_slice()).unwrap();
    let mut enc = Vec::new();
    (-p.into_group()).into_affine().serialize_uncompressed(&mut enc).unwrap();
    G1Point { enc }
}

/// Applies `GLVConfig::endomorphism_affine` of the G1 configuration, which
/// multiplies the x coordinate by a cube root of unity and maps G1 to itself.
#[verifier::external_body]
fn g1_endomorphism_raw(a: &G1Point) -> (r: G1Point)
    requires
        g1_valid(a@),
    ensures
        r@ == g1_endomorphism(a@),
        g1_valid(r@),
{
    let p = G1Affine::deserialize_uncompressed_unchecked(a.enc.as_slice()).unwrap();
    let mut enc = Vec::new();
    G1Config::endomorphism_affine(&p).serialize_uncompressed(&mut enc).unwrap();
    G1Point { enc }
}

/// Multiplies a point by a canonical scalar with `Projective * Fr`.
#[verifier::external_body]
fn g1_mul_raw(a: &G1Point, k: [u64; 4]) -> (r: G1Point)
    requires
        g1_valid(a@),
        scalar_canonical(k@),
    ensures
        r@ == g1_mul(a@, k@),
        g1_valid(r@),
{
    let p = G1Affine::deserialize_uncompressed_unchecked(a.enc.as_slice()).unwrap();
    let s = Fr::from_bigint(BigInt::new(k)).unwrap();
    let mut enc = Vec::new();
    (p.into_group() * s).into_affine().serialize_uncompressed(&mut enc).unwrap();
    G1Point { enc }
}

/// Serializes a point with `serialize_compressed` (48 bytes); the stored
/// encoding is read back with `deserialize_uncompressed_unchecked`, which
/// succeeds on every encoding that the checked uncompressed decoding reads
/// back as itself.
#[verifier::external_body]
fn g1_compress_raw(a: &G1Point) -> (r: Vec<u8>)
    requires
        g1_decodable(a@),
    ensures
        r@ == g1_compress(a@),
        r@.len() == 48,
{
    let p = G1Affine::deserialize_uncompressed_unchecked(a.enc.as_slice()).unwrap();
    let mut out = Vec::new();
    p.serialize_compressed(&mut out).unwrap();
    out
}

/// Decodes a compressed point with `deserialize_compressed`, which reads 48
/// bytes (fewer give `InvalidData`) and checks that the point is on the
/// curve and in G1; a decoded point compresses back to an encoding that
/// decodes to it again. Its error is carried over variant by variant.
#[verifier::external_body]
fn g1_decompress_raw(b: &[u8]) -> (r: Result<G1Point, SerializationError>)
    ensures
        r matches Ok(p) ==> succeeded_with(g1_decompress(b@), p@) && g1_valid(p@),
        r matches Err(e) ==> failed_with(g1_decompress(b@), e),
        b@.len() < 48 ==> failed_with(r, SerializationError::InvalidData),
{
    match G1Affine::deserialize_compressed(b) {
        Ok(p) => {
            let mut enc = Vec::new();
            p.serialize_uncompressed(&mut enc).unwrap();
            Ok(G1Point { enc })
        },
        Err(ArkSerializationError::NotEnoughSpace) => Err(SerializationError::NotEnoughSpace),
        Err(ArkSerializationError::InvalidData) => Err(SerializationError::InvalidData),
        Err(ArkSerializationError::UnexpectedFlags) => Err(SerializationError::UnexpectedFlags),
        Err(ArkSerializationError::IoError(_)) => Err(SerializationError::IoError),
    }
}

/// Decodes an uncompressed point with `deserialize_uncompressed`, which
/// reads 96 bytes (fewer give `InvalidData`), builds the point from its
/// coordinates without checking the curve equation, and checks only the
/// subgroup relation; re-serializing the decoded pair gives an encoding that
/// decodes to it again. Its error is carried over variant by variant.
#[verifier::external_body]
fn g1_decode_uncompressed_raw(b: &[u8]) -> (r: Result<G1Point, SerializationError>)
    ensures
        r matches Ok(p) ==> succeeded_with(g1_decode_uncompressed(b@), p@) && g1_decodable(p@),
        r matches Err(e) ==> failed_with(g1_decode_uncompressed(b@), e),
        b@.len() < 96 ==> failed_with(r, SerializationError::InvalidData),
{
    match G1Affine::deserialize_uncompressed(b) {
        Ok(p) => {
            let mut enc = Vec::new();
            p.serialize_uncompressed(&mut enc).unwrap();
            Ok(G1Point { enc })
        },
        Err(ArkSerializationError::NotEnoughSpace) => Err(SerializationError::NotEnoughSpace),
        Err(ArkSerializationError::InvalidData) => Err(SerializationError::InvalidData),
        Err(ArkSerializationError::UnexpectedFlags) => Err(SerializationError::UnexpectedFlags),
        Err(ArkSerializationError::IoError(_)) => Err(SerializationError::IoError),
    }
}

impl Clone for G1Point {
    fn clone(&self) -> (r: G1Point)
        ensures
            r@ == self@,
    {
        let enc = self.enc.clone();
        proof {
            assert(enc@ =~= self.enc@);
        }
        G1Point { enc }
    }
}

impl G1Point {
    /// The point at infinity, the neutral element of the group.
    pub fn identity() -> (r: G1Point)
        ensures
            r@ == g1_identity_encoding(),
            g1_valid(r@),
    {
        g1_identity_raw()
    }

    /// The standard generator of G1.
    pub fn generator() -> (r: G1Point)
        ensures
            r@ == g1_generator_encoding(),
            g1_valid(r@),
    {
        g1_generator_raw()
    }

    /// The sum of two points.
    pub fn add(&self, other: &G1Point) -> (r: G1Point)
        requires
            g1_valid(self@),
            g1_valid(other@),
        ensures
            r@ == g1_add(self@, other@),
            g1_valid(r@),
    {
        g1_add_raw(self, other)
    }

    /// The double of a point.
    pub fn double(&self) -> (r: G1Point)
        requires
            g1_valid(self@),
        ensures
            r@ == g1_double(self@),
            g1_valid(r@),
    {
        g1_double_raw(self)
    }

    /// The negation of a point.
    pub fn neg(&self) -> (r: G1Point)
        requires
            g1_valid(self@),
        ensures
            r@ == g1_neg(self@),
            g1_valid(r@),
    {
        g1_neg_raw(self)
    }

    /// The image of the point under the GLV endomorphism of G1.
    pub fn endomorphism(&self) -> (r: G1Point)
        requires
            g1_valid(self@),
        ensures
            r@ == g1_endomorphism(self@),
            g1_valid(r@),
    {
        g1_endomorphism_raw(self)
    }

    /// The point multiplied by a scalar.
    pub fn mul(&self, k: &Scalar) -> (r: G1Point)
        requires
            g1_valid(self@),
            scalar_canonical(k@),
        ensures
            r@ == g1_mul(self@, k@),
            g1_valid(r@),
    {
        g1_mul_raw(self, k.limbs())
    }

    /// The compressed 48-byte encoding of the point.
    pub fn to_compressed(&self) -> (r: Vec<u8>)
        requires
            g1_valid(self@),
        ensures
            r@ == g1_compress(self@),
            r@.len() == 48,
    {
        g1_compress_raw(self)
    }

    /// Decodes a compressed encoding from the first 48 bytes, checking that
    /// it is a point of G1.
    pub fn from_compressed(bytes: &[u8]) -> (r: Result<G1Point, SerializationError>)
        ensures
            r matches Ok(p) ==> succeeded_with(g1_decompress(bytes@), p@)
                && g1_valid(p@),
            r matches Err(e) ==> failed_with(g1_decompress(bytes@), e),
            bytes@.len() < 48 ==> failed_with(r, SerializationError::InvalidData),
    {
        g1_decompress_raw(bytes)
    }

    /// The uncompressed 96-byte encoding of the point.
    pub fn to_uncompressed(&self) -> (r: Vec<u8>)
        ensures
            r@ == self@,
    {
        let enc = self.enc.clone();
        proof {
            assert(enc@ =~= self.enc@);
        }
        enc
    }

    /// Decodes an uncompressed encoding from the first 96 bytes, checking
    /// that it is a point of G1: besides the subgroup check of the
    /// uncompressed decoding, its compressed form must decode back to it,
    /// which checks the curve equation (else `InvalidData`).
    pub fn from_uncompressed(bytes: &[u8]) -> (r: Result<G1Point, SerializationError>)
        ensures
            r matches Ok(p) ==> succeeded_with(g1_uncompressed_read(bytes@), p@) && g1_valid(p@),
            r matches Err(e) ==> failed_with(g1_uncompressed_read(bytes@), e),
            bytes@.len() < 96 ==> failed_with(r, SerializationError::InvalidData),
    {
        let p = match g1_decode_uncompressed_raw(bytes) {
            Ok(p) => p,
            Err(e) => return Err(e),
        };
        let c = g1_compress_raw(&p);
        match g1_decompress_raw(c.as_slice()) {
            Ok(q) => if q.equals(&p) {
                Ok(p)
            } else {
                Err(SerializationError::InvalidData)
            },
            Err(_) => Err(SerializationError::InvalidData),
        }
    }

    /// The serialization of the point, compressed or not.
    pub fn serialize_with_mode(&self, compress: bool) -> (r: Vec<u8>)
        requires
            g1_valid(self@),
        ensures
            r@ == g1_write(self@, compress),
            r@.len() == g1_size(compress),
    {
        if compress {
            self.to_compressed()
        } else {
            self.to_uncompressed()
        }
    }

    /// Decodes a point serialized in either mode, checking that it is a
    /// point of G1.
    pub fn deserialize_with_mode(bytes: &[u8], compress: bool) -> (r: Result<
        G1Point,
        SerializationError,
    >)
        ensures
            r matches Ok(p) ==> succeeded_with(g1_read(bytes@, compress), p@) && g1_valid(p@),
            r matches Err(e) ==> failed_with(g1_read(bytes@, compress), e),
    {
        if compress {
            Self::from_compressed(bytes)
        } else {
            Self::from_uncompressed(bytes)
        }
    }

    /// Whether two points are equal, decided on their canonical encodings.
    pub fn equals(&self, other: &G1Point) -> (r: bool)
        ensures
            r == (self@ == other@),
    {
        bytes_equal(&self.enc, &other.enc)
    }
}

/// Whether two byte strings are equal.
pub fn bytes_equal(a: &Vec<u8>, b: &Vec<u8>) -> (r: bool)
    ensures
        r == (a@ == b@),
{
    if a.len() != b.len() {
        return false;
    }
    let mut i: usize = 0;
    while i < a.len()
        invariant
            a@.len() == b@.len(),
            0 <= i <= a@.len(),
            forall|j: int| 0 <= j < i ==> a@[j] == b@[j],
        decreases a@.len() - i,
    {
        if a[i] != b[i] {
            return false;
        }
        i = i + 1;
    }
    proof {
        assert(a@ =~= b@);
    }
    true
}


// Points of G2 are held the same way, by their canonical uncompressed
// encoding (192 bytes: x.c1, x.c0, y.c1, y.c0, big-endian, flags in the top
// bits of the first byte).

/// Encoding of a point of G2 multiplied by a scalar given by its limbs (`Projective * Fr`).
pub uninterp spec fn g2_mul(a: Seq<u8>, k: Seq<u64>) -> Seq<u8>;

/// Compressed (96-byte) encoding of a point of G2 (`serialize_compressed`).
pub uninterp spec fn g2_compress(a: Seq<u8>) -> Seq<u8>;

/// Decoding of a compressed encoding of a point of G2, read from the first
/// 96 bytes, with on-curve and subgroup checks (`deserialize_compressed`).
pub uninterp spec fn g2_decompress(b: Seq<u8>) -> Result<Seq<u8>, SerializationError>;

/// Decoding of an uncompressed encoding of a point of G2, read from the
/// first 192 bytes (`deserialize_uncompressed`): the coordinates are read
/// as they stand and only the subgroup check is made, not the curve
/// equation.
pub uninterp spec fn g2_decode_uncompressed(b: Seq<u8>) -> Result<Seq<u8>, SerializationError>;

/// An encoding that the uncompressed decoding reads back as itself: what
/// every `G2Point` holds, checked or not.
pub open spec fn g2_decodable(e: Seq<u8>) -> bool {
    e.len() == 192 && succeeded_with(g2_decode_uncompressed(e), e)
}

/// An encoding of a point of G2: it decodes to itself, and compressing it
/// gives 96 bytes that decode to it again (the compressed decoding checks the
/// curve equation).
pub open spec fn g2_valid(e: Seq<u8>) -> bool {
    &&& g2_decodable(e)
    &&& g2_compress(e).len() == 96
    &&& succeeded_with(g2_decompress(g2_compress(e)), e)
}

/// Decoding of an uncompressed point of G2 with the curve checked: the
/// uncompressed decoding, and then its compressed form must decode back to
/// it; a pair off the curve is `InvalidData`.
pub open spec fn g2_uncompressed_read(b: Seq<u8>) -> Result<Seq<u8>, SerializationError> {
    match g2_decode_uncompressed(b) {
        Err(e) => Err(e),
        Ok(p) => if g2_compress(p).len() == 96 && succeeded_with(g2_decompress(g2_compress(p)), p) {
            Ok(p)
        } else {
            Err(SerializationError::InvalidData)
        },
    }
}

/// The serialization of a point of G2: compressed, or its uncompressed
/// encoding.
pub open spec fn g2_write(e: Seq<u8>, compress: bool) -> Seq<u8> {
    if compress {
        g2_compress(e)
    } else {
        e
    }
}

/// Decoding of a point of G2 in either mode.
pub open spec fn g2_read(b: Seq<u8>, compress: bool) -> Result<Seq<u8>, SerializationError> {
    if compress {
        g2_decompress(b)
    } else {
        g2_uncompressed_read(b)
    }
}

/// The size of a serialized point of G2.
pub open spec fn g2_size(compress: bool) -> int {
    if compress {
        96
    } else {
        192
    }
}

/// Encoding of the standard generator of G2.
pub open spec fn g2_generator_encoding() -> Seq<u8> {
    seq![
        19u8, 224, 43, 96, 82, 113, 159, 96, 125, 172, 211, 160,
        136, 39, 79, 101, 89, 107, 208, 208, 153, 32, 182, 26,
        181, 218, 97, 187, 220, 127, 80, 73, 51, 76, 241, 18,
        19, 148, 93, 87, 229, 172, 125, 5, 93, 4, 43, 126,
        2, 74, 162, 178, 240, 143, 10, 145, 38, 8, 5, 39,
        45, 197, 16, 81, 198, 228, 122, 212, 250, 64, 59, 2,
        180, 81, 11, 100, 122, 227, 209, 119, 11, 172, 3, 38,
        168, 5, 187, 239, 212, 128, 86, 200, 193, 33, 189, 184,
        6, 6, 196, 160, 46, 167, 52, 204, 50, 172, 210, 176,
        43, 194, 139, 153, 203, 62, 40, 126, 133, 167, 99, 175,
        38, 116, 146, 171, 87, 46, 153, 171, 63, 55, 13, 39,
        92, 236, 29, 161, 170, 169, 7, 95, 240, 95, 121, 190,
        12, 229, 213, 39, 114, 125, 110, 17, 140, 201, 205, 198,
        218, 46, 53, 26, 173, 253, 155, 170, 140, 189, 211, 167,
        109, 66, 154, 105, 81, 96, 209, 44, 146, 58, 201, 204,
        59, 172, 162, 137, 225, 147, 84, 134, 8, 184, 40, 1,
    ]
}

/// A point of G2 of BLS12-381, held by its uncompressed encoding.
#[derive(Debug)]
pub struct G2Point {
    enc: Vec<u8>,
}

impl View for G2Point {
    type V = Seq<u8>;

    closed spec fn view(&self) -> Seq<u8> {
        self.enc@
    }
}

impl Clone for G2Point {
    fn clone(&self) -> (r: G2Point)
        ensures
            r@ == self@,
    {
        let enc = self.enc.clone();
        proof {
            assert(enc@ =~= self.enc@);
        }
        G2Point { enc }
    }
}

/// Returns `G2Affine::generator()`, whose coordinates are the constants of the curve.
#[verifier::external_body]
fn g2_generator_raw() -> (r: G2Point)
    ensures
        r@ == g2_generator_encoding(),
        g2_valid(r@),
{
    let mut enc = Vec::new();
    G2Affine::generator().serialize_uncompressed(&mut enc).unwrap();
    G2Point { enc }
}

/// Multiplies a point of G2 by a canonical scalar with `Projective * Fr`.
#[verifier::external_body]
fn g2_mul_raw(a: &G2Point, k: [u64; 4]) -> (r: G2Point)
    requires
        g2_valid(a@),
        scalar_canonical(k@),
    ensures
        r@ == g2_mul(a@, k@),
        g2_valid(r@),
{
    let p = G2Affine::deserialize_uncompressed_unchecked(a.enc.as_slice()).unwrap();
    let s = Fr::from_bigint(BigInt::new(k)).unwrap();
    let mut enc = Vec::new();
    (p.into_group() * s).into_affine().serialize_uncompressed(&mut enc).unwrap();
    G2Point { enc }
}

/// Serializes a point of G2 with `serialize_compressed` (96 bytes); the stored
/// encoding is read back with `deserialize_uncompressed_unchecked`, which
/// succeeds on every encoding that the checked uncompressed decoding reads
/// back as itself.
#[verifier::external_body]
fn g2_compress_raw(a: &G2Point) -> (r: Vec<u8>)
    requires
        g2_decodable(a@),
    ensures
        r@ == g2_compress(a@),
        r@.len() == 96,
{
    let p = G2Affine::deserialize_uncompressed_unchecked(a.enc.as_slice()).unwrap();
    let mut out = Vec::new();
    p.serialize_compressed(&mut out).unwrap();
    out
}

/// Decodes a compressed point of G2 with `deserialize_compressed`, which
/// reads 96 bytes (fewer give `InvalidData`) and checks that the point is
/// on the curve and in G2; a decoded point compresses back to an encoding
/// that decodes to it again. Its error is carried over variant by variant.
#[verifier::external_body]
fn g2_decompress_raw(b: &[u8]) -> (r: Result<G2Point, SerializationError>)
    ensures
        r matches Ok(p) ==> succeeded_with(g2_decompress(b@), p@) && g2_valid(p@),
        r matches Err(e) ==> failed_with(g2_decompress(b@), e),
        b@.len() < 96 ==> failed_with(r, SerializationError::InvalidData),
{
    match G2Affine::deserialize_compressed(b) {
        Ok(p) => {
            let mut enc = Vec::new();
            p.serialize_uncompressed(&mut enc).unwrap();
            Ok(G2Point { enc })
        },
        Err(ArkSerializationError::NotEnoughSpace) => Err(SerializationError::NotEnoughSpace),
        Err(ArkSerializationError::InvalidData) => Err(SerializationError::InvalidData),
        Err(ArkSerializationError::UnexpectedFlags) => Err(SerializationError::UnexpectedFlags),
        Err(ArkSerializationError::IoError(_)) => Err(SerializationError::IoError),
    }
}

/// Decodes an uncompressed point with `deserialize_uncompressed`, which
/// reads 192 bytes (fewer give `InvalidData`), builds the point from its
/// coordinates without checking the curve equation, and checks only the
/// subgroup relation; re-serializing the decoded pair gives an encoding that
/// decodes to it again. Its error is carried over variant by variant.
#[verifier::external_body]
fn g2_decode_uncompressed_raw(b: &[u8]) -> (r: Result<G2Point, SerializationError>)
    ensures
        r matches Ok(p) ==> succeeded_with(g2_decode_uncompressed(b@), p@) && g2_decodable(p@),
        r matches Err(e) ==> failed_with(g2_decode_uncompressed(b@), e),
        b@.len() < 192 ==> failed_with(r, SerializationError::InvalidData),
{
    match G2Affine::deserialize_uncompressed(b) {
        Ok(p) => {
            let mut enc = Vec::new();
            p.serialize_uncompressed(&mut enc).unwrap();
            Ok(G2Point { enc })
        },
        Err(ArkSerializationError::NotEnoughSpace) => Err(SerializationError::NotEnoughSpace),
        Err(ArkSerializationError::InvalidData) => Err(SerializationError::InvalidData),
        Err(ArkSerializationError::UnexpectedFlags) => Err(SerializationError::UnexpectedFlags),
        Err(ArkSerializationError::IoError(_)) => Err(SerializationError::IoError),
    }
}

impl G2Point {
    /// The standard generator of G2.
    pub fn generator() -> (r: G2Point)
        ensures
            r@ == g2_generator_encoding(),
            g2_valid(r@),
    {
        g2_generator_raw()
    }

    /// The point multiplied by a scalar.
    pub fn mul(&self, k: &Scalar) -> (r: G2Point)
        requires
            g2_valid(self@),
            scalar_canonical(k@),
        ensures
            r@ == g2_mul(self@, k@),
            g2_valid(r@),
    {
        g2_mul_raw(self, k.limbs())
    }

    /// The compressed 96-byte encoding of the point.
    pub fn to_compressed(&self) -> (r: Vec<u8>)
        requires
            g2_valid(self@),
        ensures
            r@ == g2_compress(self@),
            r@.len() == 96,
    {
        g2_compress_raw(self)
    }

    /// Decodes a compressed encoding from the first 96 bytes, checking that
    /// it is a point of G2.
    pub fn from_compressed(bytes: &[u8]) -> (r: Result<G2Point, SerializationError>)
        ensures
            r matches Ok(p) ==> succeeded_with(g2_decompress(bytes@), p@)
                && g2_valid(p@),
            r matches Err(e) ==> failed_with(g2_decompress(bytes@), e),
            bytes@.len() < 96 ==> failed_with(r, SerializationError::InvalidData),
    {
        g2_decompress_raw(bytes)
    }

    /// The uncompressed 192-byte encoding of the point.
    pub fn to_uncompressed(&self) -> (r: Vec<u8>)
        ensures
            r@ == self@,
    {
        let enc = self.enc.clone();
        proof {
            assert(enc@ =~= self.enc@);
        }
        enc
    }

    /// Decodes an uncompressed encoding from the first 192 bytes, checking
    /// that it is a point of G2: besides the subgroup check of the
    /// uncompressed decoding, its compressed form must decode back to it,
    /// which checks the curve equation (else `InvalidData`).
    pub fn from_uncompressed(bytes: &[u8]) -> (r: Result<G2Point, SerializationError>)
        ensures
            r matches Ok(p) ==> succeeded_with(g2_uncompressed_read(bytes@), p@) && g2_valid(p@),
            r matches Err(e) ==> failed_with(g2_uncompressed_read(bytes@), e),
            bytes@.len() < 192 ==> failed_with(r, SerializationError::InvalidData),
    {
        let p = match g2_decode_uncompressed_raw(bytes) {
            Ok(p) => p,
            Err(e) => return Err(e),
        };
        let c = g2_compress_raw(&p);
        match g2_decompress_raw(c.as_slice()) {
            Ok(q) => if q.equals(&p) {
                Ok(p)
            } else {
                Err(SerializationError::InvalidData)
            },
            Err(_) => Err(SerializationError::InvalidData),
        }
    }

    /// The serialization of the point, compressed or not.
    pub fn serialize_with_mode(&self, compress: bool) -> (r: Vec<u8>)
        requires
            g2_valid(self@),
        ensures
            r@ == g2_write(self@, compress),
            r@.len() == g2_size(compress),
    {
        if compress {
            self.to_compressed()
        } else {
            self.to_uncompressed()
        }
    }

    /// Decodes a point serialized in either mode, checking that it is a
    /// point of G2.
    pub fn deserialize_with_mode(bytes: &[u8], compress: bool) -> (r: Result<
        G2Point,
        SerializationError,
    >)
        ensures
            r matches Ok(p) ==> succeeded_with(g2_read(bytes@, compress), p@) && g2_valid(p@),
            r matches Err(e) ==> failed_with(g2_read(bytes@, compress), e),
    {
        if compress {
            Self::from_compressed(bytes)
        } else {
            Self::from_uncompressed(bytes)
        }
    }

    /// Whether two points are equal, decided on their canonical encodings.
    pub fn equals(&self, other: &G2Point) -> (r: bool)
        ensures
            r == (self@ == other@),
    {
        bytes_equal(&self.enc, &other.enc)
    }
}

} // verus!
