//! Dual scalar multiplication `a*P + b*Q` by Straus-Shamir interleaving,
//! with a GLV variant that splits each scalar in two and looks the
//! combinations of the four base points up in a table of subset sums.
use vstd::prelude::*;

use vstd::arithmetic::power2::{lemma2_to64, pow2};

use crate::group::{
    g1_add, g1_double, g1_endomorphism, g1_identity_encoding, g1_neg, g1_valid, G1Point,
};
use crate::scalar::{limb_bit, limbs_value, scalar_canonical, scalar_modulus, Scalar};

use ark_bls12_381::g1::Config as G1Config;
use ark_bls12_381::Fr;
use ark_ec::scalar_mul::glv::GLVConfig;
use ark_ff::{BigInt, PrimeField};

verus! {

/// Views of a sequence of points.
pub open spec fn points_view(s: Seq<G1Point>) -> Seq<Seq<u8>> {
    s.map_values(|p: G1Point| p@)
}

/// All points of a sequence are valid encodings.
pub open spec fn all_valid(s: Seq<Seq<u8>>) -> bool {
    forall|j: int| 0 <= j < s.len() ==> g1_valid(#[trigger] s[j])
}

/// The table of subset sums of the first `k` points, built as the code
/// builds it: start from the identity and, for each point in turn, append
/// every entry so far plus that point. Entry `i` holds the sum of the points
/// whose bit is set in `i`.
pub open spec fn subset_table(points: Seq<Seq<u8>>, k: nat) -> Seq<Seq<u8>>
    decreases k,
{
    if k == 0 {
        seq![g1_identity_encoding()]
    } else {
        let t = subset_table(points, (k - 1) as nat);
        t + t.map_values(|x: Seq<u8>| g1_add(x, points[k - 1]))
    }
}

/// Index into a subset table given by bit `i` of the first `k` scalars:
/// scalar `j` contributes `2^j` when its bit `i` is set.
pub open spec fn digit_index(sc: Seq<Seq<u64>>, k: nat, i: int) -> nat
    decreases k,
{
    if k == 0 {
        0
    } else {
        digit_index(sc, (k - 1) as nat, i) + if limb_bit(sc[k - 1], i) {
            pow2((k - 1) as nat)
        } else {
            0
        }
    }
}

/// The highest bit position below `n` at which some scalar has a set bit, or -1.
pub open spec fn top_index(sc: Seq<Seq<u64>>, n: int) -> int
    decreases n,
{
    if n <= 0 {
        -1
    } else if digit_index(sc, sc.len(), n - 1) != 0 {
        n - 1
    } else {
        top_index(sc, n - 1)
    }
}

/// The accumulator of the interleaved double-and-add loop after it has
/// processed bit positions `top` down to `i`: start from the identity; at each
/// position double, then add the table entry selected by the bits at that
/// position unless no bit is set.
pub open spec fn straus_acc(sc: Seq<Seq<u64>>, table: Seq<Seq<u8>>, top: int, i: int) -> Seq<u8>
    decreases top + 1 - i,
{
    if i > top {
        g1_identity_encoding()
    } else {
        let d = g1_double(straus_acc(sc, table, top, i + 1));
        let idx = digit_index(sc, sc.len(), i);
        if idx == 0 {
            d
        } else {
            g1_add(d, table[idx as int])
        }
    }
}

/// What the loop returns over `nbits` bit positions: the identity when no
/// bit is set, else the accumulator after processing every position from
/// the highest set bit down to 0.
pub open spec fn straus_eval(sc: Seq<Seq<u64>>, table: Seq<Seq<u8>>, nbits: int) -> Seq<u8> {
    let top = top_index(sc, nbits);
    if top < 0 {
        g1_identity_encoding()
    } else {
        straus_acc(sc, table, top, 0)
    }
}

/// Bit `n` of a scalar's limbs.
pub(crate) fn scalar_bit(limbs: &[u64; 4], n: usize) -> (r: bool)
    requires
        n < 256,
    ensures
        r == limb_bit(limbs@, n as int),
{
    let part = n / 64;
    let bit = n - (64 * part);
    let x = limbs[part];
    let b = bit as u64;
    proof {
        assert(((x & (1u64 << b)) > 0) == (((x >> b) & 1u64) == 1u64)) by (bit_vector)
            requires
                b < 64,
        ;
        assert(n as int / 64 == part as int && n as int % 64 == b as int);
    }
    x & (1u64 << b) > 0
}

/// Struct for precomputed subset sums for Strauss-Shamir multi-scalar
/// multiplication. The table contains all 2^n subset sums for n points.
#[derive(Debug)]
pub struct StrausPrecomputedTable {
    pub table: Vec<G1Point>,
}

impl Clone for StrausPrecomputedTable {
    fn clone(&self) -> (r: Self)
        ensures
            points_view(r.table@) == points_view(self.table@),
    {
        let mut table: Vec<G1Point> = Vec::with_capacity(self.table.len());
        let mut j: usize = 0;
        while j < self.table.len()
            invariant
                j <= self.table@.len(),
                table@.len() == j,
                forall|m: int| 0 <= m < j ==> (#[trigger] table@[m])@ == self.table@[m]@,
            decreases self.table@.len() - j,
        {
            table.push(self.table[j].clone());
            j = j + 1;
        }
        proof {
            assert(points_view(table@) =~= points_view(self.table@));
        }
        StrausPrecomputedTable { table }
    }
}

impl StrausPrecomputedTable {
    /// Precomputes sums of all subsets of the list of `points` for
    /// Strauss-Shamir. For n points, this creates a table of 2^n elements
    /// indexed by n-bit patterns.
    pub fn precompute_sums(points: &[G1Point]) -> (r: StrausPrecomputedTable)
        requires
            all_valid(points_view(points@)),
        ensures
            points_view(r.table@) == subset_table(points_view(points@), points@.len() as nat),
            all_valid(points_view(r.table@)),
    {
        let ghost pts = points_view(points@);
        let mut table: Vec<G1Point> = Vec::new();
        table.push(G1Point::identity());
        proof {
            assert(points_view(table@) =~= subset_table(pts, 0));
        }
        let mut k: usize = 0;
        while k < points.len()
            invariant
                0 <= k <= points@.len(),
                pts == points_view(points@),
                all_valid(pts),
                points_view(table@) == subset_table(pts, k as nat),
                all_valid(points_view(table@)),
            decreases points@.len() - k,
        {
            let p = &points[k];
            let len = table.len();
            let mut new_rows: Vec<G1Point> = Vec::new();
            let mut j: usize = 0;
            assert(g1_valid(pts[k as int]));
            while j < len
                invariant
                    0 <= j <= len,
                    len == table@.len(),
                    p@ == pts[k as int],
                    g1_valid(p@),
                    all_valid(points_view(table@)),
                    new_rows@.len() == j,
                    forall|m: int|
                        0 <= m < j ==> (#[trigger] new_rows@[m])@ == g1_add(table@[m]@, p@),
                    all_valid(points_view(new_rows@)),
                decreases len - j,
            {
                assert(g1_valid(points_view(table@)[j as int]));
                let s = table[j].add(p);
                let ghost before = new_rows@;
                new_rows.push(s);
                proof {
                    assert forall|m: int| 0 <= m < new_rows@.len() implies g1_valid(
                        #[trigger] points_view(new_rows@)[m],
                    ) by {
                        if m < j {
                            assert(new_rows@[m] == before[m]);
                            assert(g1_valid(points_view(before)[m]));
                        }
                    }
                }
                j = j + 1;
            }
            let ghost old_table = points_view(table@);
            let ghost new_rows_before = new_rows@;
            table.append(&mut new_rows);
            proof {
                let t = subset_table(pts, k as nat);
                assert(subset_table(pts, (k + 1) as nat) == t + t.map_values(
                    |x: Seq<u8>| g1_add(x, pts[k as int]),
                ));
                assert(points_view(table@) =~= subset_table(pts, (k + 1) as nat));
                assert forall|m: int| 0 <= m < table@.len() implies g1_valid(
                    #[trigger] points_view(table@)[m],
                ) by {
                    if m < old_table.len() {
                        assert(points_view(table@)[m] == old_table[m]);
                    } else {
                        assert(points_view(table@)[m] == points_view(new_rows_before)[m
                            - old_table.len()]);
                    }
                }
            }
            k = k + 1;
        }
        StrausPrecomputedTable { table }
    }
}


/// Views of an optional table of points.
pub open spec fn table_view(pre: Option<&[G1Point]>) -> Option<Seq<Seq<u8>>> {
    match pre {
        Some(t) => Some(points_view(t@)),
        None => None,
    }
}

/// The points of an optional table are valid.
pub open spec fn table_valid(pre: Option<&[G1Point]>) -> bool {
    pre matches Some(t) ==> all_valid(points_view(t@))
}

/// The sum of the two bases used by the plain Straus-Shamir loop: the only
/// entry of a one-entry precomputed table, else computed.
pub open spec fn straus_pair_sum(pre: Option<Seq<Seq<u8>>>, p: Seq<u8>, q: Seq<u8>) -> Seq<u8> {
    match pre {
        Some(t) => if t.len() == 1 {
            t[0]
        } else {
            g1_add(p, q)
        },
        None => g1_add(p, q),
    }
}

/// The table the plain Straus-Shamir loop selects from: index 1 for the
/// first base, 2 for the second, 3 for their sum (index 0 is never used).
pub open spec fn pair_table(p: Seq<u8>, q: Seq<u8>, pq: Seq<u8>) -> Seq<Seq<u8>> {
    seq![g1_identity_encoding(), p, q, pq]
}

/// No scalar has a set bit at any position in `[m, n)`.
pub open spec fn no_digits_between(sc: Seq<Seq<u64>>, m: int, n: int) -> bool {
    forall|i: int| m <= i < n ==> #[trigger] digit_index(sc, sc.len(), i) == 0
}

/// The digit at the top index is not zero.
pub proof fn lemma_top_index_nonzero_digit(sc: Seq<Seq<u64>>, n: int)
    requires
        top_index(sc, n) >= 0,
    ensures
        digit_index(sc, sc.len(), top_index(sc, n)) != 0,
    decreases n,
{
    if n > 0 && digit_index(sc, sc.len(), n - 1) == 0 {
        lemma_top_index_nonzero_digit(sc, n - 1);
    }
}

/// A position below `n` with a set bit is at or below the top index.
pub proof fn lemma_top_index_at_least(sc: Seq<Seq<u64>>, n: int, i: int)
    requires
        0 <= i < n,
        digit_index(sc, sc.len(), i) != 0,
    ensures
        top_index(sc, n) >= i,
    decreases n,
{
    if i < n - 1 && digit_index(sc, sc.len(), n - 1) == 0 {
        lemma_top_index_at_least(sc, n - 1, i);
    }
}

/// The top index is -1 or a position below `n`.
pub proof fn lemma_top_index_range(sc: Seq<Seq<u64>>, n: int)
    ensures
        -1 <= top_index(sc, n) < if n > 0 { n } else { 0 },
    decreases n,
{
    if n > 0 {
        lemma_top_index_range(sc, n - 1);
    }
}

/// Positions without set bits above `m` do not change the top index.
pub proof fn lemma_top_index_skip(sc: Seq<Seq<u64>>, m: int, n: int)
    requires
        0 <= m <= n,
        no_digits_between(sc, m, n),
    ensures
        top_index(sc, n) == top_index(sc, m),
    decreases n - m,
{
    if n > m {
        assert(digit_index(sc, sc.len(), n - 1) == 0);
        lemma_top_index_skip(sc, m, n - 1);
    }
}

/// The digit index of two scalars at a position.
pub proof fn lemma_digit_index_two(sc: Seq<Seq<u64>>, i: int)
    requires
        sc.len() == 2,
    ensures
        digit_index(sc, 2, i) == (if limb_bit(sc[0], i) { 1nat } else { 0nat }) + (if limb_bit(
            sc[1],
            i,
        ) {
            2nat
        } else {
            0nat
        }),
{
    lemma2_to64();
    assert(digit_index(sc, 0, i) == 0);
    assert(digit_index(sc, 1, i) == digit_index(sc, 0, i) + if limb_bit(sc[0], i) {
        pow2(0)
    } else {
        0
    });
}

/// Plain Straus-Shamir dual scalar multiplication, the algorithm used for
/// curves without a GLV endomorphism: interleaved double-and-add over the
/// bits of both scalars, from the highest set bit down, adding the first
/// base, the second base or their sum. A one-entry precomputed table is
/// taken as the sum of the two bases.
pub fn straus_dual_scalar_mul(
    first_scalar: &Scalar,
    second_scalar: &Scalar,
    first_base: &G1Point,
    second_base: &G1Point,
    pre_computed_table: Option<&[G1Point]>,
) -> (r: G1Point)
    requires
        scalar_canonical(first_scalar@),
        scalar_canonical(second_scalar@),
        g1_valid(first_base@),
        g1_valid(second_base@),
        table_valid(pre_computed_table),
    ensures
        r@ == straus_eval(
            seq![first_scalar@, second_scalar@],
            pair_table(
                first_base@,
                second_base@,
                straus_pair_sum(table_view(pre_computed_table), first_base@, second_base@),
            ),
            256,
        ),
        g1_valid(r@),
{
    let ghost sc = seq![first_scalar@, second_scalar@];
    let mut res = G1Point::identity();

    let first_scalar_as_big_int = first_scalar.limbs();
    let second_scalar_as_big_int = second_scalar.limbs();

    let n1: usize = first_scalar_as_big_int.len() * 64;
    let n2: usize = second_scalar_as_big_int.len() * 64;

    let mut n: usize = if n1 > n2 {
        n1
    } else {
        n2
    };

    // Skip the leading zero bits
    let mut found = false;
    while n > 0
        invariant_except_break
            n <= 256,
            n1 == 256,
            n2 == 256,
            no_digits_between(sc, n as int, 256),
            !found,
        invariant
            sc == seq![first_scalar_as_big_int@, second_scalar_as_big_int@],
        ensures
            n <= 256,
            found ==> n < 256 && digit_index(sc, 2, n as int) != 0 && no_digits_between(
                sc,
                n as int + 1,
                256,
            ),
            !found ==> n == 0 && no_digits_between(sc, 0, 256),
        decreases n,
    {
        n -= 1;
        proof {
            lemma_digit_index_two(sc, n as int);
        }
        if n1 > n {
            if scalar_bit(&first_scalar_as_big_int, n) {
                found = true;
                break;
            }
        }
        if n2 > n {
            if scalar_bit(&second_scalar_as_big_int, n) {
                found = true;
                break;
            }
        }
    }
    let ghost top = top_index(sc, 256);
    proof {
        if found {
            lemma_top_index_skip(sc, n as int + 1, 256);
        } else {
            lemma_top_index_skip(sc, 0, 256);
        }
        assert(found ==> top == n as int);
        assert(!found ==> top == -1);
    }

    if !found {
        return res;
    }

    let first_base_plus_second_base = match pre_computed_table {
        Some(table) => if table.len() == 1 {
            assert(g1_valid(points_view(table@)[0]));
            table[0].clone()
        } else {
            first_base.add(second_base)
        },
        None => first_base.add(second_base),
    };
    let ghost tbl = pair_table(first_base@, second_base@, first_base_plus_second_base@);
    assert(tbl == pair_table(
        first_base@,
        second_base@,
        straus_pair_sum(table_view(pre_computed_table), first_base@, second_base@),
    ));

    n += 1;
    while n > 0
        invariant
            0 <= top < 256,
            n <= top + 1,
            sc == seq![first_scalar_as_big_int@, second_scalar_as_big_int@],
            n1 == 256,
            n2 == 256,
            g1_valid(res@),
            g1_valid(first_base@),
            g1_valid(second_base@),
            g1_valid(first_base_plus_second_base@),
            tbl == pair_table(first_base@, second_base@, first_base_plus_second_base@),
            res@ == straus_acc(sc, tbl, top, n as int),
        decreases n,
    {
        n -= 1;
        let first_scalar_bit = if n1 > n {
            scalar_bit(&first_scalar_as_big_int, n)
        } else {
            false
        };
        let second_scalar_bit: bool = if n2 > n {
            scalar_bit(&second_scalar_as_big_int, n)
        } else {
            false
        };
        proof {
            lemma_digit_index_two(sc, n as int);
        }

        res = res.double();
        if !first_scalar_bit && !second_scalar_bit {
            continue;
        } else {
            res = if first_scalar_bit && second_scalar_bit {
                res.add(&first_base_plus_second_base)
            } else if first_scalar_bit {
                res.add(first_base)
            } else {
                res.add(second_base)
            };
        }
    }
    res
}


/// The GLV decomposition of a scalar, `GLVConfig::scalar_decomposition` of
/// the G1 configuration: `(sign1, k1, sign2, k2)` with a sign `true` for
/// a non-negative part, each part given by its canonical limbs.
pub uninterp spec fn glv_decompose(k: Seq<u64>) -> (bool, Seq<u64>, bool, Seq<u64>);

/// The eigenvalue of the GLV endomorphism of G1 (`GLVConfig::LAMBDA`).
pub open spec fn glv_lambda() -> nat {
    52435875175126190479447740508185965837461563690374988244538805122978187051009nat
}

/// A part of a decomposition with its sign applied.
pub open spec fn signed_value(sign: bool, v: Seq<u64>) -> int {
    if sign {
        limbs_value(v) as int
    } else {
        -(limbs_value(v) as int)
    }
}

/// The parts of a decomposition recombine to the scalar: `k1 + lambda*k2`,
/// with the signs applied, is `k` modulo the group order.
pub open spec fn glv_recombines(k: Seq<u64>, d: (bool, Seq<u64>, bool, Seq<u64>)) -> bool {
    (signed_value(d.0, d.1) + glv_lambda() * signed_value(d.2, d.3) - limbs_value(k)) % (
    scalar_modulus() as int) == 0
}

/// Calls `GLVConfig::scalar_decomposition` of the G1 configuration of
/// BLS12-381 on a canonical scalar. As documented there, the parts
/// recombine to the scalar as `k1 + lambda*k2` (signs applied); they are
/// field elements, so their limbs are canonical.
#[verifier::external_body]
fn glv_decompose_raw(k: [u64; 4]) -> (r: ((bool, [u64; 4]), (bool, [u64; 4])))
    requires
        scalar_canonical(k@),
    ensures
        (r.0.0, r.0.1@, r.1.0, r.1.1@) == glv_decompose(k@),
        scalar_canonical(r.0.1@),
        scalar_canonical(r.1.1@),
        glv_recombines(k@, (r.0.0, r.0.1@, r.1.0, r.1.1@)),
{
    let ((s1, k1), (s2, k2)) = G1Config::scalar_decomposition(Fr::from_bigint(BigInt::new(k)).unwrap());
    ((s1, k1.into_bigint().0), (s2, k2.into_bigint().0))
}

/// What the decomposition of a canonical scalar satisfies: both parts are
/// canonical and they recombine to the scalar.
pub open spec fn glv_decomposition_facts(k: Seq<u64>) -> bool {
    &&& scalar_canonical(glv_decompose(k).1)
    &&& scalar_canonical(glv_decompose(k).3)
    &&& glv_recombines(k, glv_decompose(k))
}

/// The sign index of four decomposition signs: bit `j` is set when sign `j`
/// is negative (`false`).
pub open spec fn sign_index_spec(s11: bool, s12: bool, s21: bool, s22: bool) -> usize {
    ((if s11 { 0usize } else { 1usize }) + (if s12 { 0usize } else { 2usize }) + (if s21 {
        0usize
    } else {
        4usize
    }) + (if s22 { 0usize } else { 8usize })) as usize
}

/// Computes the sign index from scalar decomposition signs.
/// sign=true means positive (bit=0), sign=false means negative (bit=1).
pub fn glv_sign_index(sgn_s1_1: bool, sgn_s1_2: bool, sgn_s2_1: bool, sgn_s2_2: bool) -> (r: usize)
    ensures
        r == sign_index_spec(sgn_s1_1, sgn_s1_2, sgn_s2_1, sgn_s2_2),
        r < 16,
{
    let bit0: usize = if sgn_s1_1 {
        0
    } else {
        1
    };
    let bit1: usize = if sgn_s1_2 {
        0
    } else {
        2
    };
    let bit2: usize = if sgn_s2_1 {
        0
    } else {
        4
    };
    let bit3: usize = if sgn_s2_2 {
        0
    } else {
        8
    };
    proof {
        assert(bit0 | bit1 | bit2 | bit3 == bit0 + bit1 + bit2 + bit3) by (bit_vector)
            requires
                bit0 == 0 || bit0 == 1,
                bit1 == 0 || bit1 == 2,
                bit2 == 0 || bit2 == 4,
                bit3 == 0 || bit3 == 8,
        ;
    }
    bit0 | bit1 | bit2 | bit3
}

/// The four bases of a GLV dual multiplication by `P` and `Q`:
/// `[P, phi(P), Q, phi(Q)]`.
pub open spec fn glv_bases(p: Seq<u8>, q: Seq<u8>) -> Seq<Seq<u8>> {
    seq![p, g1_endomorphism(p), q, g1_endomorphism(q)]
}

/// Bit `j` of a sign index is clear.
pub open spec fn sign_bit_clear(s: usize, j: int) -> bool {
    ((s >> (j as usize)) & 1usize) == 0usize
}

/// The bases with the signs of a sign index applied: base `j` is negated
/// when bit `j` of the index is set.
pub open spec fn signed_points(bases: Seq<Seq<u8>>, s: usize) -> Seq<Seq<u8>> {
    Seq::new(
        bases.len(),
        |j: int|
            if sign_bit_clear(s, j) {
                bases[j]
            } else {
                g1_neg(bases[j])
            },
    )
}

/// The concatenated subset-sum tables of the signed bases for the sign
/// indices below `s`.
pub open spec fn glv_tables(bases: Seq<Seq<u8>>, s: usize) -> Seq<Seq<u8>>
    decreases s,
{
    if s == 0 {
        Seq::empty()
    } else {
        glv_tables(bases, (s - 1) as usize) + subset_table(
            signed_points(bases, (s - 1) as usize),
            4,
        )
    }
}

/// A subset table of `k` points has `2^k` entries.
pub proof fn lemma_subset_table_len(points: Seq<Seq<u8>>, k: nat)
    ensures
        subset_table(points, k).len() == pow2(k),
    decreases k,
{
    lemma2_to64();
    if k > 0 {
        lemma_subset_table_len(points, (k - 1) as nat);
        vstd::arithmetic::power2::lemma_pow2_unfold(k);
    }
}

/// The table for sign index `s` sits at entries `16*s .. 16*s + 16`.
pub proof fn lemma_glv_tables_index(bases: Seq<Seq<u8>>, n: usize, s: usize, i: int)
    requires
        s < n <= 16,
        0 <= i < 16,
    ensures
        glv_tables(bases, n).len() == 16 * n,
        glv_tables(bases, n)[16 * s + i] == subset_table(signed_points(bases, s), 4)[i],
    decreases n,
{
    lemma2_to64();
    lemma_glv_tables_len(bases, n);
    lemma_subset_table_len(signed_points(bases, (n - 1) as usize), 4);
    if s < n - 1 {
        lemma_glv_tables_index(bases, (n - 1) as usize, s, i);
    } else {
        lemma_glv_tables_len(bases, (n - 1) as usize);
    }
}

/// The concatenated tables have 16 entries per sign index.
pub proof fn lemma_glv_tables_len(bases: Seq<Seq<u8>>, n: usize)
    requires
        n <= 16,
    ensures
        glv_tables(bases, n).len() == 16 * n,
    decreases n,
{
    lemma2_to64();
    if n > 0 {
        lemma_glv_tables_len(bases, (n - 1) as usize);
        lemma_subset_table_len(signed_points(bases, (n - 1) as usize), 4);
    }
}

impl StrausPrecomputedTable {
    /// Creates a new StrausPrecomputedTable with 256 entries covering all
    /// sign combinations. Each point is GLV-decomposed into two points, giving
    /// 4 points total. With 4 sign choices, we have 16 sign combinations × 16
    /// subset sums = 256 entries.
    ///
    /// Table layout: entries [sign_idx * 16 .. sign_idx * 16 + 16] contain the
    /// subset sum table for sign combination `sign_idx`.
    pub fn new(generator: G1Point, public_key: G1Point) -> (r: StrausPrecomputedTable)
        requires
            g1_valid(generator@),
            g1_valid(public_key@),
        ensures
            points_view(r.table@) == glv_tables(glv_bases(generator@, public_key@), 16),
            r.table@.len() == 256,
            all_valid(points_view(r.table@)),
    {
        // GLV decompose generator: G -> (G, phi(G))
        let gen_glv = generator.endomorphism();
        // GLV decompose public key: PK -> (PK, phi(PK))
        let pk_glv = public_key.endomorphism();

        let ghost bases = glv_bases(generator@, public_key@);
        let points = vec![generator, gen_glv, public_key, pk_glv];
        proof {
            assert(points_view(points@) =~= bases);
        }

        // Build tables for all 16 sign combinations
        let mut table: Vec<G1Point> = Vec::with_capacity(256);
        let mut sign_idx: usize = 0;
        while sign_idx < 16
            invariant
                sign_idx <= 16,
                points_view(points@) == bases,
                points@.len() == 4,
                all_valid(bases),
                points_view(table@) == glv_tables(bases, sign_idx),
                all_valid(points_view(table@)),
            decreases 16 - sign_idx,
        {
            let mut signed_points_vec: Vec<G1Point> = Vec::new();
            let mut j: usize = 0;
            while j < 4
                invariant
                    j <= 4,
                    sign_idx < 16,
                    points_view(points@) == bases,
                    points@.len() == 4,
                    all_valid(bases),
                    signed_points_vec@.len() == j,
                    forall|m: int|
                        0 <= m < j ==> (#[trigger] points_view(signed_points_vec@)[m])
                            == signed_points(bases, sign_idx)[m],
                    all_valid(points_view(signed_points_vec@)),
                decreases 4 - j,
            {
                assert(g1_valid(bases[j as int]));
                let p = if sign_idx & (1usize << j) == 0 {
                    points[j].clone()
                } else {
                    points[j].neg()
                };
                proof {
                    let sj = sign_idx;
                    let jj = j;
                    assert((sj & (1usize << jj) == 0) == (((sj >> jj) & 1usize) == 0usize))
                        by (bit_vector)
                        requires
                            jj < 4,
                    ;
                    assert(p@ == signed_points(bases, sign_idx)[j as int]);
                }
                let ghost before = signed_points_vec@;
                signed_points_vec.push(p);
                proof {
                    assert forall|m: int| 0 <= m < j + 1 implies (#[trigger] points_view(
                        signed_points_vec@,
                    )[m]) == signed_points(bases, sign_idx)[m] && g1_valid(
                        points_view(signed_points_vec@)[m],
                    ) by {
                        if m < j {
                            assert(signed_points_vec@[m] == before[m]);
                            assert(g1_valid(points_view(before)[m]));
                        }
                    }
                }
                j = j + 1;
            }
            proof {
                assert(points_view(signed_points_vec@) =~= signed_points(bases, sign_idx));
            }
            let mut subset_table_rows = Self::precompute_sums(signed_points_vec.as_slice());
            let ghost old_table = points_view(table@);
            let ghost rows = points_view(subset_table_rows.table@);
            table.append(&mut subset_table_rows.table);
            proof {
                assert(points_view(table@) =~= old_table + rows);
                assert forall|m: int| 0 <= m < table@.len() implies g1_valid(
                    #[trigger] points_view(table@)[m],
                ) by {
                    if m < old_table.len() {
                        assert(points_view(table@)[m] == old_table[m]);
                    } else {
                        assert(points_view(table@)[m] == rows[m - old_table.len()]);
                    }
                }
            }
            sign_idx = sign_idx + 1;
        }
        proof {
            lemma_glv_tables_len(bases, 16);
        }
        StrausPrecomputedTable { table }
    }
}


/// The 16-entry table the GLV loop selects from: the slice for the sign
/// index of a 256-entry precomputed table, else the subset sums of the
/// signed bases computed at run time.
pub open spec fn glv_lookup_table(
    pre: Option<Seq<Seq<u8>>>,
    p: Seq<u8>,
    q: Seq<u8>,
    sidx: usize,
) -> Seq<Seq<u8>> {
    if pre is Some && pre->0.len() == 256 {
        pre->0.subrange(16 * sidx, 16 * sidx + 16)
    } else {
        subset_table(signed_points(glv_bases(p, q), sidx), 4)
    }
}

/// What the GLV dual scalar multiplication returns: both scalars are
/// decomposed, and the four parts run through the interleaved loop with the
/// table of their signed bases.
pub open spec fn glv_dual_spec(
    a: Seq<u64>,
    b: Seq<u64>,
    p: Seq<u8>,
    q: Seq<u8>,
    pre: Option<Seq<Seq<u8>>>,
) -> Seq<u8> {
    let (s11, k11, s12, k12) = glv_decompose(a);
    let (s21, k21, s22, k22) = glv_decompose(b);
    straus_eval(
        seq![k11, k12, k21, k22],
        glv_lookup_table(pre, p, q, sign_index_spec(s11, s12, s21, s22)),
        256,
    )
}

/// The digit index of four scalars at a position.
pub proof fn lemma_digit_index_four(sc: Seq<Seq<u64>>, i: int)
    requires
        sc.len() == 4,
    ensures
        digit_index(sc, 4, i) == (if limb_bit(sc[0], i) { 1nat } else { 0nat }) + (if limb_bit(
            sc[1],
            i,
        ) {
            2nat
        } else {
            0nat
        }) + (if limb_bit(sc[2], i) { 4nat } else { 0nat }) + (if limb_bit(sc[3], i) {
            8nat
        } else {
            0nat
        }),
{
    lemma2_to64();
    assert(digit_index(sc, 0, i) == 0);
    assert(digit_index(sc, 1, i) == digit_index(sc, 0, i) + if limb_bit(sc[0], i) {
        pow2(0)
    } else {
        0
    });
    assert(digit_index(sc, 2, i) == digit_index(sc, 1, i) + if limb_bit(sc[1], i) {
        pow2(1)
    } else {
        0
    });
    assert(digit_index(sc, 3, i) == digit_index(sc, 2, i) + if limb_bit(sc[2], i) {
        pow2(2)
    } else {
        0
    });
}

/// Bit `j` of the sign index is clear exactly when sign `j` is non-negative.
pub proof fn lemma_sign_index_bits(s11: bool, s12: bool, s21: bool, s22: bool)
    ensures
        sign_bit_clear(sign_index_spec(s11, s12, s21, s22), 0) == s11,
        sign_bit_clear(sign_index_spec(s11, s12, s21, s22), 1) == s12,
        sign_bit_clear(sign_index_spec(s11, s12, s21, s22), 2) == s21,
        sign_bit_clear(sign_index_spec(s11, s12, s21, s22), 3) == s22,
{
    let b0: usize = if s11 { 0 } else { 1 };
    let b1: usize = if s12 { 0 } else { 2 };
    let b2: usize = if s21 { 0 } else { 4 };
    let b3: usize = if s22 { 0 } else { 8 };
    let x: usize = (b0 + b1 + b2 + b3) as usize;
    assert(x == sign_index_spec(s11, s12, s21, s22));
    assert((((x >> 0usize) & 1usize) == 0usize) == (b0 == 0) && (((x >> 1usize) & 1usize)
        == 0usize) == (b1 == 0) && (((x >> 2usize) & 1usize) == 0usize) == (b2 == 0) && (((x
        >> 3usize) & 1usize) == 0usize) == (b3 == 0)) by (bit_vector)
        requires
            b0 == 0 || b0 == 1,
            b1 == 0 || b1 == 2,
            b2 == 0 || b2 == 4,
            b3 == 0 || b3 == 8,
            x == b0 + b1 + b2 + b3,
    ;
}

/// The point itself when the sign is non-negative, else its negation.
fn apply_sign(p: &G1Point, sign: bool) -> (r: G1Point)
    requires
        g1_valid(p@),
    ensures
        r@ == (if sign { p@ } else { g1_neg(p@) }),
        g1_valid(r@),
{
    if !sign {
        p.neg()
    } else {
        p.clone()
    }
}

/// GLV-optimized dual scalar multiplication: both scalars are GLV-decomposed
/// and the four parts are multiplied together by Straus-Shamir with a table
/// of the 16 subset sums of the signed bases `P, phi(P), Q, phi(Q)`. A
/// 256-entry precomputed table (as built by `StrausPrecomputedTable::new`)
/// supplies that table by the sign index; otherwise it is computed.
fn glv_dual_scalar_mul(
    first_scalar: &Scalar,
    second_scalar: &Scalar,
    first_base: &G1Point,
    second_base: &G1Point,
    pre_computed_table: Option<&[G1Point]>,
) -> (r: G1Point)
    requires
        scalar_canonical(first_scalar@),
        scalar_canonical(second_scalar@),
        g1_valid(first_base@),
        g1_valid(second_base@),
        table_valid(pre_computed_table),
    ensures
        r@ == glv_dual_spec(
            first_scalar@,
            second_scalar@,
            first_base@,
            second_base@,
            table_view(pre_computed_table),
        ),
        g1_valid(r@),
        glv_decomposition_facts(first_scalar@),
        glv_decomposition_facts(second_scalar@),
{
    // GLV decompose both scalars
    let ((sgn_s1_1, s1_1), (sgn_s1_2, s1_2)) = glv_decompose_raw(first_scalar.limbs());
    let ((sgn_s2_1, s2_1), (sgn_s2_2, s2_2)) = glv_decompose_raw(second_scalar.limbs());
    let ghost sidx = sign_index_spec(sgn_s1_1, sgn_s1_2, sgn_s2_1, sgn_s2_2);
    let ghost tbl16 = glv_lookup_table(
        table_view(pre_computed_table),
        first_base@,
        second_base@,
        sidx,
    );

    // Build or use precomputed table for 4 points
    let use_precomputed = match pre_computed_table {
        Some(t) => t.len() == 256,
        None => false,
    };
    let owned_table: Vec<G1Point> = if use_precomputed {
        Vec::new()
    } else {
        // Compute 16-element table at runtime with correct signs
        let p1_1 = apply_sign(first_base, sgn_s1_1);
        let p1_2 = apply_sign(&first_base.endomorphism(), sgn_s1_2);
        let p2_1 = apply_sign(second_base, sgn_s2_1);
        let p2_2 = apply_sign(&second_base.endomorphism(), sgn_s2_2);
        let points = vec![p1_1, p1_2, p2_1, p2_2];
        proof {
            lemma_sign_index_bits(sgn_s1_1, sgn_s1_2, sgn_s2_1, sgn_s2_2);
            assert(points_view(points@) =~= signed_points(
                glv_bases(first_base@, second_base@),
                sidx,
            ));
        }
        StrausPrecomputedTable::precompute_sums(points.as_slice()).table
    };
    let (table, offset): (&[G1Point], usize) = match pre_computed_table {
        Some(t) => if t.len() == 256 {
            // Use precomputed 256-element table: select the 16-element slice by sign index
            let sign_idx = glv_sign_index(sgn_s1_1, sgn_s1_2, sgn_s2_1, sgn_s2_2);
            (t, sign_idx * 16)
        } else {
            (owned_table.as_slice(), 0)
        },
        None => (owned_table.as_slice(), 0),
    };
    proof {
        lemma2_to64();
        lemma_subset_table_len(signed_points(glv_bases(first_base@, second_base@), sidx), 4);
        assert(offset + 16 <= table@.len());
        assert forall|i: int| 0 <= i < 16 implies #[trigger] tbl16[i] == points_view(table@)[offset
            + i] && g1_valid(tbl16[i]) by {
            assert(g1_valid(points_view(table@)[offset + i]));
        }
    }

    // Convert scalars to big integers for bit access
    let s1_1_bits = s1_1;
    let s1_2_bits = s1_2;
    let s2_1_bits = s2_1;
    let s2_2_bits = s2_2;
    let ghost sc = seq![s1_1@, s1_2@, s2_1@, s2_2@];

    // Get bit lengths
    let n1: usize = s1_1_bits.len() * 64;
    let n2: usize = s1_2_bits.len() * 64;
    let n3: usize = s2_1_bits.len() * 64;
    let n4: usize = s2_2_bits.len() * 64;

    let mut n: usize = max_usize(max_usize(n1, n2), max_usize(n3, n4));

    // Skip the leading zero bits
    let mut found = false;
    while n > 0
        invariant_except_break
            n <= 256,
            no_digits_between(sc, n as int, 256),
            !found,
        invariant
            n1 == 256,
            n2 == 256,
            n3 == 256,
            n4 == 256,
            sc == seq![s1_1_bits@, s1_2_bits@, s2_1_bits@, s2_2_bits@],
        ensures
            n <= 256,
            found ==> n < 256 && digit_index(sc, 4, n as int) != 0 && no_digits_between(
                sc,
                n as int + 1,
                256,
            ),
            !found ==> n == 0 && no_digits_between(sc, 0, 256),
        decreases n,
    {
        n -= 1;
        proof {
            lemma_digit_index_four(sc, n as int);
        }
        if (n1 > n && scalar_bit(&s1_1_bits, n)) || (n2 > n && scalar_bit(&s1_2_bits, n)) || (n3
            > n && scalar_bit(&s2_1_bits, n)) || (n4 > n && scalar_bit(&s2_2_bits, n)) {
            found = true;
            break;
        }
    }
    let ghost top = top_index(sc, 256);
    proof {
        if found {
            lemma_top_index_skip(sc, n as int + 1, 256);
        } else {
            lemma_top_index_skip(sc, 0, 256);
        }
    }

    if !found {
        return G1Point::identity();
    }

    let mut res = G1Point::identity();
    let table_len = table.len();

    // Straus-Shamir with 4 scalars using precomputed table
    n += 1;
    while n > 0
        invariant
            0 <= top < 256,
            n <= top + 1,
            sc == seq![s1_1_bits@, s1_2_bits@, s2_1_bits@, s2_2_bits@],
            n1 == 256,
            n2 == 256,
            n3 == 256,
            n4 == 256,
            offset + 16 <= table@.len(),
            table_len == table@.len(),
            forall|i: int|
                0 <= i < 16 ==> #[trigger] tbl16[i] == points_view(table@)[offset + i] && g1_valid(
                    tbl16[i],
                ),
            g1_valid(res@),
            res@ == straus_acc(sc, tbl16, top, n as int),
        decreases n,
    {
        n -= 1;

        // Build 4-bit index from current bits of all 4 scalars
        let bit0: usize = if n1 > n && scalar_bit(&s1_1_bits, n) {
            1
        } else {
            0
        };
        let bit1: usize = if n2 > n && scalar_bit(&s1_2_bits, n) {
            2
        } else {
            0
        };
        let bit2: usize = if n3 > n && scalar_bit(&s2_1_bits, n) {
            4
        } else {
            0
        };
        let bit3: usize = if n4 > n && scalar_bit(&s2_2_bits, n) {
            8
        } else {
            0
        };
        proof {
            assert(bit0 | bit1 | bit2 | bit3 == bit0 + bit1 + bit2 + bit3) by (bit_vector)
                requires
                    bit0 == 0 || bit0 == 1,
                    bit1 == 0 || bit1 == 2,
                    bit2 == 0 || bit2 == 4,
                    bit3 == 0 || bit3 == 8,
            ;
            lemma_digit_index_four(sc, n as int);
        }
        let idx = bit0 | bit1 | bit2 | bit3;
        assert(idx < 16);

        res = res.double();
        if idx != 0 {
            assert(tbl16[idx as int] == points_view(table@)[offset + idx]);
            res = res.add(&table[offset + idx]);
        }
    }
    res
}

/// The larger of two sizes (`core::cmp::max`).
fn max_usize(a: usize, b: usize) -> (r: usize)
    ensures
        r == if a > b { a } else { b },
{
    if a > b {
        a
    } else {
        b
    }
}


/// Using the 256-entry table that `StrausPrecomputedTable::new(P, Q)` builds
/// gives the same result as computing the 16-entry table at run time: for
/// all scalars `a`, `b` and bases `P`, `Q`,
/// `G1Point::dual_scalar_mul(a, b, P, Q, Some(new(P, Q).table))` equals
/// `G1Point::dual_scalar_mul(a, b, P, Q, None)`.
pub proof fn law_precomputed_table_matches_runtime(
    a: Seq<u64>,
    b: Seq<u64>,
    p: Seq<u8>,
    q: Seq<u8>,
)
    ensures
        glv_dual_spec(a, b, p, q, Some(glv_tables(glv_bases(p, q), 16))) == glv_dual_spec(
            a,
            b,
            p,
            q,
            None,
        ),
{
    let (s11, k11, s12, k12) = glv_decompose(a);
    let (s21, k21, s22, k22) = glv_decompose(b);
    let sidx = sign_index_spec(s11, s12, s21, s22);
    let t = glv_tables(glv_bases(p, q), 16);
    lemma_glv_tables_len(glv_bases(p, q), 16);
    lemma_subset_table_len(signed_points(glv_bases(p, q), sidx), 4);
    lemma2_to64();
    assert forall|i: int| 0 <= i < 16 implies t.subrange(16 * sidx, 16 * sidx + 16)[i]
        == subset_table(signed_points(glv_bases(p, q), sidx), 4)[i] by {
        lemma_glv_tables_index(glv_bases(p, q), 16, sidx, i);
    }
    assert(t.subrange(16 * sidx, 16 * sidx + 16) =~= subset_table(
        signed_points(glv_bases(p, q), sidx),
        4,
    ));
}


/// Plain Straus-Shamir takes from a precomputed table only a single entry,
/// as the sum of the bases: for all scalars, bases `P`, `Q` and any table
/// argument that is absent, has another length, or holds exactly `P + Q`,
/// `straus_dual_scalar_mul(a, b, P, Q, pre)` equals
/// `straus_dual_scalar_mul(a, b, P, Q, None)`.
pub proof fn law_straus_ignores_other_tables(
    a: Seq<u64>,
    b: Seq<u64>,
    p: Seq<u8>,
    q: Seq<u8>,
    pre: Option<Seq<Seq<u8>>>,
)
    requires
        pre is None || pre->0.len() != 1 || pre->0[0] == g1_add(p, q),
    ensures
        straus_eval(seq![a, b], pair_table(p, q, straus_pair_sum(pre, p, q)), 256) == straus_eval(
            seq![a, b],
            pair_table(p, q, g1_add(p, q)),
            256,
        ),
{
}

/// A precomputed table that is not a 256-entry table is ignored: for all
/// scalars `a`, `b`, bases `P`, `Q` and any table argument that is absent
/// or has another length (one entry, say), `G1Point::dual_scalar_mul(a, b,
/// P, Q, pre)` equals `G1Point::dual_scalar_mul(a, b, P, Q, None)`.
pub proof fn law_glv_ignores_tables_of_other_sizes(
    a: Seq<u64>,
    b: Seq<u64>,
    p: Seq<u8>,
    q: Seq<u8>,
    pre: Option<Seq<Seq<u8>>>,
)
    requires
        pre is None || pre->0.len() != 256,
    ensures
        glv_dual_spec(a, b, p, q, pre) == glv_dual_spec(a, b, p, q, None),
{
}


/// Trait for dual scalar multiplication (computing `a*P + b*Q` efficiently).
/// This is used in Chaum-Pedersen signature verification.
pub trait DualScalarMultiplication: Sized {
    /// The value is a point of the group.
    spec fn is_point(&self) -> bool;

    fn dual_scalar_mul(
        first_scalar: &Scalar,
        second_scalar: &Scalar,
        first_base: &Self,
        second_base: &Self,
        pre_computed_table: Option<&[Self]>,
    ) -> (r: Self)
        requires
            scalar_canonical(first_scalar@),
            scalar_canonical(second_scalar@),
            first_base.is_point(),
            second_base.is_point(),
            pre_computed_table matches Some(t) ==> forall|i: int|
                0 <= i < t@.len() ==> (#[trigger] t@[i]).is_point(),
        ensures
            r.is_point(),
    ;
}

/// Marker trait for curve configurations with a GLV endomorphism, whose
/// dual scalar multiplication uses the GLV decomposition.
pub trait BLSGLVConfig {

}

/// G1 of BLS12-381 has a GLV endomorphism.
impl BLSGLVConfig for G1Point {

}

/// GLV-optimized dual scalar multiplication for G1 of BLS12-381.
impl DualScalarMultiplication for G1Point {
    open spec fn is_point(&self) -> bool {
        g1_valid(self@)
    }

    fn dual_scalar_mul(
        first_scalar: &Scalar,
        second_scalar: &Scalar,
        first_base: &Self,
        second_base: &Self,
        pre_computed_table: Option<&[Self]>,
    ) -> (r: Self)
        ensures
            r@ == glv_dual_spec(
                first_scalar@,
                second_scalar@,
                first_base@,
                second_base@,
                table_view(pre_computed_table),
            ),
            glv_decomposition_facts(first_scalar@),
            glv_decomposition_facts(second_scalar@),
    {
        proof {
            if let Some(t) = pre_computed_table {
                assert forall|j: int| 0 <= j < t@.len() implies g1_valid(
                    #[trigger] points_view(t@)[j],
                ) by {
                    assert(t@[j].is_point());
                }
            }
        }
        glv_dual_scalar_mul(
            first_scalar,
            second_scalar,
            first_base,
            second_base,
            pre_computed_table,
        )
    }
}

} // verus!
