//! What the interleaved double-and-add loops and the signatures compute,
//! stated over sums of scalar multiples, for an addition that obeys the laws
//! of an abelian group.
use vstd::prelude::*;

use vstd::arithmetic::power2::{lemma2_to64, lemma_pow2_pos, lemma_pow2_unfold, pow2};

use crate::dual_scalar_mul::{
    all_valid, digit_index, glv_decomposition_facts, glv_bases, glv_lambda, glv_recombines, lemma_sign_index_bits, signed_value, glv_decompose, glv_dual_spec, glv_tables,
    law_precomputed_table_matches_runtime, law_glv_ignores_tables_of_other_sizes,
    lemma_subset_table_len, pair_table, sign_index_spec,
    signed_points, straus_acc, straus_eval, straus_pair_sum, subset_table, top_index,
    lemma_top_index_range, lemma_glv_tables_index, sign_bit_clear,
};
use crate::chaum_pedersen_signature::{
    cp_challenge, cp_point_a, cp_point_b, cp_response_value, cp_verifies, cp_witness,
};
use crate::group::{
    g1_add, g1_compress, g1_double, g1_endomorphism, g1_generator_encoding, g1_identity_encoding,
    g1_mul, g1_neg, g1_valid,
};
use crate::scalar::{limb_bit, limbs_value, scalar_canonical, scalar_modulus};

verus! {

/// The laws of an abelian group for the addition of points of G1, on valid
/// encodings: the identity is neutral, addition is closed, commutative and
/// associative, doubling is adding a point to itself, and every point has a
/// valid negation that sums with it to the identity.
#[verifier::opaque]
pub open spec fn abelian_group_laws() -> bool {
    &&& g1_valid(g1_identity_encoding())
    &&& forall|a: Seq<u8>, b: Seq<u8>|
        g1_valid(a) && g1_valid(b) ==> #[trigger] g1_valid(g1_add(a, b))
    &&& forall|a: Seq<u8>, b: Seq<u8>|
        g1_valid(a) && g1_valid(b) ==> #[trigger] g1_add(a, b) == g1_add(b, a)
    &&& forall|a: Seq<u8>, b: Seq<u8>, c: Seq<u8>|
        g1_valid(a) && g1_valid(b) && g1_valid(c) ==> #[trigger] g1_add(g1_add(a, b), c)
            == g1_add(a, g1_add(b, c))
    &&& forall|a: Seq<u8>| g1_valid(a) ==> #[trigger] g1_add(a, g1_identity_encoding()) == a
    &&& forall|a: Seq<u8>| g1_valid(a) ==> #[trigger] g1_double(a) == g1_add(a, a)
    &&& forall|a: Seq<u8>|
        g1_valid(a) ==> g1_valid(#[trigger] g1_neg(a)) && g1_add(a, g1_neg(a))
            == g1_identity_encoding()
}

/// Instances of the group laws for given points.
proof fn lemma_laws(a: Seq<u8>, b: Seq<u8>, c: Seq<u8>)
    requires
        abelian_group_laws(),
        g1_valid(a),
        g1_valid(b),
        g1_valid(c),
    ensures
        g1_valid(g1_identity_encoding()),
        g1_valid(g1_add(a, b)),
        g1_add(a, b) == g1_add(b, a),
        g1_add(g1_add(a, b), c) == g1_add(a, g1_add(b, c)),
        g1_add(a, g1_identity_encoding()) == a,
        g1_add(g1_identity_encoding(), a) == a,
        g1_double(a) == g1_add(a, a),
        g1_valid(g1_neg(a)),
        g1_add(a, g1_neg(a)) == g1_identity_encoding(),
{
    reveal(abelian_group_laws);
    assert(g1_add(a, g1_identity_encoding()) == g1_add(g1_identity_encoding(), a));
    assert(g1_valid(g1_add(a, b)));
    assert(g1_add(g1_add(a, b), c) == g1_add(a, g1_add(b, c)));
    assert(g1_double(a) == g1_add(a, a));
    assert(g1_valid(g1_neg(a)));
}

/// The identity is a valid point.
proof fn lemma_identity_valid()
    requires
        abelian_group_laws(),
    ensures
        g1_valid(g1_identity_encoding()),
{
    reveal(abelian_group_laws);
}

/// `(a + b) + (c + d) == (a + c) + (b + d)`.
proof fn lemma_add_swap(a: Seq<u8>, b: Seq<u8>, c: Seq<u8>, d: Seq<u8>)
    requires
        abelian_group_laws(),
        g1_valid(a),
        g1_valid(b),
        g1_valid(c),
        g1_valid(d),
    ensures
        g1_add(g1_add(a, b), g1_add(c, d)) == g1_add(g1_add(a, c), g1_add(b, d)),
{
    lemma_laws(c, d, a);
    lemma_laws(b, d, a);
    lemma_laws(a, c, a);
    lemma_laws(a, b, g1_add(c, d));
    lemma_laws(b, c, d);
    lemma_laws(c, b, d);
    lemma_laws(a, c, g1_add(b, d));
}

/// `n` times a point: the identity added to the point `n` times.
pub open spec fn smul(p: Seq<u8>, n: nat) -> Seq<u8>
    decreases n,
{
    if n == 0 {
        g1_identity_encoding()
    } else {
        g1_add(smul(p, (n - 1) as nat), p)
    }
}

/// The sum of `vals[j]` times `points[j]` over `j < k`.
pub open spec fn msm(points: Seq<Seq<u8>>, vals: Seq<nat>, k: nat) -> Seq<u8>
    decreases k,
{
    if k == 0 {
        g1_identity_encoding()
    } else {
        g1_add(msm(points, vals, (k - 1) as nat), smul(points[k - 1], vals[k - 1]))
    }
}

/// Multiples of a valid point are valid.
proof fn lemma_smul_valid(p: Seq<u8>, n: nat)
    requires
        abelian_group_laws(),
        g1_valid(p),
    ensures
        g1_valid(smul(p, n)),
    decreases n,
{
    lemma_laws(p, p, p);
    if n > 0 {
        lemma_smul_valid(p, (n - 1) as nat);
        lemma_laws(smul(p, (n - 1) as nat), p, p);
    }
}

/// `m*P + n*P == (m + n)*P`.
proof fn lemma_smul_add(p: Seq<u8>, m: nat, n: nat)
    requires
        abelian_group_laws(),
        g1_valid(p),
    ensures
        g1_add(smul(p, m), smul(p, n)) == smul(p, m + n),
    decreases n,
{
    lemma_smul_valid(p, m);
    if n == 0 {
        lemma_laws(smul(p, m), p, p);
    } else {
        lemma_smul_valid(p, (n - 1) as nat);
        lemma_smul_add(p, m, (n - 1) as nat);
        lemma_laws(smul(p, m), smul(p, (n - 1) as nat), p);
        assert(smul(p, (m + n) as nat) == g1_add(smul(p, (m + n - 1) as nat), p));
    }
}

/// A sum of multiples of valid points is valid.
proof fn lemma_msm_valid(points: Seq<Seq<u8>>, vals: Seq<nat>, k: nat)
    requires
        abelian_group_laws(),
        k <= points.len(),
        all_valid(points),
    ensures
        g1_valid(msm(points, vals, k)),
    decreases k,
{
    lemma_identity_valid();
    lemma_laws(g1_identity_encoding(), g1_identity_encoding(), g1_identity_encoding());
    if k > 0 {
        lemma_msm_valid(points, vals, (k - 1) as nat);
        assert(g1_valid(points[k - 1]));
        lemma_smul_valid(points[k - 1], vals[k - 1]);
        lemma_laws(msm(points, vals, (k - 1) as nat), smul(points[k - 1], vals[k - 1]), points[k - 1]);
    }
}

/// Sums of multiples add coefficient-wise.
proof fn lemma_msm_add(points: Seq<Seq<u8>>, u: Seq<nat>, w: Seq<nat>, s: Seq<nat>, k: nat)
    requires
        abelian_group_laws(),
        k <= points.len(),
        k <= u.len(),
        k <= w.len(),
        k <= s.len(),
        all_valid(points),
        forall|j: int| 0 <= j < k ==> #[trigger] s[j] == u[j] + w[j],
    ensures
        g1_add(msm(points, u, k), msm(points, w, k)) == msm(points, s, k),
    decreases k,
{
    let id = g1_identity_encoding();
    lemma_identity_valid();
    lemma_laws(id, id, id);
    if k > 0 {
        let j = k - 1;
        lemma_msm_add(points, u, w, s, (k - 1) as nat);
        assert(g1_valid(points[j]));
        lemma_msm_valid(points, u, (k - 1) as nat);
        lemma_msm_valid(points, w, (k - 1) as nat);
        lemma_smul_valid(points[j], u[j]);
        lemma_smul_valid(points[j], w[j]);
        lemma_add_swap(
            msm(points, u, (k - 1) as nat),
            smul(points[j], u[j]),
            msm(points, w, (k - 1) as nat),
            smul(points[j], w[j]),
        );
        lemma_smul_add(points[j], u[j], w[j]);
    }
}

/// The sum with all coefficients zero is the identity.
proof fn lemma_msm_zero(points: Seq<Seq<u8>>, vals: Seq<nat>, k: nat)
    requires
        abelian_group_laws(),
        forall|j: int| 0 <= j < k ==> #[trigger] vals[j] == 0,
    ensures
        msm(points, vals, k) == g1_identity_encoding(),
    decreases k,
{
    let id = g1_identity_encoding();
    lemma_identity_valid();
    lemma_laws(id, id, id);
    if k > 0 {
        lemma_msm_zero(points, vals, (k - 1) as nat);
        assert(smul(points[k - 1], vals[k - 1]) == id);
    }
}

/// The sum only depends on the first `k` coefficients.
proof fn lemma_msm_prefix(points: Seq<Seq<u8>>, u: Seq<nat>, w: Seq<nat>, k: nat)
    requires
        forall|j: int| 0 <= j < k ==> #[trigger] u[j] == w[j],
    ensures
        msm(points, u, k) == msm(points, w, k),
    decreases k,
{
    if k > 0 {
        lemma_msm_prefix(points, u, w, (k - 1) as nat);
    }
}

/// The value of the bits of a limb sequence at positions `i` and above
/// (below 256), read as a number whose lowest bit is bit `i`.
pub open spec fn shifted_value(l: Seq<u64>, i: int) -> nat
    decreases 256 - i,
{
    if i >= 256 || i < 0 {
        0
    } else {
        (if limb_bit(l, i) { 1nat } else { 0nat }) + 2 * shifted_value(l, i + 1)
    }
}

/// The values of the scalars' bits from position `i` up.
pub open spec fn shifted_values(sc: Seq<Seq<u64>>, i: int) -> Seq<nat> {
    Seq::new(sc.len(), |j: int| shifted_value(sc[j], i))
}

/// The bits of the scalars at position `i`.
pub open spec fn bit_values(sc: Seq<Seq<u64>>, i: int) -> Seq<nat> {
    Seq::new(sc.len(), |j: int| if limb_bit(sc[j], i) { 1nat } else { 0nat })
}

/// A digit index is below `2^k`, and is zero exactly when all `k` bits are clear.
proof fn lemma_digit_index_bound(sc: Seq<Seq<u64>>, k: nat, i: int)
    requires
        k <= sc.len(),
    ensures
        digit_index(sc, k, i) < pow2(k),
        digit_index(sc, k, i) == 0 <==> (forall|j: int| 0 <= j < k ==> !limb_bit(#[trigger] sc[j], i)),
    decreases k,
{
    lemma2_to64();
    if k > 0 {
        lemma_digit_index_bound(sc, (k - 1) as nat, i);
        lemma_pow2_unfold(k);
        vstd::arithmetic::power2::lemma_pow2_pos((k - 1) as nat);
        if digit_index(sc, k, i) == 0 {
            assert forall|j: int| 0 <= j < k implies !limb_bit(#[trigger] sc[j], i) by {
                if j < k - 1 {
                } else {
                }
            }
        }
    }
}

/// The entry of a subset table at the digit index of `k` scalars is the sum
/// of the points whose scalar has that bit set.
proof fn lemma_subset_table_entry(points: Seq<Seq<u8>>, sc: Seq<Seq<u64>>, k: nat, i: int)
    requires
        abelian_group_laws(),
        k <= sc.len(),
        k <= points.len(),
        all_valid(points),
    ensures
        subset_table(points, k)[digit_index(sc, k, i) as int] == msm(points, bit_values(sc, i), k),
        subset_table(points, k).len() == pow2(k),
    decreases k,
{
    lemma_subset_table_len(points, k);
    let id = g1_identity_encoding();
    lemma_identity_valid();
    lemma_laws(id, id, id);
    if k > 0 {
        let j = k - 1;
        let t = subset_table(points, (k - 1) as nat);
        let d = digit_index(sc, (k - 1) as nat, i);
        lemma_subset_table_entry(points, sc, (k - 1) as nat, i);
        lemma_digit_index_bound(sc, (k - 1) as nat, i);
        lemma_pow2_unfold(k);
        lemma_msm_valid(points, bit_values(sc, i), (k - 1) as nat);
        assert(g1_valid(points[j]));
        lemma_laws(points[j], points[j], points[j]);
        let prev = msm(points, bit_values(sc, i), (k - 1) as nat);
        lemma_laws(prev, points[j], points[j]);
        assert(smul(points[j], 0) == id);
        assert(smul(points[j], 1) == g1_add(id, points[j]));
        if limb_bit(sc[j], i) {
            assert(digit_index(sc, k, i) == d + pow2(j as nat));
            assert(subset_table(points, k)[digit_index(sc, k, i) as int] == g1_add(t[d as int], points[j]));
        } else {
            assert(digit_index(sc, k, i) == d);
            assert(subset_table(points, k)[digit_index(sc, k, i) as int] == t[d as int]);
        }
    }
}

/// Bits above the top index are clear.
proof fn lemma_above_top(sc: Seq<Seq<u64>>, n: int, i: int)
    requires
        0 <= n <= 256,
        top_index(sc, n) < i < n,
    ensures
        digit_index(sc, sc.len(), i) == 0,
    decreases n,
{
    if n > 0 && i < n - 1 {
        lemma_above_top(sc, n - 1, i);
    }
}

/// A scalar with no set bit from position `i` up has a zero shifted value there.
proof fn lemma_shifted_zero(l: Seq<u64>, i: int)
    requires
        forall|m: int| i <= m < 256 ==> !#[trigger] limb_bit(l, m),
    ensures
        shifted_value(l, i) == 0,
    decreases 256 - i,
{
    if 0 <= i < 256 {
        lemma_shifted_zero(l, i + 1);
    }
}

/// The loop's accumulator after processing positions `top` down to `i` is
/// the sum of the points multiplied by the scalars' bits from `i` up, when
/// the table holds the subset sums at every index the loop looks up.
proof fn lemma_straus_acc_msm(
    sc: Seq<Seq<u64>>,
    points: Seq<Seq<u8>>,
    table: Seq<Seq<u8>>,
    top: int,
    i: int,
)
    requires
        abelian_group_laws(),
        sc.len() == points.len(),
        sc.len() < 64,
        all_valid(points),
        0 <= i <= top + 1,
        top < 256,
        top == top_index(sc, 256),
        forall|m: int|
            0 <= m < 256 && digit_index(sc, sc.len(), m) != 0 ==> #[trigger] table[digit_index(
                sc,
                sc.len(),
                m,
            ) as int] == subset_table(points, sc.len())[digit_index(sc, sc.len(), m) as int],
    ensures
        straus_acc(sc, table, top, i) == msm(points, shifted_values(sc, i), sc.len()),
    decreases top + 1 - i,
{
    let k = sc.len();
    let id = g1_identity_encoding();
    lemma_identity_valid();
    lemma_laws(id, id, id);
    if i > top {
        assert forall|j: int| 0 <= j < k implies #[trigger] shifted_values(sc, i)[j] == 0 by {
            assert forall|m: int| i <= m < 256 implies !#[trigger] limb_bit(sc[j], m) by {
                lemma_above_top(sc, 256, m);
                lemma_digit_index_bound(sc, k, m);
            }
            lemma_shifted_zero(sc[j], i);
        }
        lemma_msm_zero(points, shifted_values(sc, i), k);
    } else {
        lemma_straus_acc_msm(sc, points, table, top, i + 1);
        let prev = msm(points, shifted_values(sc, i + 1), k);
        lemma_msm_valid(points, shifted_values(sc, i + 1), k);
        lemma_laws(prev, prev, prev);
        let twice = Seq::new(k, |j: int| 2 * shifted_value(sc[j], i + 1));
        lemma_msm_add(points, shifted_values(sc, i + 1), shifted_values(sc, i + 1), twice, k);
        let idx = digit_index(sc, k, i);
        lemma_digit_index_bound(sc, k, i);
        lemma_subset_table_entry(points, sc, k, i);
        lemma_msm_add(points, twice, bit_values(sc, i), shifted_values(sc, i), k);
        if idx == 0 {
            lemma_msm_zero(points, bit_values(sc, i), k);
            lemma_msm_valid(points, twice, k);
            lemma_laws(msm(points, twice, k), id, id);
        }
    }
}

/// Under the group laws, when every entry the loop can look up is the
/// corresponding subset sum of the points, the interleaved double-and-add
/// loop returns the sum of each point multiplied by the value of its
/// scalar's bits.
pub proof fn lemma_straus_eval_msm(sc: Seq<Seq<u64>>, points: Seq<Seq<u8>>, table: Seq<Seq<u8>>)
    requires
        abelian_group_laws(),
        sc.len() == points.len(),
        sc.len() < 64,
        all_valid(points),
        forall|m: int|
            0 <= m < 256 && digit_index(sc, sc.len(), m) != 0 ==> #[trigger] table[digit_index(
                sc,
                sc.len(),
                m,
            ) as int] == subset_table(points, sc.len())[digit_index(sc, sc.len(), m) as int],
    ensures
        straus_eval(sc, table, 256) == msm(points, shifted_values(sc, 0), sc.len()),
{
    let top = top_index(sc, 256);
    lemma_top_index_range(sc, 256);
    lemma_straus_acc_msm(sc, points, table, top, 0);
}



/// Unfolding the value of the limbs from limb `m`.
proof fn lemma_limbs_value_skip(l: Seq<u64>, m: int)
    requires
        0 <= m < l.len(),
    ensures
        limbs_value(l.skip(m)) == l[m] as nat + 0x1_0000_0000_0000_0000nat * limbs_value(
            l.skip(m + 1),
        ),
{
    assert(l.skip(m).skip(1) =~= l.skip(m + 1));
}

/// The shifted value at position `64*m + t` is limb `m` shifted right by `t`
/// plus the higher limbs scaled by `2^(64 - t)`.
proof fn lemma_shifted_value_limbs(l: Seq<u64>, i: int)
    requires
        l.len() == 4,
        0 <= i < 256,
    ensures
        shifted_value(l, i) == (l[i / 64] >> ((i % 64) as u64)) as nat + pow2((64 - i % 64) as nat)
            * limbs_value(l.skip(i / 64 + 1)),
    decreases 256 - i,
{
    let m = i / 64;
    let t = i % 64;
    let x = l[m];
    let tt = t as u64;
    lemma2_to64();
    assert(((x >> tt) & 1u64) == 1u64 || ((x >> tt) & 1u64) == 0u64) by (bit_vector);
    let b: nat = if limb_bit(l, i) { 1 } else { 0 };
    assert(b == ((x >> tt) & 1u64) as nat);
    if t == 63 {
        assert((x >> 63u64) == ((x >> 63u64) & 1u64)) by (bit_vector);
        if i == 255 {
            assert(l.skip(4) =~= Seq::<u64>::empty());
            assert(shifted_value(l, 256) == 0);
            assert(limbs_value(l.skip(4)) == 0);
        } else {
            lemma_shifted_value_limbs(l, i + 1);
            assert((i + 1) / 64 == m + 1);
            assert((i + 1) % 64 == 0);
            let z = l[m + 1];
            assert((z >> 0u64) == z) by (bit_vector);
            lemma_limbs_value_skip(l, m + 1);
            assert(pow2(64) == 0x1_0000_0000_0000_0000nat) by {
                vstd::arithmetic::power2::lemma2_to64_rest();
            }
        }
        assert(pow2(1) == 2);
    } else {
        lemma_shifted_value_limbs(l, i + 1);
        assert((i + 1) / 64 == m);
        assert((i + 1) % 64 == t + 1);
        let t1 = (t + 1) as u64;
        assert((x >> tt) == ((x >> tt) & 1u64) + 2 * (x >> t1)) by (bit_vector)
            requires
                tt < 63,
                t1 == tt + 1,
        ;
        lemma_pow2_unfold((64 - t) as nat);
        let lv = limbs_value(l.skip(m + 1));
        let p = pow2((63 - t) as nat);
        let y = (x >> t1) as nat;
        assert(2 * (y + p * lv) == 2 * y + (2 * p) * lv) by (nonlinear_arith);
    }
}

/// The value of a scalar's bits from position 0 is the value of its limbs.
pub proof fn lemma_shifted_value_is_limbs_value(l: Seq<u64>)
    requires
        l.len() == 4,
    ensures
        shifted_value(l, 0) == limbs_value(l),
{
    lemma_shifted_value_limbs(l, 0);
    let z = l[0];
    assert((z >> 0u64) == z) by (bit_vector);
    lemma_limbs_value_skip(l, 0);
    assert(l.skip(0) =~= l);
    assert(pow2(64) == 0x1_0000_0000_0000_0000nat) by {
        vstd::arithmetic::power2::lemma2_to64_rest();
    }
}


/// Plain Straus-Shamir computes `a*P + b*Q`: under the group laws, for
/// canonical scalars `a`, `b` and points `P`, `Q`, with no precomputed sum or
/// with one equal to `P + Q`, `straus_dual_scalar_mul(a, b, P, Q, ..)`
/// returns `a*P + b*Q`.
pub proof fn law_straus_dual_scalar_mul(
    a: Seq<u64>,
    b: Seq<u64>,
    p: Seq<u8>,
    q: Seq<u8>,
    pre: Option<Seq<Seq<u8>>>,
)
    requires
        abelian_group_laws(),
        scalar_canonical(a),
        scalar_canonical(b),
        g1_valid(p),
        g1_valid(q),
        straus_pair_sum(pre, p, q) == g1_add(p, q),
    ensures
        straus_eval(seq![a, b], pair_table(p, q, straus_pair_sum(pre, p, q)), 256) == g1_add(
            smul(p, limbs_value(a)),
            smul(q, limbs_value(b)),
        ),
{
    let sc = seq![a, b];
    let points = seq![p, q];
    let table = pair_table(p, q, g1_add(p, q));
    let id = g1_identity_encoding();
    lemma_identity_valid();
    lemma_laws(p, q, id);
    lemma_laws(q, p, id);
    lemma_shifted_value_is_limbs_value(a);
    lemma_shifted_value_is_limbs_value(b);
    assert(all_valid(points));
    let st = subset_table(points, 2);
    assert(subset_table(points, 0) == seq![id]);
    assert(subset_table(points, 1) =~= seq![id, g1_add(id, p)]);
    assert(st =~= seq![id, g1_add(id, p), g1_add(id, q), g1_add(g1_add(id, p), q)]);
    assert forall|m: int|
        0 <= m < 256 && digit_index(sc, sc.len(), m) != 0 implies #[trigger] table[digit_index(
        sc,
        sc.len(),
        m,
    ) as int] == st[digit_index(sc, sc.len(), m) as int] by {
        lemma_digit_index_bound(sc, 2, m);
        lemma2_to64();
    }
    lemma_straus_eval_msm(sc, points, table);
    let vals = shifted_values(sc, 0);
    lemma_smul_valid(p, vals[0]);
    lemma_smul_valid(q, vals[1]);
    lemma_laws(smul(p, vals[0]), id, id);
    assert(msm(points, vals, 0) == id);
    assert(msm(points, vals, 1) == g1_add(id, smul(p, vals[0])));
    assert(msm(points, vals, 2) == g1_add(g1_add(id, smul(p, vals[0])), smul(q, vals[1])));
}

/// The values of the four parts of the GLV decompositions of two scalars.
pub open spec fn glv_part_values(a: Seq<u64>, b: Seq<u64>) -> Seq<nat> {
    let (s11, k11, s12, k12) = glv_decompose(a);
    let (s21, k21, s22, k22) = glv_decompose(b);
    seq![limbs_value(k11), limbs_value(k12), limbs_value(k21), limbs_value(k22)]
}

/// The GLV dual scalar multiplication computes the four-point sum of its
/// decomposition: under the group laws, for canonical scalars `a`, `b` with
/// GLV parts `(s11, k11, s12, k12)` and `(s21, k21, s22, k22)`, and points
/// `P`, `Q`, with no precomputed table, one whose length is not 256, or the
/// one `new(P, Q)` builds, `G1Point::dual_scalar_mul(a, b, P, Q, ..)` returns
/// `k11*(±P) + k12*(±phi(P)) + k21*(±Q) + k22*(±phi(Q))`, with each sign
/// from the decomposition.
pub proof fn law_glv_dual_scalar_mul(
    a: Seq<u64>,
    b: Seq<u64>,
    p: Seq<u8>,
    q: Seq<u8>,
    pre: Option<Seq<Seq<u8>>>,
)
    requires
        abelian_group_laws(),
        scalar_canonical(a),
        scalar_canonical(b),
        g1_valid(p),
        g1_valid(q),
        g1_valid(g1_endomorphism(p)),
        g1_valid(g1_endomorphism(q)),
        scalar_canonical(glv_decompose(a).1),
        scalar_canonical(glv_decompose(a).3),
        scalar_canonical(glv_decompose(b).1),
        scalar_canonical(glv_decompose(b).3),
        pre is None || pre->0.len() != 256 || pre == Some(glv_tables(glv_bases(p, q), 16)),
    ensures
        glv_dual_spec(a, b, p, q, pre) == ({
            let (s11, k11, s12, k12) = glv_decompose(a);
            let (s21, k21, s22, k22) = glv_decompose(b);
            msm(
                signed_points(glv_bases(p, q), sign_index_spec(s11, s12, s21, s22)),
                glv_part_values(a, b),
                4,
            )
        }),
{
    let (s11, k11, s12, k12) = glv_decompose(a);
    let (s21, k21, s22, k22) = glv_decompose(b);
    let sidx = sign_index_spec(s11, s12, s21, s22);
    let sc = seq![k11, k12, k21, k22];
    let points = signed_points(glv_bases(p, q), sidx);
    law_precomputed_table_matches_runtime(a, b, p, q);
    if pre is Some && pre->0.len() != 256 {
        law_glv_ignores_tables_of_other_sizes(a, b, p, q, pre);
    }
    lemma_identity_valid();
    assert forall|j: int| 0 <= j < 4 implies g1_valid(#[trigger] points[j]) by {
        let base = glv_bases(p, q)[j];
        assert(g1_valid(base));
        lemma_laws(base, base, base);
    }
    lemma_shifted_value_is_limbs_value(k11);
    lemma_shifted_value_is_limbs_value(k12);
    lemma_shifted_value_is_limbs_value(k21);
    lemma_shifted_value_is_limbs_value(k22);
    let vals = glv_part_values(a, b);
    assert(shifted_values(sc, 0) =~= vals);
    let table = subset_table(points, 4);
    lemma_straus_eval_msm(sc, points, table);
}


/// The laws of scalar multiplication in G1: multiplying a valid point by a
/// canonical scalar is adding it to itself that many times, and every
/// valid point times the group order is the identity.
#[verifier::opaque]
pub open spec fn scalar_mul_laws() -> bool {
    &&& forall|p: Seq<u8>, k: Seq<u64>|
        g1_valid(p) && scalar_canonical(k) ==> #[trigger] g1_mul(p, k) == smul(p, limbs_value(k))
    &&& forall|p: Seq<u8>|
        g1_valid(p) ==> #[trigger] smul(p, scalar_modulus()) == g1_identity_encoding()
}

/// Instances of the scalar multiplication laws.
proof fn lemma_mul_laws(p: Seq<u8>, k: Seq<u64>)
    requires
        scalar_mul_laws(),
        g1_valid(p),
        scalar_canonical(k),
    ensures
        g1_mul(p, k) == smul(p, limbs_value(k)),
        smul(p, scalar_modulus()) == g1_identity_encoding(),
{
    reveal(scalar_mul_laws);
}

/// Multiples of the identity are the identity.
proof fn lemma_smul_identity(n: nat)
    requires
        abelian_group_laws(),
    ensures
        smul(g1_identity_encoding(), n) == g1_identity_encoding(),
    decreases n,
{
    let id = g1_identity_encoding();
    lemma_identity_valid();
    lemma_laws(id, id, id);
    if n > 0 {
        lemma_smul_identity((n - 1) as nat);
    }
}

/// `b*(a*P) == (a*b)*P`.
proof fn lemma_smul_smul(p: Seq<u8>, a: nat, b: nat)
    requires
        abelian_group_laws(),
        g1_valid(p),
    ensures
        smul(smul(p, a), b) == smul(p, a * b),
    decreases b,
{
    if b == 0 {
        assert(a * 0 == 0) by (nonlinear_arith);
    } else {
        lemma_smul_smul(p, a, (b - 1) as nat);
        lemma_smul_add(p, a * (b - 1) as nat, a);
        assert(a * (b - 1) as nat + a == a * b) by (nonlinear_arith)
            requires
                b > 0,
        ;
    }
}

/// A multiple depends only on the coefficient modulo the group order.
proof fn lemma_smul_mod(p: Seq<u8>, n: nat)
    requires
        abelian_group_laws(),
        scalar_mul_laws(),
        g1_valid(p),
    ensures
        smul(p, n) == smul(p, n % scalar_modulus()),
{
    let r = scalar_modulus();
    let q = n / r;
    let t = n % r;
    vstd::arithmetic::div_mod::lemma_fundamental_div_mod(n as int, r as int);
    assert(n == r * q + t);
    assert(r * q == q * r) by (nonlinear_arith);
    lemma_smul_add(p, r * q, t);
    lemma_smul_smul(p, r, q);
    reveal(scalar_mul_laws);
    assert(smul(p, r) == g1_identity_encoding());
    lemma_smul_identity(q);
    lemma_smul_valid(p, t);
    lemma_laws(smul(p, t), smul(p, t), smul(p, t));
}

/// With `s = k - c*x` modulo the order, `s*P + c*(x*P) == k*P` for a
/// canonical `k`.
proof fn lemma_response_recovers_commitment(p: Seq<u8>, k: nat, c: nat, x: nat, s: nat)
    requires
        abelian_group_laws(),
        scalar_mul_laws(),
        g1_valid(p),
        k < scalar_modulus(),
        s as int == (k as int - ((c * x) % scalar_modulus()) as int) % (scalar_modulus() as int),
    ensures
        g1_add(smul(p, s), smul(smul(p, x), c)) == smul(p, k),
{
    let r = scalar_modulus();
    let pr = c * x;
    lemma_smul_smul(p, x, c);
    assert(x * c == pr) by (nonlinear_arith)
        requires
            pr == c * x,
    ;
    lemma_smul_add(p, s, pr);
    lemma_smul_mod(p, s + pr);
    let z = k as int - (pr % r) as int;
    vstd::arithmetic::div_mod::lemma_fundamental_div_mod(z, r as int);
    vstd::arithmetic::div_mod::lemma_fundamental_div_mod(pr as int, r as int);
    assert(s + pr == r * (pr as int / r as int - z / r as int) + k);
    vstd::arithmetic::div_mod::lemma_mod_multiples_vanish(
        pr as int / r as int - z / r as int,
        k as int,
        r as int,
    );
    vstd::arithmetic::div_mod::lemma_small_mod(k, r);
}

/// A signature made by `generate_cp_signature` verifies: under the group and
/// scalar multiplication laws, for every canonical secret `x` and message
/// point `M`, the BLS signature `M*x` with the proof `(c, s)` that
/// `generate_dleq_proof` makes verifies with `verify_cp_signature` against
/// the public keys `G*x` in the signature and sister groups. (The witness and
/// the challenge are outputs of hash-to-field, and so canonical scalars.)
pub proof fn law_cp_signature_verifies(x: Seq<u64>, m: Seq<u8>, s: Seq<u64>)
    requires
        abelian_group_laws(),
        scalar_mul_laws(),
        g1_valid(g1_generator_encoding()),
        scalar_canonical(x),
        g1_valid(m),
        scalar_canonical(s),
        limbs_value(s) == cp_response_value(x, m, g1_mul(m, x)),
        scalar_canonical(cp_witness(x, g1_compress(m))),
        scalar_canonical(cp_challenge(x, m, g1_mul(m, x))),
    ensures
        cp_verifies(
            g1_mul(g1_generator_encoding(), x),
            g1_mul(g1_generator_encoding(), x),
            m,
            g1_mul(m, x),
            cp_challenge(x, m, g1_mul(m, x)),
            s,
        ),
{
    let g = g1_generator_encoding();
    let sig = g1_mul(m, x);
    let pk = g1_mul(g, x);
    let k = cp_witness(x, g1_compress(m));
    let c = cp_challenge(x, m, sig);
    lemma_mul_laws(g, x);
    lemma_mul_laws(m, x);
    lemma_mul_laws(g, k);
    lemma_mul_laws(m, k);
    lemma_mul_laws(g, s);
    lemma_mul_laws(m, s);
    lemma_smul_valid(g, limbs_value(x));
    lemma_smul_valid(m, limbs_value(x));
    lemma_mul_laws(pk, c);
    lemma_mul_laws(sig, c);
    lemma_response_recovers_commitment(g, limbs_value(k), limbs_value(c), limbs_value(x), limbs_value(s));
    lemma_response_recovers_commitment(m, limbs_value(k), limbs_value(c), limbs_value(x), limbs_value(s));
    assert(cp_point_a(pk, c, s) == g1_mul(g, k));
    assert(cp_point_b(m, sig, c, s) == g1_mul(m, k));
}


/// The GLV endomorphism of G1 multiplies every valid point by its eigenvalue.
#[verifier::opaque]
pub open spec fn endomorphism_laws() -> bool {
    forall|p: Seq<u8>| g1_valid(p) ==> #[trigger] g1_endomorphism(p) == smul(p, glv_lambda())
}

/// The negation of a point is the point times `r - 1`.
proof fn lemma_neg_is_smul(p: Seq<u8>)
    requires
        abelian_group_laws(),
        scalar_mul_laws(),
        g1_valid(p),
    ensures
        g1_neg(p) == smul(p, (scalar_modulus() - 1) as nat),
{
    let r = scalar_modulus();
    let id = g1_identity_encoding();
    let m = smul(p, (r - 1) as nat);
    lemma_identity_valid();
    lemma_smul_valid(p, (r - 1) as nat);
    lemma_laws(p, p, p);
    let n = g1_neg(p);
    lemma_laws(n, p, m);
    lemma_smul_add(p, 1, (r - 1) as nat);
    lemma_smul_one(p);
    reveal(scalar_mul_laws);
    assert(smul(p, r) == id);
    // n = n + (p + m) = (n + p) + m = m
    lemma_laws(n, n, n);
    lemma_laws(m, m, m);
    assert(g1_add(p, m) == id);
    assert(g1_add(n, p) == id);
}

/// A signed multiple of `P`: `e*P` when the sign is non-negative, else its
/// negation, is `P` times `e` or `e*(r - 1)`.
proof fn lemma_signed_multiple(p: Seq<u8>, e: nat, sign: bool)
    requires
        abelian_group_laws(),
        scalar_mul_laws(),
        g1_valid(p),
    ensures
        (if sign { smul(p, e) } else { g1_neg(smul(p, e)) }) == smul(
            p,
            if sign { e } else { e * (scalar_modulus() - 1) as nat },
        ),
        g1_valid(smul(p, e)),
{
    lemma_smul_valid(p, e);
    if !sign {
        lemma_neg_is_smul(smul(p, e));
        lemma_smul_smul(p, e, (scalar_modulus() - 1) as nat);
    }
}

/// `sign ? n : -n` plus a multiple of the order.
proof fn lemma_signed_coefficient(e: nat, sign: bool, n: nat)
    ensures
        ((if sign { e } else { e * (scalar_modulus() - 1) as nat }) * n) as int == (if sign {
            e as int
        } else {
            -(e as int)
        }) * (n as int) + (scalar_modulus() as int) * (if sign { 0int } else { (e * n) as int }),
{
    let r = scalar_modulus() as int;
    if !sign {
        assert(((e * (r - 1) as nat) * n) as int == -(e as int) * (n as int) + r * ((e * n) as int))
            by (nonlinear_arith)
            requires
                r > 1,
        ;
    } else {
        assert((e * n) as int == (e as int) * (n as int));
    }
}

/// `1*P == P`.
proof fn lemma_smul_one(p: Seq<u8>)
    requires
        abelian_group_laws(),
        g1_valid(p),
    ensures
        smul(p, 1) == p,
{
    let id = g1_identity_encoding();
    lemma_identity_valid();
    assert(smul(p, 0) == id);
    assert(smul(p, 1) == g1_add(id, p));
    lemma_laws(p, id, id);
}

/// A four-term sum regrouped in pairs.
proof fn lemma_msm_four(pts: Seq<Seq<u8>>, vals: Seq<nat>)
    requires
        abelian_group_laws(),
        pts.len() == 4,
        all_valid(pts),
    ensures
        msm(pts, vals, 4) == g1_add(
            g1_add(smul(pts[0], vals[0]), smul(pts[1], vals[1])),
            g1_add(smul(pts[2], vals[2]), smul(pts[3], vals[3])),
        ),
{
    let id = g1_identity_encoding();
    lemma_identity_valid();
    let a0 = smul(pts[0], vals[0]);
    let a1 = smul(pts[1], vals[1]);
    let b0 = smul(pts[2], vals[2]);
    let b1 = smul(pts[3], vals[3]);
    assert(g1_valid(pts[0]) && g1_valid(pts[1]) && g1_valid(pts[2]) && g1_valid(pts[3]));
    lemma_smul_valid(pts[0], vals[0]);
    lemma_smul_valid(pts[1], vals[1]);
    lemma_smul_valid(pts[2], vals[2]);
    lemma_smul_valid(pts[3], vals[3]);
    assert(msm(pts, vals, 0) == id);
    assert(msm(pts, vals, 1) == g1_add(id, a0));
    assert(msm(pts, vals, 2) == g1_add(g1_add(id, a0), a1));
    assert(msm(pts, vals, 3) == g1_add(g1_add(g1_add(id, a0), a1), b0));
    assert(msm(pts, vals, 4) == g1_add(g1_add(g1_add(g1_add(id, a0), a1), b0), b1));
    lemma_laws(a0, id, id);
    lemma_laws(a0, a1, b0);
    lemma_laws(g1_add(a0, a1), b0, b1);
}

/// The two signed GLV parts of a scalar applied to `P` and `phi(P)` sum to
/// the scalar times `P`.
proof fn lemma_glv_pair(p: Seq<u8>, sa: bool, ka: Seq<u64>, sb: bool, kb: Seq<u64>, k: Seq<u64>)
    requires
        abelian_group_laws(),
        scalar_mul_laws(),
        endomorphism_laws(),
        g1_valid(p),
        scalar_canonical(k),
        glv_recombines(k, (sa, ka, sb, kb)),
    ensures
        g1_add(
            smul(if sa { p } else { g1_neg(p) }, limbs_value(ka)),
            smul(
                if sb {
                    g1_endomorphism(p)
                } else {
                    g1_neg(g1_endomorphism(p))
                },
                limbs_value(kb),
            ),
        ) == smul(p, limbs_value(k)),
{
    let lam = glv_lambda();
    let r = scalar_modulus();
    let v0 = limbs_value(ka);
    let v1 = limbs_value(kb);
    reveal(endomorphism_laws);
    assert(g1_endomorphism(p) == smul(p, lam));
    lemma_smul_one(p);
    lemma_signed_multiple(p, 1, sa);
    lemma_signed_multiple(p, lam, sb);
    let e0: nat = if sa { 1 } else { (r - 1) as nat };
    let e1: nat = if sb { lam } else { lam * (r - 1) as nat };
    assert(e0 == if sa { 1nat } else { 1 * (r - 1) as nat });
    lemma_smul_smul(p, e0, v0);
    lemma_smul_smul(p, e1, v1);
    let x0 = e0 * v0;
    let x1 = e1 * v1;
    lemma_smul_add(p, x0, x1);
    lemma_smul_mod(p, x0 + x1);
    lemma_signed_coefficient(1, sa, v0);
    lemma_signed_coefficient(lam, sb, v1);
    assert(signed_value(sa, ka) == (if sa { 1int } else { -1int }) * (v0 as int));
    assert(signed_value(sb, kb) * (lam as int) == (if sb { lam as int } else { -(lam as int) }) * (
    v1 as int)) by (nonlinear_arith)
        requires
            signed_value(sb, kb) == if sb { v1 as int } else { -(v1 as int) },
    ;
    lemma_coefficients_recombine(
        k,
        x0 + x1,
        signed_value(sa, ka),
        signed_value(sb, kb),
        (if sa { 0int } else { (1 * v0) as int }) + (if sb { 0int } else { (lam * v1) as int }),
    );
}

/// The GLV dual scalar multiplication computes `a*P + b*Q`: under the group
/// laws, the scalar multiplication laws and the eigenvalue of the
/// endomorphism, for canonical scalars `a`, `b` whose decompositions
/// recombine to them, points `P`, `Q`, and no precomputed table, one whose
/// length is not 256, or the one `new(P, Q)` builds, the result is
/// `a*P + b*Q`.
pub proof fn law_glv_dual_scalar_mul_is_linear_combination(
    a: Seq<u64>,
    b: Seq<u64>,
    p: Seq<u8>,
    q: Seq<u8>,
    pre: Option<Seq<Seq<u8>>>,
)
    requires
        abelian_group_laws(),
        scalar_mul_laws(),
        endomorphism_laws(),
        scalar_canonical(a),
        scalar_canonical(b),
        g1_valid(p),
        g1_valid(q),
        glv_decomposition_facts(a),
        glv_decomposition_facts(b),
        pre is None || pre->0.len() != 256 || pre == Some(glv_tables(glv_bases(p, q), 16)),
    ensures
        glv_dual_spec(a, b, p, q, pre) == g1_add(smul(p, limbs_value(a)), smul(q, limbs_value(b))),
{
    let (s11, k11, s12, k12) = glv_decompose(a);
    let (s21, k21, s22, k22) = glv_decompose(b);
    let lam = glv_lambda();
    reveal(endomorphism_laws);
    lemma_smul_valid(p, lam);
    lemma_smul_valid(q, lam);
    law_glv_dual_scalar_mul(a, b, p, q, pre);
    let sidx = sign_index_spec(s11, s12, s21, s22);
    let pts = signed_points(glv_bases(p, q), sidx);
    let vals = glv_part_values(a, b);
    lemma_sign_index_bits(s11, s12, s21, s22);
    lemma_laws(p, p, p);
    lemma_laws(q, q, q);
    lemma_laws(g1_endomorphism(p), p, p);
    lemma_laws(g1_endomorphism(q), p, p);
    assert(pts[0] == if s11 { p } else { g1_neg(p) });
    assert(pts[1] == if s12 { g1_endomorphism(p) } else { g1_neg(g1_endomorphism(p)) });
    assert(pts[2] == if s21 { q } else { g1_neg(q) });
    assert(pts[3] == if s22 { g1_endomorphism(q) } else { g1_neg(g1_endomorphism(q)) });
    lemma_msm_four(pts, vals);
    lemma_glv_pair(p, s11, k11, s12, k12, a);
    lemma_glv_pair(q, s21, k21, s22, k22, b);
}

/// A coefficient equal to `k1 + lambda*k2` plus a multiple of the order is
/// the scalar modulo the order, when the parts recombine to the scalar.
proof fn lemma_coefficients_recombine(k: Seq<u64>, x: nat, v1: int, v2: int, t: int)
    requires
        scalar_canonical(k),
        x as int == v1 + (glv_lambda() as int) * v2 + (scalar_modulus() as int) * t,
        (v1 + glv_lambda() * v2 - limbs_value(k)) % (scalar_modulus() as int) == 0,
    ensures
        x % scalar_modulus() == limbs_value(k),
{
    let r = scalar_modulus() as int;
    let d = v1 + glv_lambda() * v2 - limbs_value(k);
    vstd::arithmetic::div_mod::lemma_fundamental_div_mod(d, r);
    assert(x as int == r * (d / r + t) + limbs_value(k));
    vstd::arithmetic::div_mod::lemma_mod_multiples_vanish(d / r + t, limbs_value(k) as int, r);
    vstd::arithmetic::div_mod::lemma_small_mod(limbs_value(k), scalar_modulus());
}


/// The first `k` bits of an index, least significant first.
pub open spec fn index_bits(i: nat, k: nat) -> Seq<nat> {
    Seq::new(k, |j: int| (i / pow2(j as nat)) % 2)
}

/// Adding `2^(k-1)` to an index below it leaves its lower bits unchanged and
/// sets bit `k - 1`.
proof fn lemma_index_bits_high(i: nat, k: nat)
    requires
        k > 0,
        i < pow2((k - 1) as nat),
    ensures
        forall|j: int| 0 <= j < k - 1 ==> #[trigger] index_bits(i + pow2((k - 1) as nat), k)[j]
            == index_bits(i, k)[j],
        index_bits(i + pow2((k - 1) as nat), k)[k - 1] == 1,
        index_bits(i, k)[k - 1] == 0,
{
    let h = pow2((k - 1) as nat);
    vstd::arithmetic::power2::lemma_pow2_pos((k - 1) as nat);
    assert forall|j: int| 0 <= j < k - 1 implies #[trigger] index_bits(i + h, k)[j] == index_bits(
        i,
        k,
    )[j] by {
        let d = pow2(j as nat);
        let e = pow2((k - 1 - j) as nat);
        vstd::arithmetic::power2::lemma_pow2_pos(j as nat);
        vstd::arithmetic::power2::lemma_pow2_adds(j as nat, (k - 1 - j) as nat);
        assert(h == d * e);
        vstd::arithmetic::div_mod::lemma_hoist_over_denominator(i as int, e as int, d);
        assert(e * d == d * e) by (nonlinear_arith);
        lemma_pow2_unfold((k - 1 - j) as nat);
        let m = pow2((k - 2 - j) as nat);
        assert(e == 2 * m);
        vstd::arithmetic::div_mod::lemma_mod_multiples_vanish(m as int, (i / d) as int, 2);
        assert((i + h) / d == i / d + e);
    }
    vstd::arithmetic::div_mod::lemma_fundamental_div_mod_converse((i + h) as int, h as int, 1, i as int);
    vstd::arithmetic::div_mod::lemma_basic_div(i as int, h as int);
}

/// `precompute_sums` builds the table of subset sums: under the group laws,
/// for points `P_0 .. P_{k-1}` and every index `i < 2^k`, entry `i` of the
/// table is the sum of the points `P_j` whose bit `j` is set in `i`.
pub proof fn law_subset_table_entry(points: Seq<Seq<u8>>, k: nat, i: nat)
    requires
        abelian_group_laws(),
        k <= points.len(),
        all_valid(points),
        i < pow2(k),
    ensures
        subset_table(points, k)[i as int] == msm(points, index_bits(i, k), k),
    decreases k,
{
    let id = g1_identity_encoding();
    lemma_identity_valid();
    lemma_laws(id, id, id);
    lemma2_to64();
    if k == 0 {
        assert(i == 0);
    } else {
        let h = pow2((k - 1) as nat);
        let j = k - 1;
        let t = subset_table(points, (k - 1) as nat);
        lemma_subset_table_len(points, (k - 1) as nat);
        lemma_pow2_unfold(k);
        assert(g1_valid(points[j]));
        lemma_laws(points[j], points[j], points[j]);
        if i < h {
            law_subset_table_entry(points, (k - 1) as nat, i);
            lemma_index_bits_high(i, k);
            lemma_msm_prefix(points, index_bits(i, (k - 1) as nat), index_bits(i, k), (k - 1) as nat);
            lemma_msm_valid(points, index_bits(i, k), (k - 1) as nat);
            let prev = msm(points, index_bits(i, k), (k - 1) as nat);
            lemma_laws(prev, id, id);
            assert(smul(points[j], 0) == id);
        } else {
            let i2 = (i - h) as nat;
            law_subset_table_entry(points, (k - 1) as nat, i2);
            lemma_index_bits_high(i2, k);
            assert(i2 + h == i);
            lemma_msm_prefix(points, index_bits(i2, (k - 1) as nat), index_bits(i, k), (k - 1) as nat);
            lemma_smul_one(points[j]);
            assert(subset_table(points, k)[i as int] == g1_add(t[i2 as int], points[j]));
        }
    }
}


/// `strauss_shamir_dual_scalar_multiplications` computes `s*G + c*PK`:
/// under the group laws, for canonical `s`, `c`, points `G`, `PK` and the
/// precomputed sum `G + PK`, the interleaved loop returns `s*G + c*PK`.
pub proof fn law_strauss_shamir_interleaving(
    s: Seq<u64>,
    c: Seq<u64>,
    g: Seq<u8>,
    pk: Seq<u8>,
)
    requires
        abelian_group_laws(),
        scalar_canonical(s),
        scalar_canonical(c),
        g1_valid(g),
        g1_valid(pk),
    ensures
        straus_eval(seq![s, c], pair_table(g, pk, g1_add(g, pk)), 256) == g1_add(
            smul(g, limbs_value(s)),
            smul(pk, limbs_value(c)),
        ),
{
    law_straus_dual_scalar_mul(s, c, g, pk, None);
}

/// Plain Straus-Shamir is symmetric in its two (scalar, base) pairs: under
/// the group laws, for canonical scalars `a`, `b` and points `P`, `Q`,
/// `straus_dual_scalar_mul(a, b, P, Q, None)` equals
/// `straus_dual_scalar_mul(b, a, Q, P, None)`.
pub proof fn law_straus_dual_scalar_mul_symmetric(a: Seq<u64>, b: Seq<u64>, p: Seq<u8>, q: Seq<u8>)
    requires
        abelian_group_laws(),
        scalar_canonical(a),
        scalar_canonical(b),
        g1_valid(p),
        g1_valid(q),
    ensures
        straus_eval(seq![a, b], pair_table(p, q, straus_pair_sum(None, p, q)), 256) == straus_eval(
            seq![b, a],
            pair_table(q, p, straus_pair_sum(None, q, p)),
            256,
        ),
{
    law_straus_dual_scalar_mul(a, b, p, q, None);
    law_straus_dual_scalar_mul(b, a, q, p, None);
    lemma_smul_valid(p, limbs_value(a));
    lemma_smul_valid(q, limbs_value(b));
    lemma_laws(smul(p, limbs_value(a)), smul(q, limbs_value(b)), p);
}

/// The GLV dual scalar multiplication is symmetric in its two (scalar,
/// base) pairs: under the group laws, the scalar multiplication laws and
/// the eigenvalue of the endomorphism, for canonical scalars `a`, `b` whose
/// decompositions recombine to them and points `P`, `Q`,
/// `G1Point::dual_scalar_mul(a, b, P, Q, None)` equals
/// `G1Point::dual_scalar_mul(b, a, Q, P, None)`.
pub proof fn law_glv_dual_scalar_mul_symmetric(a: Seq<u64>, b: Seq<u64>, p: Seq<u8>, q: Seq<u8>)
    requires
        abelian_group_laws(),
        scalar_mul_laws(),
        endomorphism_laws(),
        scalar_canonical(a),
        scalar_canonical(b),
        g1_valid(p),
        g1_valid(q),
        glv_decomposition_facts(a),
        glv_decomposition_facts(b),
    ensures
        glv_dual_spec(a, b, p, q, None) == glv_dual_spec(b, a, q, p, None),
{
    law_glv_dual_scalar_mul_is_linear_combination(a, b, p, q, None);
    law_glv_dual_scalar_mul_is_linear_combination(b, a, q, p, None);
    lemma_smul_valid(p, limbs_value(a));
    lemma_smul_valid(q, limbs_value(b));
    lemma_laws(smul(p, limbs_value(a)), smul(q, limbs_value(b)), p);
}

/// A point with `a + y == 0` is the negation of `a`.
proof fn lemma_neg_unique(a: Seq<u8>, y: Seq<u8>)
    requires
        abelian_group_laws(),
        g1_valid(a),
        g1_valid(y),
        g1_add(a, y) == g1_identity_encoding(),
    ensures
        y == g1_neg(a),
{
    let id = g1_identity_encoding();
    let na = g1_neg(a);
    lemma_laws(a, a, a);
    lemma_laws(a, y, na);
    lemma_laws(na, a, y);
    lemma_laws(y, na, a);
    lemma_laws(na, y, a);
    assert(g1_add(g1_add(na, a), y) == g1_add(na, g1_add(a, y)));
    assert(g1_add(na, a) == id);
}

/// `-(-a) == a`.
proof fn lemma_neg_neg(a: Seq<u8>)
    requires
        abelian_group_laws(),
        g1_valid(a),
    ensures
        g1_neg(g1_neg(a)) == a,
{
    let na = g1_neg(a);
    lemma_laws(a, a, a);
    lemma_laws(a, na, a);
    lemma_laws(na, a, a);
    lemma_neg_unique(na, a);
}

/// `-(a + b) == -a + -b`.
proof fn lemma_neg_add(a: Seq<u8>, b: Seq<u8>)
    requires
        abelian_group_laws(),
        g1_valid(a),
        g1_valid(b),
    ensures
        g1_neg(g1_add(a, b)) == g1_add(g1_neg(a), g1_neg(b)),
{
    let id = g1_identity_encoding();
    let na = g1_neg(a);
    let nb = g1_neg(b);
    lemma_laws(a, a, a);
    lemma_laws(b, b, b);
    lemma_laws(a, b, na);
    lemma_laws(b, nb, na);
    lemma_laws(na, nb, b);
    lemma_laws(nb, na, a);
    lemma_laws(id, na, a);
    let s = g1_add(na, nb);
    lemma_laws(a, b, s);
    lemma_laws(b, s, a);
    lemma_laws(b, nb, na);
    assert(g1_add(g1_add(a, b), s) == g1_add(a, g1_add(b, s)));
    assert(g1_add(b, g1_add(nb, na)) == g1_add(g1_add(b, nb), na));
    assert(g1_add(b, s) == na);
    lemma_neg_unique(g1_add(a, b), s);
}

/// Bit `j` of `s ^ i` is clear exactly when bits `j` of `s` and `i` agree,
/// and the index bits of `i` are its binary digits.
proof fn lemma_flip_bits(s: usize, i: usize, j: usize)
    requires
        s < 16,
        i < 16,
        j < 4,
    ensures
        index_bits(i as nat, 4)[j as int] == (if ((i >> j) & 1usize) == 0usize { 0nat } else { 1nat }),
        sign_bit_clear(s ^ i, j as int) == (sign_bit_clear(s, j as int) == (index_bits(
            i as nat,
            4,
        )[j as int] == 0)),
{
    lemma2_to64();
    let b = index_bits(i as nat, 4)[j as int];
    assert(b == (i as nat / pow2(j as nat)) % 2);
    if j == 0 {
        assert((i / 1) % 2 == ((i >> 0usize) & 1usize)) by (bit_vector);
    } else if j == 1 {
        assert((i / 2) % 2 == ((i >> 1usize) & 1usize)) by (bit_vector);
    } else if j == 2 {
        assert((i / 4) % 2 == ((i >> 2usize) & 1usize)) by (bit_vector);
    } else {
        assert((i / 8) % 2 == ((i >> 3usize) & 1usize)) by (bit_vector);
    }
    assert(((i >> j) & 1usize) <= 1usize) by (bit_vector);
    assert(((((s ^ i) >> j) & 1usize) == 0usize) == ((((s >> j) & 1usize) == 0usize) == (((i
        >> j) & 1usize) == 0usize))) by (bit_vector);
}

/// Over the index bits of `i`, the sum of the bases signed by `s ^ i` is
/// the negation of the sum of the bases signed by `s`.
proof fn lemma_msm_flip(bases: Seq<Seq<u8>>, s: usize, i: usize, k: nat)
    requires
        abelian_group_laws(),
        bases.len() == 4,
        all_valid(bases),
        s < 16,
        i < 16,
        k <= 4,
    ensures
        msm(signed_points(bases, s ^ i), index_bits(i as nat, 4), k) == g1_neg(
            msm(signed_points(bases, s), index_bits(i as nat, 4), k),
        ),
    decreases k,
{
    let id = g1_identity_encoding();
    let sp = signed_points(bases, s);
    let sq = signed_points(bases, s ^ i);
    let bits = index_bits(i as nat, 4);
    lemma_identity_valid();
    lemma_laws(id, id, id);
    assert forall|j: int| 0 <= j < 4 implies g1_valid(#[trigger] sp[j]) by {
        assert(g1_valid(bases[j]));
        lemma_laws(bases[j], bases[j], bases[j]);
    }
    assert forall|j: int| 0 <= j < 4 implies g1_valid(#[trigger] sq[j]) by {
        assert(g1_valid(bases[j]));
        lemma_laws(bases[j], bases[j], bases[j]);
    }
    assert(all_valid(sp));
    assert(all_valid(sq));
    if k == 0 {
        lemma_neg_unique(id, id);
    } else {
        let m = (k - 1) as nat;
        lemma_msm_flip(bases, s, i, m);
        lemma_flip_bits(s, i, m as usize);
        lemma_msm_valid(sp, bits, m);
        lemma_msm_valid(sq, bits, m);
        let prev = msm(sp, bits, m);
        let prevq = msm(sq, bits, m);
        lemma_laws(prev, id, id);
        lemma_laws(prevq, id, id);
        if bits[m as int] == 0 {
            assert(smul(sp[m as int], 0) == id);
            assert(smul(sq[m as int], 0) == id);
        } else {
            let x = bases[m as int];
            lemma_laws(x, x, x);
            lemma_neg_neg(x);
            assert(sq[m as int] == g1_neg(sp[m as int]));
            lemma_smul_one(sp[m as int]);
            lemma_smul_one(sq[m as int]);
            lemma_neg_add(prev, sp[m as int]);
        }
    }
}

/// The negation structure of the 256-entry table that
/// `StrausPrecomputedTable::new(G, PK)` builds: under the group laws, for
/// points `G`, `PK` (with their endomorphism images valid), each sign block
/// starts with the identity, and entry `i` of block `s ^ i` is the negation
/// of entry `i` of block `s`, for all `s`, `i` below 16.
pub proof fn law_precomputed_table_negation(g: Seq<u8>, pk: Seq<u8>, s: usize, i: usize)
    requires
        abelian_group_laws(),
        g1_valid(g),
        g1_valid(pk),
        g1_valid(g1_endomorphism(g)),
        g1_valid(g1_endomorphism(pk)),
        s < 16,
        i < 16,
    ensures
        glv_tables(glv_bases(g, pk), 16)[16 * s] == g1_identity_encoding(),
        glv_tables(glv_bases(g, pk), 16)[16 * (s ^ i) + i] == g1_neg(
            glv_tables(glv_bases(g, pk), 16)[16 * s + i],
        ),
{
    let bases = glv_bases(g, pk);
    let id = g1_identity_encoding();
    lemma2_to64();
    assert((s ^ i) < 16usize) by (bit_vector)
        requires
            s < 16usize,
            i < 16usize,
    ;
    assert(all_valid(bases));
    lemma_identity_valid();
    lemma_laws(id, id, id);
    let sp = signed_points(bases, s);
    let sq = signed_points(bases, s ^ i);
    assert forall|j: int| 0 <= j < 4 implies g1_valid(#[trigger] sp[j]) by {
        assert(g1_valid(bases[j]));
        lemma_laws(bases[j], bases[j], bases[j]);
    }
    assert forall|j: int| 0 <= j < 4 implies g1_valid(#[trigger] sq[j]) by {
        assert(g1_valid(bases[j]));
        lemma_laws(bases[j], bases[j], bases[j]);
    }
    assert(all_valid(sp));
    assert(all_valid(sq));
    lemma_glv_tables_index(bases, 16, s, 0);
    lemma_glv_tables_index(bases, 16, s, i as int);
    lemma_glv_tables_index(bases, 16, s ^ i, i as int);
    law_subset_table_entry(sp, 4, 0);
    law_subset_table_entry(sp, 4, i as nat);
    law_subset_table_entry(sq, 4, i as nat);
    assert forall|j: int| 0 <= j < 4 implies #[trigger] index_bits(0, 4)[j] == 0 by {
        lemma_pow2_pos(j as nat);
    }
    lemma_msm_zero(sp, index_bits(0, 4), 4);
    lemma_msm_flip(bases, s, i, 4);
}

} // verus!
