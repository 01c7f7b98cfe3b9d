use ark_bls12_381::{Fr, G1Projective};
use ark_ec::scalar_mul::glv::GLVConfig;
use ark_ec::{CurveGroup, PrimeGroup};
use ark_ff::PrimeField;
use ark_serialize::CanonicalSerialize;

use nugget_bls::dual_scalar_mul::{
    glv_sign_index, straus_dual_scalar_mul, DualScalarMultiplication, StrausPrecomputedTable,
};
use nugget_bls::group::G1Point;
use nugget_bls::scalar::Scalar;

fn to_point(p: G1Projective) -> G1Point {
    let mut bytes = Vec::new();
    p.into_affine().serialize_compressed(&mut bytes).unwrap();
    G1Point::from_compressed(&bytes).unwrap()
}

fn scalar_of(f: Fr) -> Scalar {
    Scalar::from_limbs(f.into_bigint().0).unwrap()
}

fn sample_scalars() -> Vec<Fr> {
    vec![
        Fr::from(0u64),
        Fr::from(2u64),
        Fr::from(3u64),
        Fr::from(0xdead_beefu64),
        Fr::from(u64::MAX) * Fr::from(u64::MAX) + Fr::from(12345u64),
        -Fr::from(1u64),
        -Fr::from(987654321u64),
        Fr::from_le_bytes_mod_order(b"some thirty-two byte long scalar"),
    ]
}

#[test]
fn glv_sign_index_bits() {
    assert_eq!(glv_sign_index(true, true, true, true), 0);
    assert_eq!(glv_sign_index(false, true, true, true), 1);
    assert_eq!(glv_sign_index(true, false, true, true), 2);
    assert_eq!(glv_sign_index(true, true, false, true), 4);
    assert_eq!(glv_sign_index(true, true, true, false), 8);
    assert_eq!(glv_sign_index(false, false, false, false), 15);
    assert_eq!(glv_sign_index(false, true, false, true), 5);
}

#[test]
fn precompute_sums_holds_all_subset_sums() {
    let g = G1Projective::generator();
    let pts: Vec<G1Projective> = (1..=3u64).map(|i| g * Fr::from(i * 10 + 1)).collect();
    let points: Vec<G1Point> = pts.iter().map(|p| to_point(*p)).collect();
    let table = StrausPrecomputedTable::precompute_sums(&points).table;
    assert_eq!(table.len(), 8);
    for idx in 0..8usize {
        let mut expected = G1Projective::default();
        for j in 0..3 {
            if idx & (1 << j) != 0 {
                expected += pts[j];
            }
        }
        assert!(table[idx].equals(&to_point(expected)));
    }
}

#[test]
fn precomputed_table_layout() {
    let g = G1Projective::generator();
    let pk = g * Fr::from(777u64);
    let table = StrausPrecomputedTable::new(G1Point::generator(), to_point(pk)).table;
    assert_eq!(table.len(), 256);
    let phi = |p: G1Projective| -> G1Projective {
        ark_bls12_381::g1::Config::endomorphism_affine(&p.into_affine()).into()
    };
    let bases = [g, phi(g), pk, phi(pk)];
    for sign_idx in [0usize, 5, 10, 15] {
        for i in 0..16usize {
            let mut expected = G1Projective::default();
            for j in 0..4 {
                if i & (1 << j) != 0 {
                    if sign_idx & (1 << j) == 0 {
                        expected += bases[j];
                    } else {
                        expected -= bases[j];
                    }
                }
            }
            assert!(table[sign_idx * 16 + i].equals(&to_point(expected)));
        }
    }
}

#[test]
fn straus_dual_scalar_mul_computes_linear_combination() {
    let g = G1Projective::generator();
    let q = g * Fr::from(31337u64);
    let gp = G1Point::generator();
    let qp = to_point(q);
    let sum = gp.add(&qp);
    for a in sample_scalars() {
        for b in sample_scalars() {
            let expected = to_point(g * a + q * b);
            let r1 = straus_dual_scalar_mul(&scalar_of(a), &scalar_of(b), &gp, &qp, None);
            assert!(r1.equals(&expected));
            let pre = [sum.clone()];
            let r2 = straus_dual_scalar_mul(&scalar_of(a), &scalar_of(b), &gp, &qp, Some(&pre));
            assert!(r2.equals(&expected));
        }
    }
}

#[test]
fn straus_dual_scalar_mul_small_scalars() {
    let g = G1Projective::generator();
    let q = g * Fr::from(5u64);
    let gp = G1Point::generator();
    let qp = to_point(q);
    let one = scalar_of(Fr::from(1u64));
    let zero = scalar_of(Fr::from(0u64));
    // The highest set bit is bit 0: the sum is still a*P + b*Q.
    let r = straus_dual_scalar_mul(&one, &zero, &gp, &qp, None);
    assert!(r.equals(&gp));
    let r = straus_dual_scalar_mul(&zero, &one, &gp, &qp, None);
    assert!(r.equals(&qp));
    let r = straus_dual_scalar_mul(&one, &one, &gp, &qp, None);
    assert!(r.equals(&to_point(g + q)));
    let r = straus_dual_scalar_mul(&zero, &zero, &gp, &qp, None);
    assert!(r.equals(&G1Point::identity()));
}

#[test]
fn straus_dual_scalar_mul_uses_one_entry_table() {
    let gp = G1Point::generator();
    let qp = to_point(G1Projective::generator() * Fr::from(5u64));
    let wrong = [G1Point::identity()];
    let three = scalar_of(Fr::from(3u64));
    // 3*G + 3*Q with the given "sum" taken as the identity: 2*(G) ... only the
    // two (1,1) positions add the table entry.
    let r = straus_dual_scalar_mul(&three, &three, &gp, &qp, Some(&wrong));
    assert!(r.equals(&G1Point::identity()));
}

#[test]
fn glv_dual_scalar_mul_computes_linear_combination() {
    let g = G1Projective::generator();
    let q = g * Fr::from(4242u64);
    let gp = G1Point::generator();
    let qp = to_point(q);
    let table = StrausPrecomputedTable::new(gp.clone(), qp.clone()).table;
    for a in sample_scalars() {
        for b in sample_scalars() {
            let expected = to_point(g * a + q * b);
            let r1 = G1Point::dual_scalar_mul(&scalar_of(a), &scalar_of(b), &gp, &qp, None);
            let r2 = G1Point::dual_scalar_mul(&scalar_of(a), &scalar_of(b), &gp, &qp, Some(&table));
            assert!(r1.equals(&r2));
            assert!(r1.equals(&expected));
        }
    }
}

#[test]
fn glv_dual_scalar_mul_ignores_tables_of_other_sizes() {
    let gp = G1Point::generator();
    let qp = to_point(G1Projective::generator() * Fr::from(99u64));
    let junk = vec![G1Point::identity(); 3];
    let a = scalar_of(Fr::from(123456789u64));
    let b = scalar_of(-Fr::from(5u64));
    let r1 = G1Point::dual_scalar_mul(&a, &b, &gp, &qp, Some(&junk));
    let r2 = G1Point::dual_scalar_mul(&a, &b, &gp, &qp, None);
    assert!(r1.equals(&r2));
}

#[test]
fn glv_decomposition_recombines() {
    let lambda = <ark_bls12_381::g1::Config as GLVConfig>::LAMBDA;
    for k in sample_scalars() {
        let ((s1, k1), (s2, k2)) = ark_bls12_381::g1::Config::scalar_decomposition(k);
        let v1 = if s1 { k1 } else { -k1 };
        let v2 = if s2 { k2 } else { -k2 };
        assert_eq!(v1 + lambda * v2, k);
    }
}

#[test]
fn glv_dual_scalar_mul_small_parts() {
    let g = G1Projective::generator();
    let q = g * Fr::from(8u64);
    let gp = G1Point::generator();
    let qp = to_point(q);
    let table = StrausPrecomputedTable::new(gp.clone(), qp.clone()).table;
    let one = scalar_of(Fr::from(1u64));
    let zero = scalar_of(Fr::from(0u64));
    // 1 decomposes into the parts (1, 0): the highest set bit is bit 0.
    let r = G1Point::dual_scalar_mul(&one, &zero, &gp, &qp, None);
    assert!(r.equals(&gp));
    let r = G1Point::dual_scalar_mul(&one, &zero, &gp, &qp, Some(&table));
    assert!(r.equals(&gp));
    let r = G1Point::dual_scalar_mul(&zero, &one, &gp, &qp, None);
    assert!(r.equals(&qp));
    let r = G1Point::dual_scalar_mul(&one, &one, &gp, &qp, None);
    assert!(r.equals(&to_point(g + q)));
    let r = G1Point::dual_scalar_mul(&zero, &zero, &gp, &qp, None);
    assert!(r.equals(&G1Point::identity()));
    let two = scalar_of(Fr::from(2u64));
    let r = G1Point::dual_scalar_mul(&two, &zero, &gp, &qp, None);
    assert!(r.equals(&gp.double()));
}

#[test]
fn dual_scalar_mul_is_symmetric() {
    let g = G1Projective::generator();
    let q = g * Fr::from(2718u64);
    let gp = G1Point::generator();
    let qp = to_point(q);
    for a in sample_scalars() {
        for b in sample_scalars() {
            let (sa, sb) = (scalar_of(a), scalar_of(b));
            let r1 = G1Point::dual_scalar_mul(&sa, &sb, &gp, &qp, None);
            let r2 = G1Point::dual_scalar_mul(&sb, &sa, &qp, &gp, None);
            assert!(r1.equals(&r2));
            let s1 = straus_dual_scalar_mul(&sa, &sb, &gp, &qp, None);
            let s2 = straus_dual_scalar_mul(&sb, &sa, &qp, &gp, None);
            assert!(s1.equals(&s2));
        }
    }
}

#[test]
fn precomputed_table_negation() {
    let pk = to_point(G1Projective::generator() * Fr::from(4321u64));
    let table = StrausPrecomputedTable::new(G1Point::generator(), pk).table;
    for s in 0..16usize {
        assert!(table[16 * s].equals(&G1Point::identity()));
        for i in 0..16usize {
            assert!(table[16 * (s ^ i) + i].equals(&table[16 * s + i].neg()));
        }
    }
    let copy = StrausPrecomputedTable { table: table.clone() }.clone();
    assert_eq!(copy.table.len(), 256);
    for k in 0..256 {
        assert!(copy.table[k].equals(&table[k]));
    }
}
