use groth16::field::Scalar;
use groth16::poly::Polynomial;
use groth16::qap::{lagrange_bases, point_of, target_polynomial, Qap};
use groth16::r1cs::{Circuit, Constraint, Term};

fn poly(coeffs: &[u64]) -> Polynomial {
    Polynomial { coeffs: coeffs.iter().map(|c| Scalar::from_u64(*c)).collect() }
}

fn same(p: &Polynomial, coeffs: &[u64]) -> bool {
    p.coeffs.len() == coeffs.len()
        && p.coeffs.iter().zip(coeffs).all(|(a, b)| a.equals(&Scalar::from_u64(*b)))
}

#[test]
fn evaluation_by_horner() {
    // 2 + 3x + x^2 at 5 is 2 + 15 + 25
    assert!(poly(&[2, 3, 1]).eval(&Scalar::from_u64(5)).equals(&Scalar::from_u64(42)));
    assert!(poly(&[]).eval(&Scalar::from_u64(5)).is_zero());
    assert!(poly(&[7]).eval(&Scalar::from_u64(5)).equals(&Scalar::from_u64(7)));
}

#[test]
fn sum_and_difference_pad_with_zeros() {
    assert!(same(&poly(&[1, 2, 3]).add(&poly(&[10])), &[11, 2, 3]));
    assert!(same(&poly(&[10]).add(&poly(&[1, 2, 3])), &[11, 2, 3]));
    assert!(same(&poly(&[5, 7]).sub(&poly(&[1, 2])), &[4, 5]));
    let d = poly(&[1]).sub(&poly(&[2]));
    assert!(d.coeffs[0].equals(&Scalar::one().neg()));
}

#[test]
fn product_of_polynomials() {
    // (1 + x)(2 + 3x + x^2) = 2 + 5x + 4x^2 + x^3
    assert!(same(&poly(&[1, 1]).mul(&poly(&[2, 3, 1])), &[2, 5, 4, 1]));
    assert!(same(&poly(&[]).mul(&poly(&[2, 3, 1])), &[]));
    assert!(same(&poly(&[3]).mul(&poly(&[2, 3, 1])), &[6, 9, 3]));
    assert!(same(&poly(&[0, 1]).shift(), &[0, 0, 1]));
    assert!(same(&poly(&[1, 2]).scale(&Scalar::from_u64(4)), &[4, 8]));
}

#[test]
fn product_with_and_quotient_by_a_linear_factor() {
    // (x^2 + 1)(x - 3) = x^3 - 3x^2 + x - 3
    let p = poly(&[1, 0, 1]).mul_linear(&Scalar::from_u64(3));
    assert_eq!(p.coeffs.len(), 4);
    assert!(p.coeffs[3].equals(&Scalar::one()));
    assert!(p.coeffs[0].equals(&Scalar::from_u64(3).neg()));
    assert!(p.eval(&Scalar::from_u64(3)).is_zero());
    assert!(same(&p.div_linear(&Scalar::from_u64(3)), &[1, 0, 1]));
    // x^2 + 1 by x - 2 is x + 2, with 5 left over
    assert!(same(&poly(&[1, 0, 1]).div_linear(&Scalar::from_u64(2)), &[2, 1]));
    assert!(same(&poly(&[9]).div_linear(&Scalar::from_u64(2)), &[]));
    assert!(same(&poly(&[]).div_linear(&Scalar::from_u64(2)), &[]));
}

#[test]
fn lagrange_basis_is_one_at_its_point_and_zero_at_the_others() {
    let n = 5;
    let bases = lagrange_bases(n);
    assert_eq!(bases.len(), n);
    for (j, basis) in bases.iter().enumerate() {
        assert_eq!(basis.len(), n);
        for i in 0..n {
            let value = basis.eval(&point_of(i));
            if i == j {
                assert!(value.equals(&Scalar::one()));
            } else {
                assert!(value.is_zero());
            }
        }
    }
    assert!(lagrange_bases(0).is_empty());
}

#[test]
fn target_polynomial_vanishes_on_the_domain_and_is_monic() {
    let t = target_polynomial(4);
    assert_eq!(t.len(), 5);
    assert!(t.coeffs[4].equals(&Scalar::one()));
    for i in 0..4 {
        assert!(t.eval(&point_of(i)).is_zero());
    }
    // (5 - 1)(5 - 2)(5 - 3)(5 - 4) = 24
    assert!(t.eval(&Scalar::from_u64(5)).equals(&Scalar::from_u64(24)));
    assert!(same(&target_polynomial(0), &[1]));
    assert!(point_of(0).equals(&Scalar::one()));
}

#[test]
fn wire_polynomials_take_the_matrix_entries_at_the_domain() {
    let t = |variable: usize, c: u64| Term { variable, coefficient: Scalar::from_u64(c) };
    let constraints = vec![
        Constraint { a: vec![t(0, 2), t(1, 3)], b: vec![t(1, 1)], c: vec![t(2, 1)] },
        Constraint { a: vec![t(1, 5), t(1, 6)], b: vec![], c: vec![t(0, 7)] },
        Constraint { a: vec![t(2, 4)], b: vec![t(0, 1), t(2, 8)], c: vec![] },
    ];
    let circuit = Circuit::new(constraints, 3, 1).unwrap();
    let qap = Qap::from_circuit(&circuit);
    assert_eq!((qap.a.len(), qap.b.len(), qap.c.len()), (3, 3, 3));
    let a = [[2u64, 3, 0], [0, 11, 0], [0, 0, 4]];
    let b = [[0u64, 1, 0], [0, 0, 0], [1, 0, 8]];
    let c = [[0u64, 0, 1], [7, 0, 0], [0, 0, 0]];
    for r in 0..3 {
        for i in 0..3 {
            assert!(qap.a[i].eval(&point_of(r)).equals(&Scalar::from_u64(a[r][i])));
            assert!(qap.b[i].eval(&point_of(r)).equals(&Scalar::from_u64(b[r][i])));
            assert!(qap.c[i].eval(&point_of(r)).equals(&Scalar::from_u64(c[r][i])));
        }
        assert!(qap.target.eval(&point_of(r)).is_zero());
    }
}

#[test]
fn satisfaction_is_checked_row_by_row() {
    let t = |variable: usize, c: u64| Term { variable, coefficient: Scalar::from_u64(c) };
    // (2 x0 + x1) * x1 = x2
    let circuit = Circuit::new(
        vec![Constraint { a: vec![t(0, 2), t(1, 1)], b: vec![t(1, 1)], c: vec![t(2, 1)] }],
        3,
        1,
    )
    .unwrap();
    let w = |v: [u64; 3]| v.iter().map(|x| Scalar::from_u64(*x)).collect::<Vec<_>>();
    assert!(circuit.is_satisfied(&w([1, 3, 15])));
    assert!(!circuit.is_satisfied(&w([1, 3, 16])));
    assert!(!circuit.is_satisfied(&w([1, 3, 15])[..2].to_vec()));
    assert_eq!(circuit.variable_count(), 3);
    assert_eq!(circuit.public_input_count(), 1);
    assert_eq!(circuit.constraint_count(), 1);
    assert_eq!(circuit.constraints().len(), 1);
    let copy = circuit.duplicate();
    assert!(copy.is_satisfied(&w([1, 3, 15])));
}
