use groth16::error::Groth16Error;
use groth16::field::Scalar;
use groth16::prover::{prove, Blinding};
use groth16::r1cs::{Circuit, Constraint, Term};
use groth16::setup::{setup, ToxicWaste};
use groth16::verification::verify;

fn term(variable: usize, coefficient: u64) -> Term {
    Term { variable, coefficient: Scalar::from_u64(coefficient) }
}

/// One constraint `x * x = y` over the variables `y` (public) and `x` (private).
fn square_circuit() -> Circuit {
    let constraint = Constraint { a: vec![term(1, 1)], b: vec![term(1, 1)], c: vec![term(0, 1)] };
    Circuit::new(vec![constraint], 2, 1).unwrap()
}

/// `x^3 + x + 5 = out` over the variables `one`, `out` (public), `x`, `x2`, `x3` (private).
fn cubic_circuit() -> Circuit {
    let constraints = vec![
        Constraint { a: vec![term(2, 1)], b: vec![term(2, 1)], c: vec![term(3, 1)] },
        Constraint { a: vec![term(3, 1)], b: vec![term(2, 1)], c: vec![term(4, 1)] },
        Constraint {
            a: vec![term(4, 1), term(2, 1), term(0, 5)],
            b: vec![term(0, 1)],
            c: vec![term(1, 1)],
        },
    ];
    Circuit::new(constraints, 5, 2).unwrap()
}

fn waste(seed: u64) -> ToxicWaste {
    ToxicWaste {
        tau: Scalar::from_u64(seed + 11),
        alpha: Scalar::from_u64(seed + 22),
        beta: Scalar::from_u64(seed + 33),
        gamma: Scalar::from_u64(seed + 44),
        delta: Scalar::from_u64(seed + 55),
    }
}

fn scalars(v: &[u64]) -> Vec<Scalar> {
    v.iter().map(|x| Scalar::from_u64(*x)).collect()
}

#[test]
fn square_circuit_proof_verifies() {
    let circuit = square_circuit();
    let mut w = waste(1000);
    let (pk, vk) = setup(&circuit, &mut w).unwrap();
    assert!(w.tau.is_zero() && w.alpha.is_zero() && w.beta.is_zero());
    assert!(w.gamma.is_zero() && w.delta.is_zero());
    let mut witness = scalars(&[9, 3]);
    let mut blinding = Blinding { r: Scalar::from_u64(7), s: Scalar::from_u64(13) };
    let proof = prove(&pk, &mut witness, &mut blinding).unwrap();
    assert!(witness.iter().all(|x| x.is_zero()));
    assert!(blinding.r.is_zero() && blinding.s.is_zero());
    assert!(verify(&vk, &proof, &scalars(&[9])));
    assert!(!verify(&vk, &proof, &scalars(&[10])));
    assert!(!verify(&vk, &proof, &scalars(&[])));
    assert!(!verify(&vk, &proof, &scalars(&[9, 3])));
}

#[test]
fn cubic_circuit_proof_verifies() {
    let circuit = cubic_circuit();
    let (pk, vk) = setup(&circuit, &mut waste(5)).unwrap();
    // x = 3: x2 = 9, x3 = 27, out = 27 + 3 + 5 = 35
    let mut witness = scalars(&[1, 35, 3, 9, 27]);
    let mut blinding = Blinding { r: Scalar::from_u64(123), s: Scalar::from_u64(456) };
    let proof = prove(&pk, &mut witness, &mut blinding).unwrap();
    assert!(verify(&vk, &proof, &scalars(&[1, 35])));
    assert!(!verify(&vk, &proof, &scalars(&[1, 36])));
    assert!(!verify(&vk, &proof, &scalars(&[2, 35])));
}

#[test]
fn unsatisfying_witness_is_refused() {
    let circuit = cubic_circuit();
    let (pk, _vk) = setup(&circuit, &mut waste(5)).unwrap();
    for bad in [[1u64, 35, 4, 9, 27], [1, 35, 3, 10, 27], [1, 35, 3, 9, 28]] {
        let mut witness = scalars(&bad);
        let mut blinding = Blinding { r: Scalar::from_u64(1), s: Scalar::from_u64(2) };
        assert_eq!(
            prove(&pk, &mut witness, &mut blinding).unwrap_err(),
            Groth16Error::ConstraintUnsatisfied
        );
        assert!(witness.iter().all(|x| x.is_zero()));
    }
    let mut short = scalars(&[1, 35, 3, 9]);
    let mut blinding = Blinding { r: Scalar::from_u64(1), s: Scalar::from_u64(2) };
    assert_eq!(
        prove(&pk, &mut short, &mut blinding).unwrap_err(),
        Groth16Error::ConstraintUnsatisfied
    );
}

#[test]
fn proofs_do_not_carry_over_to_another_setup() {
    let circuit = square_circuit();
    let (pk1, vk1) = setup(&circuit, &mut waste(1)).unwrap();
    let (pk2, vk2) = setup(&circuit, &mut waste(2)).unwrap();
    assert_ne!(vk1.alpha_g1.to_bytes(), vk2.alpha_g1.to_bytes());
    let mut b1 = Blinding { r: Scalar::from_u64(3), s: Scalar::from_u64(4) };
    let mut b2 = Blinding { r: Scalar::from_u64(3), s: Scalar::from_u64(4) };
    let first_proof = prove(&pk1, &mut scalars(&[9, 3]), &mut b1).unwrap();
    let second_proof = prove(&pk2, &mut scalars(&[9, 3]), &mut b2).unwrap();
    assert!(verify(&vk1, &first_proof, &scalars(&[9])));
    assert!(verify(&vk2, &second_proof, &scalars(&[9])));
    assert!(!verify(&vk1, &second_proof, &scalars(&[9])));
    assert!(!verify(&vk2, &first_proof, &scalars(&[9])));
}

#[test]
fn setup_refuses_zero_gamma_or_delta() {
    let circuit = square_circuit();
    let mut w = waste(1);
    w.gamma = Scalar::zero();
    assert_eq!(setup(&circuit, &mut w).unwrap_err(), Groth16Error::FieldRangeError);
    assert!(w.tau.is_zero());
    let mut w = waste(1);
    w.delta = Scalar::zero();
    assert_eq!(setup(&circuit, &mut w).unwrap_err(), Groth16Error::FieldRangeError);
}

#[test]
fn circuit_shape_is_checked() {
    let row = || vec![term(0, 1)];
    let many: Vec<Constraint> =
        (0..257).map(|_| Constraint { a: row(), b: row(), c: row() }).collect();
    assert_eq!(Circuit::new(many, 1, 0).unwrap_err(), Groth16Error::SetupSizeError);
    let out_of_range = vec![Constraint { a: row(), b: vec![term(2, 1)], c: row() }];
    assert_eq!(Circuit::new(out_of_range, 2, 0).unwrap_err(), Groth16Error::SerializationError);
    let one = vec![Constraint { a: row(), b: row(), c: row() }];
    assert_eq!(Circuit::new(one, 1, 2).unwrap_err(), Groth16Error::SerializationError);
}

#[test]
fn circuit_without_constraints_accepts_any_witness() {
    let circuit = Circuit::new(vec![], 2, 1).unwrap();
    let (pk, vk) = setup(&circuit, &mut waste(3)).unwrap();
    assert!(pk.h_query.is_empty());
    let mut blinding = Blinding { r: Scalar::from_u64(5), s: Scalar::from_u64(6) };
    let proof = prove(&pk, &mut scalars(&[4, 8]), &mut blinding).unwrap();
    assert!(verify(&vk, &proof, &scalars(&[4])));
}

#[test]
fn circuit_with_public_variables_only() {
    // x0 * x1 = x2, all three public
    let constraint = Constraint { a: vec![term(0, 1)], b: vec![term(1, 1)], c: vec![term(2, 1)] };
    let circuit = Circuit::new(vec![constraint], 3, 3).unwrap();
    let (pk, vk) = setup(&circuit, &mut waste(9)).unwrap();
    assert!(pk.l_query.is_empty());
    assert_eq!(vk.ic.len(), 3);
    let mut blinding = Blinding { r: Scalar::from_u64(0), s: Scalar::from_u64(0) };
    let proof = prove(&pk, &mut scalars(&[6, 7, 42]), &mut blinding).unwrap();
    assert!(verify(&vk, &proof, &scalars(&[6, 7, 42])));
    assert!(!verify(&vk, &proof, &scalars(&[6, 7, 43])));
}

#[test]
fn different_blinding_gives_different_proofs_that_both_verify() {
    let circuit = square_circuit();
    let (pk, vk) = setup(&circuit, &mut waste(1)).unwrap();
    let mut b1 = Blinding { r: Scalar::from_u64(3), s: Scalar::from_u64(4) };
    let mut b2 = Blinding { r: Scalar::from_u64(5), s: Scalar::from_u64(6) };
    let first_proof = prove(&pk, &mut scalars(&[9, 3]), &mut b1).unwrap();
    let second_proof = prove(&pk, &mut scalars(&[9, 3]), &mut b2).unwrap();
    assert_ne!(first_proof.a.to_bytes(), second_proof.a.to_bytes());
    assert!(verify(&vk, &first_proof, &scalars(&[9])));
    assert!(verify(&vk, &second_proof, &scalars(&[9])));
    // the other square root of 9 is a witness too
    let minus_three = Scalar::from_u64(3).neg();
    let mut b3 = Blinding { r: Scalar::from_u64(1), s: Scalar::from_u64(1) };
    let third_proof = prove(&pk, &mut vec![Scalar::from_u64(9), minus_three], &mut b3).unwrap();
    assert!(verify(&vk, &third_proof, &scalars(&[9])));
}

#[test]
fn proving_key_that_does_not_fit_its_circuit_is_malformed() {
    let circuit = square_circuit();
    let (mut pk, _vk) = setup(&circuit, &mut waste(1)).unwrap();
    pk.b_g2_query.pop();
    let mut blinding = Blinding { r: Scalar::from_u64(3), s: Scalar::from_u64(4) };
    assert_eq!(
        prove(&pk, &mut scalars(&[9, 3]), &mut blinding).unwrap_err(),
        Groth16Error::SerializationError
    );
    assert!(blinding.r.is_zero());
}
