//! The trusted setup: from a circuit and five secret scalars to the keys.

use crate::curve::{g1_generator_bytes, g1_of, g2_generator_bytes, g2_of, G1Point, G2Point};
use crate::error::Groth16Error;
use crate::field::{
    field_add, field_inv, field_mul, field_pow, is_inverse, lemma_field_mul_commutes, Scalar,
};
use crate::keys::{quotient_len, ProvingKey, ProvingKeyView, VerifyingKey, VerifyingKeyView};
use crate::poly::poly_eval;
use crate::qap::{poly_views, qap_of, Qap, QapView};
use crate::r1cs::{Circuit, CircuitView};
use vstd::prelude::*;

verus! {

/// The secret scalars of a setup. Whoever knows them can forge proofs, so
/// they are wiped as soon as the keys are derived.
#[derive(Debug)]
pub struct ToxicWaste {
    pub tau: Scalar,
    pub alpha: Scalar,
    pub beta: Scalar,
    pub gamma: Scalar,
    pub delta: Scalar,
}

/// The secret scalars as mathematics sees them.
pub struct ToxicWasteView {
    pub tau: nat,
    pub alpha: nat,
    pub beta: nat,
    pub gamma: nat,
    pub delta: nat,
}

impl View for ToxicWaste {
    type V = ToxicWasteView;

    open spec fn view(&self) -> ToxicWasteView {
        ToxicWasteView {
            tau: self.tau@,
            alpha: self.alpha@,
            beta: self.beta@,
            gamma: self.gamma@,
            delta: self.delta@,
        }
    }
}

/// Whether all five scalars have been overwritten with zero.
pub open spec fn is_wiped(w: ToxicWasteView) -> bool {
    w.tau == 0 && w.alpha == 0 && w.beta == 0 && w.gamma == 0 && w.delta == 0
}

impl ToxicWaste {
    /// Overwrites the five scalars with zero.
    pub fn wipe(&mut self)
        ensures
            is_wiped(final(self)@),
    {
        self.tau.clear();
        self.alpha.clear();
        self.beta.clear();
        self.gamma.clear();
        self.delta.clear();
    }
}

/// For wire `i`: `beta` times its `a` polynomial plus `alpha` times its `b`
/// polynomial plus its `c` polynomial, all at `tau`.
pub open spec fn wire_combination(q: QapView, i: int, w: ToxicWasteView) -> nat {
    field_add(
        field_add(
            field_mul(w.beta, poly_eval(q.a[i], w.tau)),
            field_mul(w.alpha, poly_eval(q.b[i], w.tau)),
        ),
        poly_eval(q.c[i], w.tau),
    )
}

/// The scalar behind entry `k` of the quotient query: `tau` to the `k` times
/// the target polynomial at `tau`, over `delta`.
pub open spec fn quotient_scalar(q: QapView, k: int, w: ToxicWasteView) -> nat {
    field_mul(
        field_mul(field_pow(w.tau, k as nat), poly_eval(q.target, w.tau)),
        field_inv(w.delta),
    )
}

/// The proving key of a circuit under given secret scalars.
pub open spec fn expected_proving_key(c: CircuitView, w: ToxicWasteView) -> ProvingKeyView {
    let q = qap_of(c);
    ProvingKeyView {
        circuit: c,
        alpha_g1: g1_of(w.alpha),
        beta_g1: g1_of(w.beta),
        beta_g2: g2_of(w.beta),
        delta_g1: g1_of(w.delta),
        delta_g2: g2_of(w.delta),
        a_query: Seq::new(c.variable_count, |i: int| g1_of(poly_eval(q.a[i], w.tau))),
        b_g1_query: Seq::new(c.variable_count, |i: int| g1_of(poly_eval(q.b[i], w.tau))),
        b_g2_query: Seq::new(c.variable_count, |i: int| g2_of(poly_eval(q.b[i], w.tau))),
        l_query: Seq::new(
            (c.variable_count - c.public_input_count) as nat,
            |i: int|
                g1_of(
                    field_mul(
                        wire_combination(q, i + c.public_input_count, w),
                        field_inv(w.delta),
                    ),
                ),
        ),
        h_query: Seq::new(
            quotient_len(c.constraints.len()),
            |k: int| g1_of(quotient_scalar(q, k, w)),
        ),
    }
}

/// The verifying key of a circuit under given secret scalars.
pub open spec fn expected_verifying_key(c: CircuitView, w: ToxicWasteView) -> VerifyingKeyView {
    let q = qap_of(c);
    VerifyingKeyView {
        alpha_g1: g1_of(w.alpha),
        beta_g2: g2_of(w.beta),
        gamma_g2: g2_of(w.gamma),
        delta_g2: g2_of(w.delta),
        ic: Seq::new(
            c.public_input_count,
            |i: int| g1_of(field_mul(wire_combination(q, i, w), field_inv(w.gamma))),
        ),
    }
}

/// Derives the keys of a circuit from the secret scalars and wipes the
/// scalars, whether or not keys could be derived. Keys cannot be derived
/// where `gamma` or `delta` is zero, since both are divided by.
pub fn setup(circuit: &Circuit, waste: &mut ToxicWaste) -> (r: Result<
    (ProvingKey, VerifyingKey),
    Groth16Error,
>)
    ensures
        is_wiped(final(waste)@),
        old(waste)@.gamma == 0 || old(waste)@.delta == 0 ==> r == Err::<
            (ProvingKey, VerifyingKey),
            Groth16Error,
        >(Groth16Error::FieldRangeError),
        old(waste)@.gamma != 0 && old(waste)@.delta != 0 ==> r is Ok && r->Ok_0.0@
            == expected_proving_key(circuit@, old(waste)@) && r->Ok_0.1@ == expected_verifying_key(
            circuit@,
            old(waste)@,
        ),
        r is Ok ==> is_inverse(old(waste)@.gamma, field_inv(old(waste)@.gamma)) && is_inverse(
            old(waste)@.delta,
            field_inv(old(waste)@.delta),
        ),
{
    let result = derive_keys(circuit, waste);
    waste.wipe();
    result
}

/// Derives the keys of a circuit from the secret scalars.
fn derive_keys(circuit: &Circuit, waste: &ToxicWaste) -> (r: Result<
    (ProvingKey, VerifyingKey),
    Groth16Error,
>)
    ensures
        waste@.gamma == 0 || waste@.delta == 0 ==> r == Err::<
            (ProvingKey, VerifyingKey),
            Groth16Error,
        >(Groth16Error::FieldRangeError),
        waste@.gamma != 0 && waste@.delta != 0 ==> r is Ok && r->Ok_0.0@ == expected_proving_key(
            circuit@,
            waste@,
        ) && r->Ok_0.1@ == expected_verifying_key(circuit@, waste@),
        r is Ok ==> is_inverse(waste@.gamma, field_inv(waste@.gamma)) && is_inverse(
            waste@.delta,
            field_inv(waste@.delta),
        ),
{
    if waste.gamma.is_zero() || waste.delta.is_zero() {
        return Err(Groth16Error::FieldRangeError);
    }
    let gamma_inv = waste.gamma.inverse_of_nonzero();
    let delta_inv = waste.delta.inverse_of_nonzero();
    proof {
        use_type_invariant(circuit);
    }
    let qap = Qap::from_circuit(circuit);
    let n = circuit.constraint_count();
    let m = circuit.variable_count();
    let public = circuit.public_input_count();
    let ghost c = circuit@;
    let ghost w = waste@;
    let ghost q = qap_of(c);
    let g1 = G1Point::base_point();
    let g2 = G2Point::base_point();

    let mut a_query: Vec<G1Point> = Vec::new();
    let mut b_g1_query: Vec<G1Point> = Vec::new();
    let mut b_g2_query: Vec<G2Point> = Vec::new();
    let mut l_query: Vec<G1Point> = Vec::new();
    let mut ic: Vec<G1Point> = Vec::new();
    let mut i: usize = 0;
    while i < m
        invariant
            i <= m,
            public <= m,
            m == c.variable_count,
            public == c.public_input_count,
            w == waste@,
            q == qap_of(c),
            qap@ == q,
            g1@ == g1_generator_bytes(),
            g2@ == g2_generator_bytes(),
            gamma_inv@ == field_inv(w.gamma),
            delta_inv@ == field_inv(w.delta),
            a_query@.len() == i,
            b_g1_query@.len() == i,
            b_g2_query@.len() == i,
            ic@.len() == if i < public {
                i
            } else {
                public
            },
            l_query@.len() == if i < public {
                0
            } else {
                i - public
            },
            forall|v: int|
                0 <= v < i ==> (#[trigger] a_query@[v])@ == g1_of(poly_eval(q.a[v], w.tau)),
            forall|v: int|
                0 <= v < i ==> (#[trigger] b_g1_query@[v])@ == g1_of(poly_eval(q.b[v], w.tau)),
            forall|v: int|
                0 <= v < i ==> (#[trigger] b_g2_query@[v])@ == g2_of(poly_eval(q.b[v], w.tau)),
            forall|v: int|
                0 <= v < ic@.len() ==> (#[trigger] ic@[v])@ == g1_of(
                    field_mul(wire_combination(q, v, w), field_inv(w.gamma)),
                ),
            forall|v: int|
                0 <= v < l_query@.len() ==> (#[trigger] l_query@[v])@ == g1_of(
                    field_mul(wire_combination(q, v + public, w), field_inv(w.delta)),
                ),
        decreases m - i,
    {
        proof {
            assert(poly_views(qap.a@) == q.a && poly_views(qap.b@) == q.b && poly_views(qap.c@)
                == q.c);
            assert(poly_views(qap.a@).len() == m && poly_views(qap.b@).len() == m && poly_views(
                qap.c@,
            ).len() == m);
            assert(poly_views(qap.a@)[i as int] == qap.a@[i as int]@);
            assert(poly_views(qap.b@)[i as int] == qap.b@[i as int]@);
            assert(poly_views(qap.c@)[i as int] == qap.c@[i as int]@);
        }
        let a = qap.a[i].eval(&waste.tau);
        let b = qap.b[i].eval(&waste.tau);
        let cv = qap.c[i].eval(&waste.tau);
        a_query.push(g1.mul(&a));
        b_g1_query.push(g1.mul(&b));
        b_g2_query.push(g2.mul(&b));
        let combination = waste.beta.mul(&a).add(&waste.alpha.mul(&b)).add(&cv);
        if i < public {
            ic.push(g1.mul(&combination.mul(&gamma_inv)));
        } else {
            l_query.push(g1.mul(&combination.mul(&delta_inv)));
        }
        i = i + 1;
    }

    let target = qap.target.eval(&waste.tau);
    let mut h_query: Vec<G1Point> = Vec::new();
    let mut power = Scalar::one();
    let mut k: usize = 0;
    while k + 1 < n
        invariant
            k <= quotient_len(n as nat),
            w == waste@,
            q == qap_of(c),
            g1@ == g1_generator_bytes(),
            delta_inv@ == field_inv(w.delta),
            target@ == poly_eval(q.target, w.tau),
            power@ == field_pow(w.tau, k as nat),
            h_query@.len() == k,
            forall|v: int|
                0 <= v < k ==> (#[trigger] h_query@[v])@ == g1_of(quotient_scalar(q, v, w)),
        decreases n - k,
    {
        h_query.push(g1.mul(&power.mul(&target).mul(&delta_inv)));
        proof {
            lemma_field_mul_commutes(power@, w.tau);
        }
        power = power.mul(&waste.tau);
        k = k + 1;
    }

    let alpha_g1 = g1.mul(&waste.alpha);
    let beta_g2 = g2.mul(&waste.beta);
    let delta_g2 = g2.mul(&waste.delta);
    let proving_key = ProvingKey {
        circuit: circuit.duplicate(),
        alpha_g1,
        beta_g1: g1.mul(&waste.beta),
        beta_g2,
        delta_g1: g1.mul(&waste.delta),
        delta_g2,
        a_query,
        b_g1_query,
        b_g2_query,
        l_query,
        h_query,
    };
    let verifying_key = VerifyingKey {
        alpha_g1,
        beta_g2,
        gamma_g2: g2.mul(&waste.gamma),
        delta_g2,
        ic,
    };
    proof {
        let epk = expected_proving_key(c, w);
        let evk = expected_verifying_key(c, w);
        assert(proving_key@.a_query =~= epk.a_query);
        assert(proving_key@.b_g1_query =~= epk.b_g1_query);
        assert(proving_key@.b_g2_query =~= epk.b_g2_query);
        assert(proving_key@.l_query =~= epk.l_query);
        assert(proving_key@.h_query =~= epk.h_query);
        assert(verifying_key@.ic =~= evk.ic);
    }
    Ok((proving_key, verifying_key))
}

} // verus!
