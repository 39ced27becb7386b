//! The prover: from a proving key, a witness and two blinding scalars to a proof.

use crate::curve::{
    g1_msm, g1_multi_scalar_mul, g1_multiple, g1_sum, g2_msm, g2_multi_scalar_mul, g2_multiple,
    g2_sum,
};
use crate::error::Groth16Error;
use crate::field::{field_mul, field_neg, values, Scalar};
use crate::keys::{proving_key_fits, quotient_len, Proof, ProofView, ProvingKey, ProvingKeyView};
use crate::poly::{
    lemma_poly_mul_len, poly_add, poly_div_linear, poly_mul, poly_scale, poly_sub, poly_zero,
    Polynomial,
};
use crate::qap::{
    a_rows, b_rows, c_rows, domain_point, lemma_wire_sum_len, point_of, poly_views, qap_of, Qap,
};
use crate::r1cs::{satisfied, well_formed, CircuitView, MAX_DOMAIN_SIZE};
use vstd::prelude::*;

verus! {

/// The sum of the first `k` polynomials, each times the scalar at its place.
pub open spec fn combine_upto(polys: Seq<Seq<nat>>, w: Seq<nat>, n: nat, k: nat) -> Seq<nat>
    decreases k,
{
    if k == 0 {
        poly_zero(n)
    } else {
        poly_add(combine_upto(polys, w, n, (k - 1) as nat), poly_scale(w[k - 1], polys[k - 1]))
    }
}

/// The sum of the polynomials, each times the scalar at its place.
pub open spec fn combine(polys: Seq<Seq<nat>>, w: Seq<nat>, n: nat) -> Seq<nat> {
    combine_upto(polys, w, n, polys.len())
}

/// The quotient of a polynomial by `x - point` for each of the first `k`
/// points of the domain in turn, remainders dropped.
pub open spec fn divide_by_domain(p: Seq<nat>, k: nat) -> Seq<nat>
    decreases k,
{
    if k == 0 {
        p
    } else {
        poly_div_linear(divide_by_domain(p, (k - 1) as nat), domain_point((k - 1) as nat))
    }
}

/// The polynomial `a * b - c` of a witness, where `a`, `b`, `c` are the
/// sums of the wire polynomials, each times the value of its wire.
pub open spec fn witness_polynomial(c: CircuitView, w: Seq<nat>) -> Seq<nat> {
    let q = qap_of(c);
    let n = c.constraints.len();
    poly_sub(poly_mul(combine(q.a, w, n), combine(q.b, w, n)), combine(q.c, w, n))
}

/// The quotient of the witness polynomial by the target polynomial.
pub open spec fn quotient_polynomial(c: CircuitView, w: Seq<nat>) -> Seq<nat> {
    divide_by_domain(witness_polynomial(c, w), c.constraints.len())
}

/// The proof that a proving key, a full assignment and blinding scalars
/// `r` and `s` give. `A` is `alpha`, plus the wires' `a` elements, each taken
/// as many times as the value of its wire says, plus `delta` taken `r` times.
/// `B` is the same in G2 with `beta`, the `b` elements and `s`. `C` is the
/// private wires' elements, each taken as many times as the value of its wire
/// says, plus the quotient's elements, each taken as many times as the
/// coefficient of the quotient polynomial at its place says, plus `A` taken
/// `s` times, plus `B` in G1 taken `r` times, less `delta` taken `r * s` times.
pub open spec fn expected_proof(pk: ProvingKeyView, w: Seq<nat>, r: nat, s: nat) -> ProofView {
    let h = quotient_polynomial(pk.circuit, w);
    let private = w.subrange(pk.circuit.public_input_count as int, w.len() as int);
    let a = g1_sum(g1_sum(pk.alpha_g1, g1_msm(w, pk.a_query)), g1_multiple(r, pk.delta_g1));
    let b = g2_sum(g2_sum(pk.beta_g2, g2_msm(w, pk.b_g2_query)), g2_multiple(s, pk.delta_g2));
    let b1 = g1_sum(g1_sum(pk.beta_g1, g1_msm(w, pk.b_g1_query)), g1_multiple(s, pk.delta_g1));
    let c = g1_sum(
        g1_sum(
            g1_sum(
                g1_sum(g1_msm(private, pk.l_query), g1_msm(h, pk.h_query)),
                g1_multiple(s, a),
            ),
            g1_multiple(r, b1),
        ),
        g1_multiple(field_neg(field_mul(r, s)), pk.delta_g1),
    );
    ProofView { a, b, c }
}

/// The two scalars that blind a proof. They are wiped once the proof is made.
#[derive(Debug)]
pub struct Blinding {
    pub r: Scalar,
    pub s: Scalar,
}

/// Whether every scalar of a list is zero.
pub open spec fn all_zero(v: Seq<nat>) -> bool {
    forall|i: int| 0 <= i < v.len() ==> #[trigger] v[i] == 0
}

/// Overwrites every scalar of a list with zero.
pub fn wipe_scalars(v: &mut Vec<Scalar>)
    ensures
        final(v)@.len() == old(v)@.len(),
        all_zero(values(final(v)@)),
{
    let n = v.len();
    let mut i: usize = 0;
    while i < n
        invariant
            i <= n,
            v@.len() == n,
            forall|j: int| 0 <= j < i ==> (#[trigger] v@[j])@ == 0,
        decreases n - i,
    {
        v[i] = Scalar::zero();
        i = i + 1;
    }
}

/// A sum of polynomials of `n` coefficients has `n` coefficients.
pub proof fn lemma_combine_len(polys: Seq<Seq<nat>>, w: Seq<nat>, n: nat, k: nat)
    requires
        k <= polys.len(),
        forall|i: int| 0 <= i < polys.len() ==> (#[trigger] polys[i]).len() == n,
    ensures
        combine_upto(polys, w, n, k).len() == n,
    decreases k,
{
    if k > 0 {
        lemma_combine_len(polys, w, n, (k - 1) as nat);
    }
}

/// Each division by a linear factor takes one coefficient away.
pub proof fn lemma_divide_len(p: Seq<nat>, k: nat)
    ensures
        divide_by_domain(p, k).len() == if p.len() >= k {
            (p.len() - k) as nat
        } else {
            0
        },
    decreases k,
{
    if k > 0 {
        lemma_divide_len(p, (k - 1) as nat);
    }
}

/// The quotient polynomial has one coefficient less than the domain has points.
pub proof fn lemma_quotient_len(c: CircuitView, w: Seq<nat>)
    requires
        well_formed(c),
        w.len() == c.variable_count,
    ensures
        quotient_polynomial(c, w).len() == quotient_len(c.constraints.len()),
{
    let q = qap_of(c);
    let n = c.constraints.len();
    assert forall|i: int| 0 <= i < q.a.len() implies (#[trigger] q.a[i]).len() == n by {
        lemma_wire_sum_len(a_rows(c.constraints), i as nat, n, 0);
    }
    assert forall|i: int| 0 <= i < q.b.len() implies (#[trigger] q.b[i]).len() == n by {
        lemma_wire_sum_len(b_rows(c.constraints), i as nat, n, 0);
    }
    assert forall|i: int| 0 <= i < q.c.len() implies (#[trigger] q.c[i]).len() == n by {
        lemma_wire_sum_len(c_rows(c.constraints), i as nat, n, 0);
    }
    lemma_combine_len(q.a, w, n, q.a.len());
    lemma_combine_len(q.b, w, n, q.b.len());
    lemma_combine_len(q.c, w, n, q.c.len());
    if n > 0 {
        lemma_poly_mul_len(combine(q.a, w, n), combine(q.b, w, n));
    }
    lemma_divide_len(witness_polynomial(c, w), n);
}

/// The sum of the polynomials, each times the scalar at its place.
fn linear_combination(polys: &Vec<Polynomial>, w: &Vec<Scalar>, n: usize) -> (r: Polynomial)
    requires
        polys@.len() == w@.len(),
    ensures
        r@ == combine(poly_views(polys@), values(w@), n as nat),
{
    let mut acc = Polynomial::zeros(n);
    let mut i: usize = 0;
    while i < polys.len()
        invariant
            i <= polys.len(),
            polys@.len() == w@.len(),
            acc@ == combine_upto(poly_views(polys@), values(w@), n as nat, i as nat),
        decreases polys.len() - i,
    {
        acc = acc.add(&polys[i].scale(&w[i]));
        i = i + 1;
    }
    acc
}

/// Makes a proof, and wipes the witness and the blinding scalars whether or
/// not a proof could be made. No proof is made for a witness that does not
/// satisfy every constraint of the circuit.
pub fn prove(pk: &ProvingKey, witness: &mut Vec<Scalar>, blinding: &mut Blinding) -> (r: Result<
    Proof,
    Groth16Error,
>)
    ensures
        final(witness)@.len() == old(witness)@.len(),
        all_zero(values(final(witness)@)),
        final(blinding).r@ == 0 && final(blinding).s@ == 0,
        !proving_key_fits(pk@) ==> r == Err::<Proof, Groth16Error>(
            Groth16Error::SerializationError,
        ),
        proving_key_fits(pk@) && !satisfied(pk@.circuit, values(old(witness)@)) ==> r == Err::<
            Proof,
            Groth16Error,
        >(Groth16Error::ConstraintUnsatisfied),
        proving_key_fits(pk@) && satisfied(pk@.circuit, values(old(witness)@)) ==> r is Ok
            && r->Ok_0@ == expected_proof(
            pk@,
            values(old(witness)@),
            old(blinding).r@,
            old(blinding).s@,
        ),
{
    let result = build_proof(pk, witness, &blinding.r, &blinding.s);
    wipe_scalars(witness);
    blinding.r.clear();
    blinding.s.clear();
    result
}

/// Whether the lists of a proving key have the lengths that its circuit asks for.
fn key_fits(pk: &ProvingKey) -> (r: bool)
    ensures
        r == proving_key_fits(pk@),
{
    let m = pk.circuit.variable_count();
    let public = pk.circuit.public_input_count();
    let n = pk.circuit.constraint_count();
    let h = if n == 0 {
        0
    } else {
        n - 1
    };
    public <= m && pk.a_query.len() == m && pk.b_g1_query.len() == m && pk.b_g2_query.len() == m
        && pk.l_query.len() == m - public && pk.h_query.len() == h
}

/// Makes a proof.
fn build_proof(pk: &ProvingKey, witness: &Vec<Scalar>, r: &Scalar, s: &Scalar) -> (result: Result<
    Proof,
    Groth16Error,
>)
    ensures
        !proving_key_fits(pk@) ==> result == Err::<Proof, Groth16Error>(
            Groth16Error::SerializationError,
        ),
        proving_key_fits(pk@) && !satisfied(pk@.circuit, values(witness@)) ==> result == Err::<
            Proof,
            Groth16Error,
        >(Groth16Error::ConstraintUnsatisfied),
        proving_key_fits(pk@) && satisfied(pk@.circuit, values(witness@)) ==> result is Ok
            && result->Ok_0@ == expected_proof(pk@, values(witness@), r@, s@),
{
    if !key_fits(pk) {
        return Err(Groth16Error::SerializationError);
    }
    if !pk.circuit.is_satisfied(witness) {
        return Err(Groth16Error::ConstraintUnsatisfied);
    }
    let ghost c = pk@.circuit;
    let ghost w = values(witness@);
    let ghost q = qap_of(c);
    let n = pk.circuit.constraint_count();
    let m = pk.circuit.variable_count();
    let public = pk.circuit.public_input_count();
    proof {
        use_type_invariant(&pk.circuit);
    }
    let h = quotient(&Qap::from_circuit(&pk.circuit), witness, n, Ghost(c));
    proof {
        assert(w.subrange(0, m as int) =~= w);
        assert(h@.subrange(0, h@.len() as int) =~= h@);
        assert(values(h.coeffs@) == h@);
    }
    let a = pk.alpha_g1.add(&g1_multi_scalar_mul(witness, 0, &pk.a_query)).add(&pk.delta_g1.mul(r));
    let b = pk.beta_g2.add(&g2_multi_scalar_mul(witness, 0, &pk.b_g2_query)).add(
        &pk.delta_g2.mul(s),
    );
    let b1 = pk.beta_g1.add(&g1_multi_scalar_mul(witness, 0, &pk.b_g1_query)).add(
        &pk.delta_g1.mul(s),
    );
    let private_part = g1_multi_scalar_mul(witness, public, &pk.l_query);
    let quotient_part = g1_multi_scalar_mul(&h.coeffs, 0, &pk.h_query);
    let cross = pk.delta_g1.mul(&r.mul(s).neg());
    let c_point = private_part.add(&quotient_part).add(&a.mul(s)).add(&b1.mul(r)).add(&cross);
    Ok(Proof { a, b, c: c_point })
}

/// The quotient of the witness polynomial by the target polynomial.
fn quotient(qap: &Qap, witness: &Vec<Scalar>, n: usize, Ghost(c): Ghost<CircuitView>) -> (h:
    Polynomial)
    requires
        well_formed(c),
        qap@ == qap_of(c),
        n == c.constraints.len(),
        witness@.len() == c.variable_count,
    ensures
        h@ == quotient_polynomial(c, values(witness@)),
        h@.len() == quotient_len(n as nat),
{
    let ghost w = values(witness@);
    proof {
        assert(poly_views(qap.a@).len() == qap.a@.len());
        assert(poly_views(qap.b@).len() == qap.b@.len());
        assert(poly_views(qap.c@).len() == qap.c@.len());
        lemma_quotient_len(c, w);
    }
    let a = linear_combination(&qap.a, witness, n);
    let b = linear_combination(&qap.b, witness, n);
    let cc = linear_combination(&qap.c, witness, n);
    let mut h = a.mul(&b).sub(&cc);
    let ghost p = h@;
    let mut k: usize = 0;
    while k < n
        invariant
            k <= n,
            n <= MAX_DOMAIN_SIZE,
            h@ == divide_by_domain(p, k as nat),
        decreases n - k,
    {
        h = h.div_linear(&point_of(k));
        k = k + 1;
    }
    h
}

} // verus!
