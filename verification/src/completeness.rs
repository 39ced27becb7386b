//! Completeness: the proof of a witness that satisfies the circuit is
//! accepted, in any groups that keep the laws of a pairing.
//!
//! The groups and the pairing are not this library's own, so their laws
//! cannot be proved here. They are stated as `pairing_laws`, and the theorems
//! hold where they do: that the generator taken any number of times is a
//! point of its group, that the generator taken `a` times plus the generator
//! taken `b` times is the generator taken `a + b` times, that taking `k`
//! times what is the generator taken `a` times gives the generator taken
//! `k * a` times, and that a product of pairings depends only on the sum of
//! the products of the numbers of times that the paired elements hold their
//! generators.

use crate::algebra::lemma_field_mul_congruent;
use crate::boundary::{
    key_generation, proof_creation, seed_scalar, verification, waste_of_seed, PROOF_SEED_BYTES,
    SETUP_SEED_BYTES,
};
use crate::codec::scalars_decoding;
use crate::curve::{
    g1_msm_upto, g1_multiple, g1_of, g1_sum, g2_msm_upto, g2_multiple, g2_of, g2_sum, is_g1, is_g2,
    pairing_product_value,
};
use crate::divisibility::{evaluations, weighted_sum};
use crate::error::Failure;
use crate::exponents::{
    completeness_in_the_exponent, input_exponent, input_scalars, private_scalars, proof_exponents,
    quotient_scalars,
};
use crate::field::{
    field_add, field_inv, field_mul, field_neg, is_inverse, lemma_field_mul_commutes, modulus,
};
use crate::keys::{quotient_len, ProvingKeyView};
use crate::poly::lemma_field_mul_zero;
use crate::prover::{expected_proof, lemma_quotient_len, quotient_polynomial};
use crate::qap::qap_of;
use crate::r1cs::{coefficients_reduced, satisfied, well_formed, CircuitView};
use crate::records::{
    proof_round_trip, proving_key_decoding, proving_key_round_trip, verifying_key_round_trip,
};
use crate::setup::{expected_proving_key, expected_verifying_key, ToxicWasteView};
use crate::verification::{accepts, input_commitment};
use vstd::arithmetic::div_mod::lemma_small_mod;
use vstd::prelude::*;

verus! {

/// The generator of G1 taken as many times as each number says.
pub open spec fn g1_powers(exponents: Seq<nat>) -> Seq<Seq<u8>> {
    Seq::new(exponents.len(), |i: int| g1_of(exponents[i]))
}

/// The generator of G2 taken as many times as each number says.
pub open spec fn g2_powers(exponents: Seq<nat>) -> Seq<Seq<u8>> {
    Seq::new(exponents.len(), |i: int| g2_of(exponents[i]))
}

/// The laws of a pairing, as far as the protocol rests on them.
pub open spec fn pairing_laws() -> bool {
    &&& forall|a: nat| is_g1(#[trigger] g1_of(a))
    &&& forall|a: nat| is_g2(#[trigger] g2_of(a))
    &&& forall|a: nat, b: nat| #[trigger] g1_sum(g1_of(a), g1_of(b)) == g1_of(field_add(a, b))
    &&& forall|k: nat, a: nat| #[trigger] g1_multiple(k, g1_of(a)) == g1_of(field_mul(k, a))
    &&& forall|a: nat, b: nat| #[trigger] g2_sum(g2_of(a), g2_of(b)) == g2_of(field_add(a, b))
    &&& forall|k: nat, a: nat| #[trigger] g2_multiple(k, g2_of(a)) == g2_of(field_mul(k, a))
    &&& forall|a: Seq<nat>, b: Seq<nat>, c: Seq<nat>, d: Seq<nat>|
        #![trigger
            pairing_product_value(g1_powers(a), g2_powers(b)),
            pairing_product_value(g1_powers(c), g2_powers(d))
        ]
        a.len() == b.len() && c.len() == d.len() && weighted_sum(a, b, a.len()) == weighted_sum(
            c,
            d,
            c.len(),
        ) ==> pairing_product_value(g1_powers(a), g2_powers(b)) == pairing_product_value(
            g1_powers(c),
            g2_powers(d),
        )
}

/// A sum of elements of G1, each the generator taken some number of times
/// and each taken as many times as a scalar says, is the generator taken as
/// many times as the sum of the products says.
pub proof fn lemma_g1_msm_in_the_exponent(scalars: Seq<nat>, exponents: Seq<nat>, k: nat)
    requires
        pairing_laws(),
        k <= exponents.len(),
    ensures
        g1_msm_upto(scalars, g1_powers(exponents), k) == g1_of(weighted_sum(exponents, scalars, k)),
    decreases k,
{
    if k > 0 {
        lemma_g1_msm_in_the_exponent(scalars, exponents, (k - 1) as nat);
        let before = weighted_sum(exponents, scalars, (k - 1) as nat);
        assert(g1_powers(exponents)[k - 1] == g1_of(exponents[k - 1]));
        assert(g1_multiple(scalars[k - 1], g1_of(exponents[k - 1])) == g1_of(
            field_mul(scalars[k - 1], exponents[k - 1]),
        ));
        assert(g1_sum(g1_of(before), g1_of(field_mul(scalars[k - 1], exponents[k - 1]))) == g1_of(
            field_add(before, field_mul(scalars[k - 1], exponents[k - 1])),
        ));
    }
}

/// A sum of elements of G2, each the generator taken some number of times
/// and each taken as many times as a scalar says, is the generator taken as
/// many times as the sum of the products says.
pub proof fn lemma_g2_msm_in_the_exponent(scalars: Seq<nat>, exponents: Seq<nat>, k: nat)
    requires
        pairing_laws(),
        k <= exponents.len(),
    ensures
        g2_msm_upto(scalars, g2_powers(exponents), k) == g2_of(weighted_sum(exponents, scalars, k)),
    decreases k,
{
    if k > 0 {
        lemma_g2_msm_in_the_exponent(scalars, exponents, (k - 1) as nat);
        let before = weighted_sum(exponents, scalars, (k - 1) as nat);
        assert(g2_powers(exponents)[k - 1] == g2_of(exponents[k - 1]));
        assert(g2_multiple(scalars[k - 1], g2_of(exponents[k - 1])) == g2_of(
            field_mul(scalars[k - 1], exponents[k - 1]),
        ));
        assert(g2_sum(g2_of(before), g2_of(field_mul(scalars[k - 1], exponents[k - 1]))) == g2_of(
            field_add(before, field_mul(scalars[k - 1], exponents[k - 1])),
        ));
    }
}

/// The proof that the prover makes with the keys of a setup holds the
/// generators taken as many times as the proof's exponents say.
pub proof fn lemma_proof_in_the_exponent(
    c: CircuitView,
    t: ToxicWasteView,
    w: Seq<nat>,
    r: nat,
    s: nat,
)
    requires
        pairing_laws(),
        well_formed(c),
        w.len() == c.variable_count,
    ensures
        expected_proof(expected_proving_key(c, t), w, r, s).a == g1_of(
            proof_exponents(c, t, w, r, s).a,
        ),
        expected_proof(expected_proving_key(c, t), w, r, s).b == g2_of(
            proof_exponents(c, t, w, r, s).b,
        ),
        expected_proof(expected_proving_key(c, t), w, r, s).c == g1_of(
            proof_exponents(c, t, w, r, s).c,
        ),
{
    let q = qap_of(c);
    let pk = expected_proving_key(c, t);
    let m = c.variable_count;
    let public = c.public_input_count;
    let n = c.constraints.len();
    let e = proof_exponents(c, t, w, r, s);
    let h = quotient_polynomial(c, w);
    let va = evaluations(q.a, t.tau);
    let vb = evaluations(q.b, t.tau);
    let private = w.subrange(public as int, m as int);
    assert(pk.a_query =~= g1_powers(va));
    assert(pk.b_g1_query =~= g1_powers(vb));
    assert(pk.b_g2_query =~= g2_powers(vb));
    assert(pk.l_query =~= g1_powers(private_scalars(c, t)));
    assert(pk.h_query =~= g1_powers(quotient_scalars(c, t)));
    lemma_g1_msm_in_the_exponent(w, va, m);
    lemma_g1_msm_in_the_exponent(w, vb, m);
    lemma_g2_msm_in_the_exponent(w, vb, m);
    lemma_g1_msm_in_the_exponent(private, private_scalars(c, t), (m - public) as nat);
    lemma_quotient_len(c, w);
    lemma_g1_msm_in_the_exponent(h, quotient_scalars(c, t), quotient_len(n));
    let sa = weighted_sum(va, w, m);
    let sb = weighted_sum(vb, w, m);
    // A and B
    assert(g1_sum(g1_of(t.alpha), g1_of(sa)) == g1_of(field_add(t.alpha, sa)));
    assert(g1_multiple(r, g1_of(t.delta)) == g1_of(field_mul(r, t.delta)));
    assert(g1_sum(g1_of(field_add(t.alpha, sa)), g1_of(field_mul(r, t.delta))) == g1_of(e.a));
    assert(g2_sum(g2_of(t.beta), g2_of(sb)) == g2_of(field_add(t.beta, sb)));
    assert(g2_multiple(s, g2_of(t.delta)) == g2_of(field_mul(s, t.delta)));
    assert(g2_sum(g2_of(field_add(t.beta, sb)), g2_of(field_mul(s, t.delta))) == g2_of(e.b));
    assert(g1_sum(g1_of(t.beta), g1_of(sb)) == g1_of(field_add(t.beta, sb)));
    assert(g1_multiple(s, g1_of(t.delta)) == g1_of(field_mul(s, t.delta)));
    assert(g1_sum(g1_of(field_add(t.beta, sb)), g1_of(field_mul(s, t.delta))) == g1_of(e.b));
    // C
    let p = weighted_sum(private_scalars(c, t), private, (m - public) as nat);
    let hq = weighted_sum(quotient_scalars(c, t), h, quotient_len(n));
    let cross = field_neg(field_mul(r, s));
    assert(g1_sum(g1_of(p), g1_of(hq)) == g1_of(field_add(p, hq)));
    assert(g1_multiple(s, g1_of(e.a)) == g1_of(field_mul(s, e.a)));
    assert(g1_sum(g1_of(field_add(p, hq)), g1_of(field_mul(s, e.a))) == g1_of(
        field_add(field_add(p, hq), field_mul(s, e.a)),
    ));
    assert(g1_multiple(r, g1_of(e.b)) == g1_of(field_mul(r, e.b)));
    assert(g1_sum(
        g1_of(field_add(field_add(p, hq), field_mul(s, e.a))),
        g1_of(field_mul(r, e.b)),
    ) == g1_of(field_add(field_add(field_add(p, hq), field_mul(s, e.a)), field_mul(r, e.b))));
    assert(g1_multiple(cross, g1_of(t.delta)) == g1_of(field_mul(cross, t.delta)));
    assert(g1_sum(
        g1_of(field_add(field_add(field_add(p, hq), field_mul(s, e.a)), field_mul(r, e.b))),
        g1_of(field_mul(cross, t.delta)),
    ) == g1_of(e.c));
}

/// Completeness: where the groups keep the laws of a pairing, the proof
/// that the prover makes of a witness that satisfies the circuit, with the
/// proving key of a setup, is accepted by the verifier with the verifying
/// key of that setup and the witness's public inputs.
pub proof fn completeness(c: CircuitView, t: ToxicWasteView, w: Seq<nat>, r: nat, s: nat)
    requires
        pairing_laws(),
        well_formed(c),
        satisfied(c, w),
        is_inverse(t.gamma, field_inv(t.gamma)),
        is_inverse(t.delta, field_inv(t.delta)),
    ensures
        accepts(
            expected_verifying_key(c, t),
            expected_proof(expected_proving_key(c, t), w, r, s),
            w.subrange(0, c.public_input_count as int),
        ),
{
    let vk = expected_verifying_key(c, t);
    let proof = expected_proof(expected_proving_key(c, t), w, r, s);
    let public = c.public_input_count;
    let inputs = w.subrange(0, public as int);
    let e = proof_exponents(c, t, w, r, s);
    let ic = input_exponent(c, t, inputs);
    lemma_proof_in_the_exponent(c, t, w, r, s);
    assert(vk.ic =~= g1_powers(input_scalars(c, t)));
    lemma_g1_msm_in_the_exponent(inputs, input_scalars(c, t), public);
    assert(input_commitment(vk, inputs) == g1_of(ic));
    completeness_in_the_exponent(c, t, w, r, s);
    // both sides of the verifier's equation as products of pairings of generators
    let left_1 = seq![e.a];
    let left_2 = seq![e.b];
    let right_1 = seq![t.alpha, ic, e.c];
    let right_2 = seq![t.beta, t.gamma, t.delta];
    assert(g1_powers(left_1) =~= seq![proof.a]);
    assert(g2_powers(left_2) =~= seq![proof.b]);
    assert(g1_powers(right_1) =~= seq![vk.alpha_g1, input_commitment(vk, inputs), proof.c]);
    assert(g2_powers(right_2) =~= seq![vk.beta_g2, vk.gamma_g2, vk.delta_g2]);
    lemma_sums_as_equation(e.a, e.b, t.alpha, t.beta, ic, t.gamma, e.c, t.delta);
    assert(pairing_product_value(g1_powers(left_1), g2_powers(left_2)) == pairing_product_value(
        g1_powers(right_1),
        g2_powers(right_2),
    ));
}

/// The sum of products behind the left side of the verifier's equation is
/// the sum behind its right side exactly when the equation holds of the
/// numbers.
pub proof fn lemma_sums_as_equation(
    a: nat,
    b: nat,
    al: nat,
    be: nat,
    ic: nat,
    ga: nat,
    c: nat,
    de: nat,
)
    ensures
        weighted_sum(seq![a], seq![b], 1) == weighted_sum(seq![al, ic, c], seq![be, ga, de], 3)
            <==> field_mul(a, b) == field_add(
            field_add(field_mul(al, be), field_mul(ic, ga)),
            field_mul(c, de),
        ),
{
    let left_1 = seq![a];
    let left_2 = seq![b];
    let right_1 = seq![al, ic, c];
    let right_2 = seq![be, ga, de];
    reveal_with_fuel(weighted_sum, 4);
    lemma_field_mul_commutes(a, b);
    lemma_field_mul_commutes(al, be);
    lemma_field_mul_commutes(ic, ga);
    lemma_field_mul_commutes(c, de);
    lemma_field_mul_congruent(a, b);
    lemma_field_mul_congruent(al, be);
    lemma_small_mod(field_mul(a, b), modulus());
    lemma_small_mod(field_mul(al, be), modulus());
    assert(weighted_sum(left_1, left_2, 1) == field_add(0, field_mul(b, a)));
    assert(weighted_sum(right_1, right_2, 3) == field_add(
        field_add(field_add(0, field_mul(be, al)), field_mul(ga, ic)),
        field_mul(de, c),
    ));
}

/// Completeness at the boundary: where the groups keep the laws of a
/// pairing, a setup from a seed gives keys, the proving key is read back as
/// it was written, the prover makes a proof of inputs that satisfy the
/// circuit, and the verifier, given the verifying key, that proof and the
/// public inputs, answers `true`.
pub proof fn completeness_at_the_boundary(
    c: CircuitView,
    setup_seed: Seq<u8>,
    public_inputs: Seq<Seq<char>>,
    private_inputs: Seq<Seq<char>>,
    proof_seed: Seq<u8>,
)
    requires
        pairing_laws(),
        well_formed(c),
        coefficients_reduced(c),
        setup_seed.len() == SETUP_SEED_BYTES,
        proof_seed.len() == PROOF_SEED_BYTES,
        is_inverse(waste_of_seed(setup_seed).gamma, field_inv(waste_of_seed(setup_seed).gamma)),
        is_inverse(waste_of_seed(setup_seed).delta, field_inv(waste_of_seed(setup_seed).delta)),
        scalars_decoding(public_inputs) is Ok,
        scalars_decoding(private_inputs) is Ok,
        scalars_decoding(public_inputs)->Ok_0.len() == c.public_input_count,
        satisfied(
            c,
            scalars_decoding(public_inputs)->Ok_0 + scalars_decoding(private_inputs)->Ok_0,
        ),
    ensures
        key_generation(c, setup_seed) is Ok,
        proving_key_decoding(key_generation(c, setup_seed)->Ok_0.proving_key) == Ok::<
            ProvingKeyView,
            Failure,
        >(expected_proving_key(c, waste_of_seed(setup_seed))),
        proof_creation(
            expected_proving_key(c, waste_of_seed(setup_seed)),
            public_inputs,
            private_inputs,
            proof_seed,
        ) is Ok,
        verification(
            key_generation(c, setup_seed)->Ok_0.verifying_key,
            proof_creation(
                expected_proving_key(c, waste_of_seed(setup_seed)),
                public_inputs,
                private_inputs,
                proof_seed,
            )->Ok_0,
            public_inputs,
        ) == Ok::<bool, Failure>(true),
{
    let t = waste_of_seed(setup_seed);
    let pk = expected_proving_key(c, t);
    let vk = expected_verifying_key(c, t);
    let public = scalars_decoding(public_inputs)->Ok_0;
    let private = scalars_decoding(private_inputs)->Ok_0;
    let w = public + private;
    let r = seed_scalar(proof_seed, 0);
    let s = seed_scalar(proof_seed, 1);
    let proof = expected_proof(pk, w, r, s);
    // zero has no inverse, so the seed gives keys
    lemma_field_mul_zero(field_inv(t.gamma));
    lemma_field_mul_zero(field_inv(t.delta));
    // what the setup writes is read back as it was
    proving_key_round_trip(pk);
    verifying_key_round_trip(vk);
    // what the prover writes is read back as it was
    lemma_proof_in_the_exponent(c, t, w, r, s);
    proof_round_trip(proof);
    // and the proof is accepted
    assert(w.subrange(0, c.public_input_count as int) =~= public);
    completeness(c, t, w, r, s);
}

} // verus!
