//! What the verifier can tell apart, in groups whose pairing is faithful.
//!
//! Completeness needs of the groups only that equal numbers give equal
//! elements. To reject anything the verifier needs the converse: that the
//! generator taken different numbers of times gives different elements, and
//! that products of pairings differ where the sums of the products of those
//! numbers differ. Like the laws of a pairing this cannot be proved of groups
//! that are not the library's own; it is stated as `generators_are_faithful`
//! and `pairing_is_faithful`, and the theorems hold where those do.

use crate::algebra::{
    congruent, lemma_add_as_int, lemma_congruent_sub, lemma_field_mul_congruent,
    lemma_field_sub_congruent, lemma_mul_as_int, lemma_sub_as_int,
};
use crate::boundary::{key_generation, waste_of_seed};
use crate::completeness::{
    g1_powers, g2_powers, lemma_g1_msm_in_the_exponent, lemma_sums_as_equation,
    lemma_proof_in_the_exponent, pairing_laws,
};
use crate::curve::{g1_of, g2_of, pairing_product_value};
use crate::divisibility::{lemma_field_sub_zero, lemma_weighted_sum_reduced, weighted_sum};
use crate::exponents::{
    completeness_in_the_exponent, input_exponent, input_scalars, proof_exponents,
};
use crate::field::{field_add, field_inv, field_mul, field_sub, is_inverse, modulus};
use crate::hex::lemma_hex_round_trip;
use crate::interpolation::lemma_cancel;
use crate::keys::{ProofView, VerifyingKeyView};
use crate::prover::expected_proof;
use crate::r1cs::{satisfied, well_formed, CircuitView};
use crate::records::verifying_key_encoding;
use crate::setup::{expected_proving_key, expected_verifying_key, ToxicWasteView};
use crate::verification::{accepts, input_commitment};
use vstd::arithmetic::div_mod::{lemma_mod_bound, lemma_small_mod};
use vstd::prelude::*;

verus! {

/// The generators are faithful: taken different numbers of times, below the
/// order of the groups, they give different elements.
pub open spec fn generators_are_faithful() -> bool {
    &&& forall|a: nat, b: nat|
        #![trigger g1_of(a), g1_of(b)]
        a < modulus() && b < modulus() && g1_of(a) == g1_of(b) ==> a == b
    &&& forall|a: nat, b: nat|
        #![trigger g2_of(a), g2_of(b)]
        a < modulus() && b < modulus() && g2_of(a) == g2_of(b) ==> a == b
}

/// The pairing is faithful: products of pairings are equal only where the
/// sums of the products of the numbers behind the paired elements are.
pub open spec fn pairing_is_faithful() -> bool {
    forall|a: Seq<nat>, b: Seq<nat>, c: Seq<nat>, d: Seq<nat>|
        #![trigger
            pairing_product_value(g1_powers(a), g2_powers(b)),
            pairing_product_value(g1_powers(c), g2_powers(d))
        ]
        a.len() == b.len() && c.len() == d.len() && pairing_product_value(
            g1_powers(a),
            g2_powers(b),
        ) == pairing_product_value(g1_powers(c), g2_powers(d)) ==> weighted_sum(a, b, a.len())
            == weighted_sum(c, d, c.len())
}

/// Two sums of three products that differ only in one factor of the middle
/// product are equal exactly when that factor is the same, where the other
/// factor of the middle product has an inverse.
proof fn lemma_middle_term(al: nat, be: nat, ga: nat, de: nat, c: nat, x: nat, y: nat)
    requires
        is_inverse(ga, field_inv(ga)),
        x < modulus(),
        y < modulus(),
    ensures
        weighted_sum(seq![al, x, c], seq![be, ga, de], 3) == weighted_sum(
            seq![al, y, c],
            seq![be, ga, de],
            3,
        ) <==> x == y,
{
    let with_x = seq![al, x, c];
    let with_y = seq![al, y, c];
    let others = seq![be, ga, de];
    reveal_with_fuel(weighted_sum, 4);
    let first = field_add(0, field_mul(be, al));
    let last = field_mul(de, c);
    assert(weighted_sum(with_x, others, 3) == field_add(
        field_add(first, field_mul(ga, x)),
        last,
    ));
    assert(weighted_sum(with_y, others, 3) == field_add(
        field_add(first, field_mul(ga, y)),
        last,
    ));
    if weighted_sum(with_x, others, 3) == weighted_sum(with_y, others, 3) {
        // first + ga x + last and first + ga y + last are congruent, so ga (x - y) is zero
        let (gi, xi, yi) = (ga as int, x as int, y as int);
        lemma_mul_as_int(ga, x, gi, xi);
        lemma_mul_as_int(ga, y, gi, yi);
        lemma_add_as_int(first, field_mul(ga, x), first as int, gi * xi);
        lemma_add_as_int(first, field_mul(ga, y), first as int, gi * yi);
        lemma_add_as_int(
            field_add(first, field_mul(ga, x)),
            last,
            first as int + gi * xi,
            last as int,
        );
        lemma_add_as_int(
            field_add(first, field_mul(ga, y)),
            last,
            first as int + gi * yi,
            last as int,
        );
        lemma_congruent_sub(
            first as int + gi * xi + last as int,
            first as int + gi * yi + last as int,
            first as int + last as int,
            first as int + last as int,
        );
        assert(congruent(gi * xi, gi * yi));
        lemma_congruent_sub(gi * xi, gi * yi, gi * yi, gi * yi);
        let difference = field_sub(x, y);
        lemma_sub_as_int(x, y, xi, yi);
        lemma_mul_as_int(difference, ga, xi - yi, gi);
        assert((xi - yi) * gi == gi * xi - gi * yi) by (nonlinear_arith);
        lemma_field_mul_congruent(difference, ga);
        lemma_small_mod(0, modulus());
        assert(field_mul(difference, ga) == 0);
        lemma_field_sub_congruent(x, y);
        lemma_cancel(difference, ga, field_inv(ga));
        lemma_field_sub_zero(x, y);
    }
}

/// The point that stands for any public inputs is the generator taken as
/// many times as the number behind the inputs says.
proof fn lemma_commitment_in_the_exponent(c: CircuitView, t: ToxicWasteView, inputs: Seq<nat>)
    requires
        pairing_laws(),
        inputs.len() == c.public_input_count,
    ensures
        input_commitment(expected_verifying_key(c, t), inputs) == g1_of(
            input_exponent(c, t, inputs),
        ),
{
    let vk = expected_verifying_key(c, t);
    assert(vk.ic =~= g1_powers(input_scalars(c, t)));
    lemma_g1_msm_in_the_exponent(inputs, input_scalars(c, t), c.public_input_count);
}

/// The verifier's equation is an equation between two products of pairings
/// of generators, where the elements that it pairs are generators taken as
/// many times as the numbers `a`, `b`, `alpha`, and so on say.
proof fn lemma_equation_of_generators(
    vk: VerifyingKeyView,
    proof: ProofView,
    inputs: Seq<nat>,
    a: nat,
    b: nat,
    c: nat,
    ic: nat,
    t: ToxicWasteView,
)
    requires
        inputs.len() == vk.ic.len(),
        proof.a == g1_of(a),
        proof.b == g2_of(b),
        proof.c == g1_of(c),
        vk.alpha_g1 == g1_of(t.alpha),
        vk.beta_g2 == g2_of(t.beta),
        vk.gamma_g2 == g2_of(t.gamma),
        vk.delta_g2 == g2_of(t.delta),
        input_commitment(vk, inputs) == g1_of(ic),
    ensures
        accepts(vk, proof, inputs) <==> pairing_product_value(
            g1_powers(seq![a]),
            g2_powers(seq![b]),
        ) == pairing_product_value(
            g1_powers(seq![t.alpha, ic, c]),
            g2_powers(seq![t.beta, t.gamma, t.delta]),
        ),
{
    assert(g1_powers(seq![a]) =~= seq![proof.a]);
    assert(g2_powers(seq![b]) =~= seq![proof.b]);
    assert(g1_powers(seq![t.alpha, ic, c]) =~= seq![
        vk.alpha_g1,
        input_commitment(vk, inputs),
        proof.c,
    ]);
    assert(g2_powers(seq![t.beta, t.gamma, t.delta]) =~= seq![
        vk.beta_g2,
        vk.gamma_g2,
        vk.delta_g2,
    ]);
}

/// The sum of products behind the left side of the verifier's equation is
/// the sum behind its right side exactly when the inputs give the same
/// number behind their point as the witness's own public inputs.
proof fn lemma_sums_agree(
    c: CircuitView,
    t: ToxicWasteView,
    w: Seq<nat>,
    r: nat,
    s: nat,
    inputs: Seq<nat>,
)
    requires
        well_formed(c),
        satisfied(c, w),
        is_inverse(t.gamma, field_inv(t.gamma)),
        is_inverse(t.delta, field_inv(t.delta)),
        inputs.len() == c.public_input_count,
    ensures
        weighted_sum(
            seq![proof_exponents(c, t, w, r, s).a],
            seq![proof_exponents(c, t, w, r, s).b],
            1,
        ) == weighted_sum(
            seq![t.alpha, input_exponent(c, t, inputs), proof_exponents(c, t, w, r, s).c],
            seq![t.beta, t.gamma, t.delta],
            3,
        ) <==> input_exponent(c, t, inputs) == input_exponent(
            c,
            t,
            w.subrange(0, c.public_input_count as int),
        ),
{
    let public = c.public_input_count;
    let e = proof_exponents(c, t, w, r, s);
    let own = input_exponent(c, t, w.subrange(0, public as int));
    let other = input_exponent(c, t, inputs);
    completeness_in_the_exponent(c, t, w, r, s);
    lemma_sums_as_equation(e.a, e.b, t.alpha, t.beta, own, t.gamma, e.c, t.delta);
    lemma_weighted_sum_reduced(input_scalars(c, t), inputs, public);
    lemma_weighted_sum_reduced(input_scalars(c, t), w.subrange(0, public as int), public);
    lemma_middle_term(t.alpha, t.beta, t.gamma, t.delta, e.c, other, own);
}

/// Tamper detection: where the pairing keeps its laws and is faithful, the
/// proof of a satisfying witness is accepted with other public inputs
/// exactly when those give the same number behind the inputs' point as the
/// witness's own. For inputs that differ from the witness's, that is one
/// linear equation in numbers that the secret scalars fix, which few secret
/// scalars solve.
pub proof fn tampering_is_detected(
    c: CircuitView,
    t: ToxicWasteView,
    w: Seq<nat>,
    r: nat,
    s: nat,
    inputs: Seq<nat>,
)
    requires
        pairing_laws(),
        pairing_is_faithful(),
        well_formed(c),
        satisfied(c, w),
        is_inverse(t.gamma, field_inv(t.gamma)),
        is_inverse(t.delta, field_inv(t.delta)),
        inputs.len() == c.public_input_count,
    ensures
        accepts(
            expected_verifying_key(c, t),
            expected_proof(expected_proving_key(c, t), w, r, s),
            inputs,
        ) <==> input_exponent(c, t, inputs) == input_exponent(
            c,
            t,
            w.subrange(0, c.public_input_count as int),
        ),
{
    let e = proof_exponents(c, t, w, r, s);
    let ic = input_exponent(c, t, inputs);
    lemma_proof_in_the_exponent(c, t, w, r, s);
    lemma_commitment_in_the_exponent(c, t, inputs);
    lemma_equation_of_generators(
        expected_verifying_key(c, t),
        expected_proof(expected_proving_key(c, t), w, r, s),
        inputs,
        e.a,
        e.b,
        e.c,
        ic,
        t,
    );
    lemma_sums_agree(c, t, w, r, s, inputs);
    // by the laws and their converse, the products of pairings are equal
    // exactly when the sums of products behind them are
    let left_1 = seq![e.a];
    let left_2 = seq![e.b];
    let right_1 = seq![t.alpha, ic, e.c];
    let right_2 = seq![t.beta, t.gamma, t.delta];
    assert(pairing_product_value(g1_powers(left_1), g2_powers(left_2)) == pairing_product_value(
        g1_powers(right_1),
        g2_powers(right_2),
    ) <==> weighted_sum(left_1, left_2, 1) == weighted_sum(right_1, right_2, 3));
}

/// No carrying over: where the pairing keeps its laws and is faithful, the
/// proof made with the proving key of one setup is accepted with the
/// verifying key of a setup of the same circuit, the same or another,
/// exactly when the verifier's equation holds of the numbers behind the
/// proof and the number behind the inputs under the key's secret scalars.
/// Under the proof's own setup a satisfying witness makes it hold; under
/// other secret scalars it is an equation that few of them solve.
pub proof fn acceptance_is_an_equation(
    c: CircuitView,
    made_under: ToxicWasteView,
    checked_under: ToxicWasteView,
    w: Seq<nat>,
    r: nat,
    s: nat,
    inputs: Seq<nat>,
)
    requires
        pairing_laws(),
        pairing_is_faithful(),
        well_formed(c),
        w.len() == c.variable_count,
        inputs.len() == c.public_input_count,
    ensures
        accepts(
            expected_verifying_key(c, checked_under),
            expected_proof(expected_proving_key(c, made_under), w, r, s),
            inputs,
        ) <==> field_mul(
            proof_exponents(c, made_under, w, r, s).a,
            proof_exponents(c, made_under, w, r, s).b,
        ) == field_add(
            field_add(
                field_mul(checked_under.alpha, checked_under.beta),
                field_mul(input_exponent(c, checked_under, inputs), checked_under.gamma),
            ),
            field_mul(proof_exponents(c, made_under, w, r, s).c, checked_under.delta),
        ),
{
    let e = proof_exponents(c, made_under, w, r, s);
    let ic = input_exponent(c, checked_under, inputs);
    let t = checked_under;
    lemma_proof_in_the_exponent(c, made_under, w, r, s);
    lemma_commitment_in_the_exponent(c, t, inputs);
    lemma_equation_of_generators(
        expected_verifying_key(c, t),
        expected_proof(expected_proving_key(c, made_under), w, r, s),
        inputs,
        e.a,
        e.b,
        e.c,
        ic,
        t,
    );
    lemma_sums_as_equation(e.a, e.b, t.alpha, t.beta, ic, t.gamma, e.c, t.delta);
    let left_1 = seq![e.a];
    let left_2 = seq![e.b];
    let right_1 = seq![t.alpha, ic, e.c];
    let right_2 = seq![t.beta, t.gamma, t.delta];
    assert(pairing_product_value(g1_powers(left_1), g2_powers(left_2)) == pairing_product_value(
        g1_powers(right_1),
        g2_powers(right_2),
    ) <==> weighted_sum(left_1, left_2, 1) == weighted_sum(right_1, right_2, 3));
}

/// Independence: where the generators are faithful, two setups of one
/// circuit whose scalars `alpha`, `beta`, `gamma` or `delta` differ give
/// different verifying keys.
pub proof fn different_secrets_give_different_keys(
    c: CircuitView,
    first: ToxicWasteView,
    second: ToxicWasteView,
)
    requires
        generators_are_faithful(),
        first.alpha < modulus() && first.beta < modulus() && first.gamma < modulus()
            && first.delta < modulus(),
        second.alpha < modulus() && second.beta < modulus() && second.gamma < modulus()
            && second.delta < modulus(),
        first.alpha != second.alpha || first.beta != second.beta || first.gamma != second.gamma
            || first.delta != second.delta,
    ensures
        expected_verifying_key(c, first) != expected_verifying_key(c, second),
{
    let one = expected_verifying_key(c, first);
    let two = expected_verifying_key(c, second);
    if one == two {
        assert(g1_of(first.alpha) == g1_of(second.alpha));
        assert(g2_of(first.beta) == g2_of(second.beta));
        assert(g2_of(first.gamma) == g2_of(second.gamma));
        assert(g2_of(first.delta) == g2_of(second.delta));
    }
}

/// Independence at the boundary: where the generators are faithful, two
/// seeds that give keys and give different scalars `alpha`, `beta`, `gamma`
/// or `delta` give different records of the verifying key.
pub proof fn different_seeds_give_different_keys(c: CircuitView, first: Seq<u8>, second: Seq<u8>)
    requires
        generators_are_faithful(),
        key_generation(c, first) is Ok,
        key_generation(c, second) is Ok,
        waste_of_seed(first).alpha != waste_of_seed(second).alpha || waste_of_seed(first).beta
            != waste_of_seed(second).beta || waste_of_seed(first).gamma != waste_of_seed(
            second,
        ).gamma || waste_of_seed(first).delta != waste_of_seed(second).delta,
    ensures
        key_generation(c, first)->Ok_0.verifying_key != key_generation(
            c,
            second,
        )->Ok_0.verifying_key,
{
    let one = waste_of_seed(first);
    let two = waste_of_seed(second);
    let m = modulus() as int;
    assert(one.alpha < modulus() && one.beta < modulus() && one.gamma < modulus() && one.delta
        < modulus() && two.alpha < modulus() && two.beta < modulus() && two.gamma < modulus()
        && two.delta < modulus()) by {
        lemma_mod_bound(0, m);
    }
    different_secrets_give_different_keys(c, one, two);
    let key_one = expected_verifying_key(c, one);
    let key_two = expected_verifying_key(c, two);
    if verifying_key_encoding(key_one) == verifying_key_encoding(key_two) {
        // strings that are equal were written from bytes that are equal
        lemma_hex_round_trip(key_one.alpha_g1);
        lemma_hex_round_trip(key_two.alpha_g1);
        lemma_hex_round_trip(key_one.beta_g2);
        lemma_hex_round_trip(key_two.beta_g2);
        lemma_hex_round_trip(key_one.gamma_g2);
        lemma_hex_round_trip(key_two.gamma_g2);
        lemma_hex_round_trip(key_one.delta_g2);
        lemma_hex_round_trip(key_two.delta_g2);
        assert(g1_of(one.alpha) == g1_of(two.alpha));
        assert(g2_of(one.beta) == g2_of(two.beta));
        assert(g2_of(one.gamma) == g2_of(two.gamma));
        assert(g2_of(one.delta) == g2_of(two.delta));
    }
}

} // verus!
