//! The verifier: one pairing equation over a verifying key, a proof and the public inputs.

use crate::curve::{
    g1_msm, g1_multi_scalar_mul, g1_views, g2_views, pairing, pairing_product,
    pairing_product_value, G1Point, G2Point,
};
use crate::field::{values, Scalar};
use crate::keys::{Proof, ProofView, VerifyingKey, VerifyingKeyView};
use vstd::prelude::*;

verus! {

/// The point that stands for the public inputs: the sum of the key's points
/// for the public inputs, each taken as many times as its input says.
pub open spec fn input_commitment(vk: VerifyingKeyView, inputs: Seq<nat>) -> Seq<u8> {
    g1_msm(inputs, vk.ic)
}

/// Whether a proof is accepted: there is one input for each public wire, and
/// the pairing of `A` with `B` equals the product of the pairings of `alpha`
/// with `beta`, of the inputs' point with `gamma`, and of `C` with `delta`.
pub open spec fn accepts(vk: VerifyingKeyView, proof: ProofView, inputs: Seq<nat>) -> bool {
    &&& inputs.len() == vk.ic.len()
    &&& pairing_product_value(seq![proof.a], seq![proof.b]) == pairing_product_value(
        seq![vk.alpha_g1, input_commitment(vk, inputs), proof.c],
        seq![vk.beta_g2, vk.gamma_g2, vk.delta_g2],
    )
}

/// Checks a proof against a verifying key and the public inputs. A proof
/// that does not hold is rejected with `false`; that is no failure.
pub fn verify(vk: &VerifyingKey, proof: &Proof, public_inputs: &Vec<Scalar>) -> (r: bool)
    ensures
        r == accepts(vk@, proof@, values(public_inputs@)),
{
    if public_inputs.len() != vk.ic.len() {
        return false;
    }
    let commitment = g1_multi_scalar_mul(public_inputs, 0, &vk.ic);
    proof {
        let inputs = values(public_inputs@);
        assert(inputs.subrange(0, inputs.len() as int) =~= inputs);
    }
    let left = pairing(&proof.a, &proof.b);
    let mut pairs: Vec<(G1Point, G2Point)> = Vec::new();
    pairs.push((vk.alpha_g1, vk.beta_g2));
    pairs.push((commitment, vk.gamma_g2));
    pairs.push((proof.c, vk.delta_g2));
    proof {
        assert(g1_views(pairs@) =~= seq![vk@.alpha_g1, commitment@, proof@.c]);
        assert(g2_views(pairs@) =~= seq![vk@.beta_g2, vk@.gamma_g2, vk@.delta_g2]);
    }
    let right = pairing_product(&pairs);
    left.equals(&right)
}

} // verus!
