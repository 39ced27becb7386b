//! The proving key, the verifying key and the proof.

use crate::curve::{g1_point_views, g2_point_views, G1Point, G2Point};
use crate::r1cs::{Circuit, CircuitView};
use vstd::prelude::*;

verus! {

/// What the prover needs of the structured reference string, with the
/// circuit that it was made for.
#[derive(Debug)]
pub struct ProvingKey {
    /// The circuit.
    pub circuit: Circuit,
    /// `alpha` in G1.
    pub alpha_g1: G1Point,
    /// `beta` in G1.
    pub beta_g1: G1Point,
    /// `beta` in G2.
    pub beta_g2: G2Point,
    /// `delta` in G1.
    pub delta_g1: G1Point,
    /// `delta` in G2.
    pub delta_g2: G2Point,
    /// For each wire, the value of its `a` polynomial at `tau`, in G1.
    pub a_query: Vec<G1Point>,
    /// For each wire, the value of its `b` polynomial at `tau`, in G1.
    pub b_g1_query: Vec<G1Point>,
    /// For each wire, the value of its `b` polynomial at `tau`, in G2.
    pub b_g2_query: Vec<G2Point>,
    /// For each private wire, `(beta a + alpha b + c) / delta` at `tau`, in G1.
    pub l_query: Vec<G1Point>,
    /// For each power of `tau` below the domain size less one, that power
    /// times the target polynomial at `tau` over `delta`, in G1.
    pub h_query: Vec<G1Point>,
}

/// A proving key as mathematics sees it.
pub struct ProvingKeyView {
    pub circuit: CircuitView,
    pub alpha_g1: Seq<u8>,
    pub beta_g1: Seq<u8>,
    pub beta_g2: Seq<u8>,
    pub delta_g1: Seq<u8>,
    pub delta_g2: Seq<u8>,
    pub a_query: Seq<Seq<u8>>,
    pub b_g1_query: Seq<Seq<u8>>,
    pub b_g2_query: Seq<Seq<u8>>,
    pub l_query: Seq<Seq<u8>>,
    pub h_query: Seq<Seq<u8>>,
}

impl View for ProvingKey {
    type V = ProvingKeyView;

    open spec fn view(&self) -> ProvingKeyView {
        ProvingKeyView {
            circuit: self.circuit@,
            alpha_g1: self.alpha_g1@,
            beta_g1: self.beta_g1@,
            beta_g2: self.beta_g2@,
            delta_g1: self.delta_g1@,
            delta_g2: self.delta_g2@,
            a_query: g1_point_views(self.a_query@),
            b_g1_query: g1_point_views(self.b_g1_query@),
            b_g2_query: g2_point_views(self.b_g2_query@),
            l_query: g1_point_views(self.l_query@),
            h_query: g1_point_views(self.h_query@),
        }
    }
}

/// The number of powers of `tau` that the quotient polynomial needs for a
/// domain of `n` points.
pub open spec fn quotient_len(n: nat) -> nat {
    if n == 0 {
        0
    } else {
        (n - 1) as nat
    }
}

/// Whether the lists of a proving key have the lengths that its circuit asks for.
pub open spec fn proving_key_fits(pk: ProvingKeyView) -> bool {
    &&& pk.circuit.public_input_count <= pk.circuit.variable_count
    &&& pk.a_query.len() == pk.circuit.variable_count
    &&& pk.b_g1_query.len() == pk.circuit.variable_count
    &&& pk.b_g2_query.len() == pk.circuit.variable_count
    &&& pk.l_query.len() == pk.circuit.variable_count - pk.circuit.public_input_count
    &&& pk.h_query.len() == quotient_len(pk.circuit.constraints.len())
}

/// What the verifier needs of the structured reference string.
#[derive(Clone, Debug)]
pub struct VerifyingKey {
    /// `alpha` in G1.
    pub alpha_g1: G1Point,
    /// `beta` in G2.
    pub beta_g2: G2Point,
    /// `gamma` in G2.
    pub gamma_g2: G2Point,
    /// `delta` in G2.
    pub delta_g2: G2Point,
    /// For each public input, `(beta a + alpha b + c) / gamma` at `tau`, in G1.
    pub ic: Vec<G1Point>,
}

/// A verifying key as mathematics sees it.
pub struct VerifyingKeyView {
    pub alpha_g1: Seq<u8>,
    pub beta_g2: Seq<u8>,
    pub gamma_g2: Seq<u8>,
    pub delta_g2: Seq<u8>,
    pub ic: Seq<Seq<u8>>,
}

impl View for VerifyingKey {
    type V = VerifyingKeyView;

    open spec fn view(&self) -> VerifyingKeyView {
        VerifyingKeyView {
            alpha_g1: self.alpha_g1@,
            beta_g2: self.beta_g2@,
            gamma_g2: self.gamma_g2@,
            delta_g2: self.delta_g2@,
            ic: g1_point_views(self.ic@),
        }
    }
}

/// A proof: three points.
#[derive(Clone, Copy, Debug)]
pub struct Proof {
    /// The element `A`, in G1.
    pub a: G1Point,
    /// The element `B`, in G2.
    pub b: G2Point,
    /// The element `C`, in G1.
    pub c: G1Point,
}

/// A proof as mathematics sees it.
pub struct ProofView {
    pub a: Seq<u8>,
    pub b: Seq<u8>,
    pub c: Seq<u8>,
}

impl View for Proof {
    type V = ProofView;

    open spec fn view(&self) -> ProofView {
        ProofView { a: self.a@, b: self.b@, c: self.c@ }
    }
}

} // verus!
