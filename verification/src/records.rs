//! The records that cross the boundary: circuit parameters, keys and proofs
//! with every number and point as a hexadecimal string.

use crate::codec::{
    decode_g1, decode_g1_list, decode_g2, decode_g2_list, decode_scalar, encode_g1,
    encode_g1_list, encode_g2, encode_g2_list, encode_scalar, g1_decoding, g1_list_decoding,
    g2_decoding, g2_list_decoding, lemma_g1_round_trip, lemma_g2_round_trip,
    lemma_list_decoding_fails_early, lemma_list_round_trip, lemma_scalar_round_trip,
    list_decoding, list_encoding, points_encoding, scalar_decoding, scalar_encoding, strings,
};
use crate::curve::{all_g1, all_g2, is_g1, is_g2};
use crate::error::{outcome, Failure, Groth16Error};
use crate::field::modulus;
use crate::hex::hex_encoding;
use crate::keys::{
    proving_key_fits, Proof, ProofView, ProvingKey, ProvingKeyView, VerifyingKey,
    VerifyingKeyView,
};
use crate::r1cs::{
    coefficients_reduced, constraint_views, constraints_in_range, row_reduced, row_view,
    well_formed, Circuit, CircuitView, Constraint, ConstraintView, Term, MAX_DOMAIN_SIZE,
};
use vstd::prelude::*;

verus! {

/// One entry of a sparse row, with its coefficient as a hexadecimal string.
#[derive(Clone, Debug, PartialEq, Eq)]
pub struct TermParams {
    pub variable: usize,
    pub coefficient: String,
}

/// One constraint, with its coefficients as hexadecimal strings.
#[derive(Clone, Debug, PartialEq, Eq)]
pub struct ConstraintParams {
    pub a: Vec<TermParams>,
    pub b: Vec<TermParams>,
    pub c: Vec<TermParams>,
}

/// A circuit as a host hands it over: the three counts and the constraints.
#[derive(Clone, Debug, PartialEq, Eq)]
pub struct CircuitParams {
    pub constraint_count: usize,
    pub variable_count: usize,
    pub public_input_count: usize,
    pub constraints: Vec<ConstraintParams>,
}

/// A proving key with every point as a hexadecimal string.
#[derive(Clone, Debug, PartialEq, Eq)]
pub struct SerializedProvingKey {
    pub circuit: CircuitParams,
    pub alpha_g1: String,
    pub beta_g1: String,
    pub beta_g2: String,
    pub delta_g1: String,
    pub delta_g2: String,
    pub a_query: Vec<String>,
    pub b_g1_query: Vec<String>,
    pub b_g2_query: Vec<String>,
    pub l_query: Vec<String>,
    pub h_query: Vec<String>,
}

/// A verifying key with every point as a hexadecimal string.
#[derive(Clone, Debug, PartialEq, Eq)]
pub struct SerializedVerifyingKey {
    pub alpha_g1: String,
    pub beta_g2: String,
    pub gamma_g2: String,
    pub delta_g2: String,
    pub ic: Vec<String>,
}

/// A proof with every point as a hexadecimal string.
#[derive(Clone, Debug, PartialEq, Eq)]
pub struct SerializedProof {
    pub a: String,
    pub b: String,
    pub c: String,
}

/// The two keys that a setup gives.
#[derive(Clone, Debug, PartialEq, Eq)]
pub struct KeyPair {
    pub proving_key: SerializedProvingKey,
    pub verifying_key: SerializedVerifyingKey,
}

/// A pair of serialized keys as mathematics sees it.
pub struct KeyPairView {
    pub proving_key: SerializedProvingKeyView,
    pub verifying_key: SerializedVerifyingKeyView,
}

impl View for KeyPair {
    type V = KeyPairView;

    open spec fn view(&self) -> KeyPairView {
        KeyPairView { proving_key: self.proving_key@, verifying_key: self.verifying_key@ }
    }
}

/// A constraint's three rows, each entry a variable and a string.
pub struct ConstraintParamsView {
    pub a: Seq<(nat, Seq<char>)>,
    pub b: Seq<(nat, Seq<char>)>,
    pub c: Seq<(nat, Seq<char>)>,
}

/// Circuit parameters as mathematics sees them.
pub struct CircuitParamsView {
    pub constraint_count: nat,
    pub variable_count: nat,
    pub public_input_count: nat,
    pub constraints: Seq<ConstraintParamsView>,
}

/// A serialized proving key as mathematics sees it.
pub struct SerializedProvingKeyView {
    pub circuit: CircuitParamsView,
    pub alpha_g1: Seq<char>,
    pub beta_g1: Seq<char>,
    pub beta_g2: Seq<char>,
    pub delta_g1: Seq<char>,
    pub delta_g2: Seq<char>,
    pub a_query: Seq<Seq<char>>,
    pub b_g1_query: Seq<Seq<char>>,
    pub b_g2_query: Seq<Seq<char>>,
    pub l_query: Seq<Seq<char>>,
    pub h_query: Seq<Seq<char>>,
}

/// A serialized verifying key as mathematics sees it.
pub struct SerializedVerifyingKeyView {
    pub alpha_g1: Seq<char>,
    pub beta_g2: Seq<char>,
    pub gamma_g2: Seq<char>,
    pub delta_g2: Seq<char>,
    pub ic: Seq<Seq<char>>,
}

/// A serialized proof as mathematics sees it.
pub struct SerializedProofView {
    pub a: Seq<char>,
    pub b: Seq<char>,
    pub c: Seq<char>,
}

/// The entries of a row of parameters.
pub open spec fn row_params_view(row: Seq<TermParams>) -> Seq<(nat, Seq<char>)> {
    Seq::new(row.len(), |i: int| (row[i].variable as nat, row[i].coefficient@))
}

impl View for ConstraintParams {
    type V = ConstraintParamsView;

    open spec fn view(&self) -> ConstraintParamsView {
        ConstraintParamsView {
            a: row_params_view(self.a@),
            b: row_params_view(self.b@),
            c: row_params_view(self.c@),
        }
    }
}

/// The views of a list of constraints' parameters.
pub open spec fn constraint_params_views(cs: Seq<ConstraintParams>) -> Seq<ConstraintParamsView> {
    Seq::new(cs.len(), |i: int| cs[i]@)
}

impl View for CircuitParams {
    type V = CircuitParamsView;

    open spec fn view(&self) -> CircuitParamsView {
        CircuitParamsView {
            constraint_count: self.constraint_count as nat,
            variable_count: self.variable_count as nat,
            public_input_count: self.public_input_count as nat,
            constraints: constraint_params_views(self.constraints@),
        }
    }
}

impl View for SerializedProvingKey {
    type V = SerializedProvingKeyView;

    open spec fn view(&self) -> SerializedProvingKeyView {
        SerializedProvingKeyView {
            circuit: self.circuit@,
            alpha_g1: self.alpha_g1@,
            beta_g1: self.beta_g1@,
            beta_g2: self.beta_g2@,
            delta_g1: self.delta_g1@,
            delta_g2: self.delta_g2@,
            a_query: strings(self.a_query@),
            b_g1_query: strings(self.b_g1_query@),
            b_g2_query: strings(self.b_g2_query@),
            l_query: strings(self.l_query@),
            h_query: strings(self.h_query@),
        }
    }
}

impl View for SerializedVerifyingKey {
    type V = SerializedVerifyingKeyView;

    open spec fn view(&self) -> SerializedVerifyingKeyView {
        SerializedVerifyingKeyView {
            alpha_g1: self.alpha_g1@,
            beta_g2: self.beta_g2@,
            gamma_g2: self.gamma_g2@,
            delta_g2: self.delta_g2@,
            ic: strings(self.ic@),
        }
    }
}

impl View for SerializedProof {
    type V = SerializedProofView;

    open spec fn view(&self) -> SerializedProofView {
        SerializedProofView { a: self.a@, b: self.b@, c: self.c@ }
    }
}

/// What reading a proof gives: its three points, or the first failure among
/// `a`, `b`, `c`.
pub open spec fn proof_decoding(p: SerializedProofView) -> Result<ProofView, Failure> {
    match g1_decoding(p.a) {
        Err(f) => Err(f),
        Ok(a) => match g2_decoding(p.b) {
            Err(f) => Err(f),
            Ok(b) => match g1_decoding(p.c) {
                Err(f) => Err(f),
                Ok(c) => Ok(ProofView { a, b, c }),
            },
        },
    }
}

/// The record written for a proof.
pub open spec fn proof_encoding(p: ProofView) -> SerializedProofView {
    SerializedProofView { a: hex_encoding(p.a), b: hex_encoding(p.b), c: hex_encoding(p.c) }
}

/// What reading a verifying key gives: its points, or the first failure in
/// the order of the fields.
pub open spec fn verifying_key_decoding(k: SerializedVerifyingKeyView) -> Result<
    VerifyingKeyView,
    Failure,
> {
    match g1_decoding(k.alpha_g1) {
        Err(f) => Err(f),
        Ok(alpha_g1) => match g2_decoding(k.beta_g2) {
            Err(f) => Err(f),
            Ok(beta_g2) => match g2_decoding(k.gamma_g2) {
                Err(f) => Err(f),
                Ok(gamma_g2) => match g2_decoding(k.delta_g2) {
                    Err(f) => Err(f),
                    Ok(delta_g2) => match g1_list_decoding(k.ic) {
                        Err(f) => Err(f),
                        Ok(ic) => Ok(
                            VerifyingKeyView { alpha_g1, beta_g2, gamma_g2, delta_g2, ic },
                        ),
                    },
                },
            },
        },
    }
}

/// The record written for a verifying key.
pub open spec fn verifying_key_encoding(k: VerifyingKeyView) -> SerializedVerifyingKeyView {
    SerializedVerifyingKeyView {
        alpha_g1: hex_encoding(k.alpha_g1),
        beta_g2: hex_encoding(k.beta_g2),
        gamma_g2: hex_encoding(k.gamma_g2),
        delta_g2: hex_encoding(k.delta_g2),
        ic: points_encoding(k.ic),
    }
}

/// What reading one entry of a row gives.
pub open spec fn term_decoding(t: (nat, Seq<char>)) -> Result<(nat, nat), Failure> {
    match scalar_decoding(t.1) {
        Err(f) => Err(f),
        Ok(v) => Ok((t.0, v)),
    }
}

/// What reading a row gives.
pub open spec fn row_decoding(row: Seq<(nat, Seq<char>)>) -> Result<Seq<(nat, nat)>, Failure> {
    list_decoding(row, |t: (nat, Seq<char>)| term_decoding(t))
}

/// What reading a constraint gives: its rows, or the first failure among `a`, `b`, `c`.
pub open spec fn constraint_decoding(c: ConstraintParamsView) -> Result<ConstraintView, Failure> {
    match row_decoding(c.a) {
        Err(f) => Err(f),
        Ok(a) => match row_decoding(c.b) {
            Err(f) => Err(f),
            Ok(b) => match row_decoding(c.c) {
                Err(f) => Err(f),
                Ok(c) => Ok(ConstraintView { a, b, c }),
            },
        },
    }
}

/// What reading a list of constraints gives.
pub open spec fn constraints_decoding(cs: Seq<ConstraintParamsView>) -> Result<
    Seq<ConstraintView>,
    Failure,
> {
    list_decoding(cs, |c: ConstraintParamsView| constraint_decoding(c))
}

/// What reading circuit parameters gives. A count of constraints that is not
/// the number of constraints given is malformed; more constraints than the
/// largest domain holds are too large; then the coefficients are read; at
/// last the counts and the variables named must fit together.
pub open spec fn circuit_decoding(p: CircuitParamsView) -> Result<CircuitView, Failure> {
    if p.constraints.len() != p.constraint_count {
        Err(Failure::SerializationError)
    } else if p.constraint_count > MAX_DOMAIN_SIZE {
        Err(Failure::SetupSizeError)
    } else {
        match constraints_decoding(p.constraints) {
            Err(f) => Err(f),
            Ok(constraints) => if p.public_input_count <= p.variable_count && constraints_in_range(
                constraints,
                p.variable_count,
            ) {
                Ok(
                    CircuitView {
                        constraints,
                        variable_count: p.variable_count,
                        public_input_count: p.public_input_count,
                    },
                )
            } else {
                Err(Failure::SerializationError)
            },
        }
    }
}

/// The entry written for an entry of a row.
pub open spec fn term_encoding(t: (nat, nat)) -> (nat, Seq<char>) {
    (t.0, scalar_encoding(t.1))
}

/// The row written for a row.
pub open spec fn row_encoding(row: Seq<(nat, nat)>) -> Seq<(nat, Seq<char>)> {
    list_encoding(row, |t: (nat, nat)| term_encoding(t))
}

/// The parameters written for a constraint.
pub open spec fn constraint_encoding(c: ConstraintView) -> ConstraintParamsView {
    ConstraintParamsView { a: row_encoding(c.a), b: row_encoding(c.b), c: row_encoding(c.c) }
}

/// The parameters written for a circuit.
pub open spec fn circuit_encoding(c: CircuitView) -> CircuitParamsView {
    CircuitParamsView {
        constraint_count: c.constraints.len(),
        variable_count: c.variable_count,
        public_input_count: c.public_input_count,
        constraints: list_encoding(c.constraints, |x: ConstraintView| constraint_encoding(x)),
    }
}

/// What reading a proving key gives: the circuit and the points, or the
/// first failure in the order of the fields; lists whose lengths do not fit
/// the circuit are malformed.
pub open spec fn proving_key_decoding(k: SerializedProvingKeyView) -> Result<
    ProvingKeyView,
    Failure,
> {
    match circuit_decoding(k.circuit) {
        Err(f) => Err(f),
        Ok(circuit) => match g1_decoding(k.alpha_g1) {
            Err(f) => Err(f),
            Ok(alpha_g1) => match g1_decoding(k.beta_g1) {
                Err(f) => Err(f),
                Ok(beta_g1) => match g2_decoding(k.beta_g2) {
                    Err(f) => Err(f),
                    Ok(beta_g2) => match g1_decoding(k.delta_g1) {
                        Err(f) => Err(f),
                        Ok(delta_g1) => match g2_decoding(k.delta_g2) {
                            Err(f) => Err(f),
                            Ok(delta_g2) => proving_key_lists_decoding(
                                k,
                                circuit,
                                alpha_g1,
                                beta_g1,
                                beta_g2,
                                delta_g1,
                                delta_g2,
                            ),
                        },
                    },
                },
            },
        },
    }
}

/// What reading the lists of a proving key gives, once its circuit and
/// single points have been read.
pub open spec fn proving_key_lists_decoding(
    k: SerializedProvingKeyView,
    circuit: CircuitView,
    alpha_g1: Seq<u8>,
    beta_g1: Seq<u8>,
    beta_g2: Seq<u8>,
    delta_g1: Seq<u8>,
    delta_g2: Seq<u8>,
) -> Result<ProvingKeyView, Failure> {
    match g1_list_decoding(k.a_query) {
        Err(f) => Err(f),
        Ok(a_query) => match g1_list_decoding(k.b_g1_query) {
            Err(f) => Err(f),
            Ok(b_g1_query) => match g2_list_decoding(k.b_g2_query) {
                Err(f) => Err(f),
                Ok(b_g2_query) => match g1_list_decoding(k.l_query) {
                    Err(f) => Err(f),
                    Ok(l_query) => match g1_list_decoding(k.h_query) {
                        Err(f) => Err(f),
                        Ok(h_query) => {
                            let key = ProvingKeyView {
                                circuit,
                                alpha_g1,
                                beta_g1,
                                beta_g2,
                                delta_g1,
                                delta_g2,
                                a_query,
                                b_g1_query,
                                b_g2_query,
                                l_query,
                                h_query,
                            };
                            if proving_key_fits(key) {
                                Ok(key)
                            } else {
                                Err(Failure::SerializationError)
                            }
                        },
                    },
                },
            },
        },
    }
}

/// The record written for a proving key.
pub open spec fn proving_key_encoding(k: ProvingKeyView) -> SerializedProvingKeyView {
    SerializedProvingKeyView {
        circuit: circuit_encoding(k.circuit),
        alpha_g1: hex_encoding(k.alpha_g1),
        beta_g1: hex_encoding(k.beta_g1),
        beta_g2: hex_encoding(k.beta_g2),
        delta_g1: hex_encoding(k.delta_g1),
        delta_g2: hex_encoding(k.delta_g2),
        a_query: points_encoding(k.a_query),
        b_g1_query: points_encoding(k.b_g1_query),
        b_g2_query: points_encoding(k.b_g2_query),
        l_query: points_encoding(k.l_query),
        h_query: points_encoding(k.h_query),
    }
}

/// Whether the three parts of a proof are points of their groups, as those
/// of every proof held in memory are.
pub open spec fn proof_is_valid(p: ProofView) -> bool {
    is_g1(p.a) && is_g2(p.b) && is_g1(p.c)
}

/// Whether the parts of a verifying key are points of their groups, as those
/// of every verifying key held in memory are.
pub open spec fn verifying_key_is_valid(k: VerifyingKeyView) -> bool {
    is_g1(k.alpha_g1) && is_g2(k.beta_g2) && is_g2(k.gamma_g2) && is_g2(k.delta_g2) && all_g1(k.ic)
}

/// Whether a proving key holds a well-formed circuit with reduced
/// coefficients and points of the right groups, as every proving key held in
/// memory does, and lists that fit the circuit.
pub open spec fn proving_key_is_valid(k: ProvingKeyView) -> bool {
    &&& well_formed(k.circuit)
    &&& coefficients_reduced(k.circuit)
    &&& is_g1(k.alpha_g1)
    &&& is_g1(k.beta_g1)
    &&& is_g2(k.beta_g2)
    &&& is_g1(k.delta_g1)
    &&& is_g2(k.delta_g2)
    &&& all_g1(k.a_query)
    &&& all_g1(k.b_g1_query)
    &&& all_g2(k.b_g2_query)
    &&& all_g1(k.l_query)
    &&& all_g1(k.h_query)
    &&& proving_key_fits(k)
}

/// Writing a proof and reading it back gives the same proof, byte for byte.
pub proof fn proof_round_trip(p: ProofView)
    requires
        proof_is_valid(p),
    ensures
        proof_decoding(proof_encoding(p)) == Ok::<ProofView, Failure>(p),
{
    lemma_g1_round_trip(p.a);
    lemma_g2_round_trip(p.b);
    lemma_g1_round_trip(p.c);
}

/// Writing a list of points of G1 and reading it back gives the same list.
pub proof fn g1_list_round_trip(points: Seq<Seq<u8>>)
    requires
        all_g1(points),
    ensures
        g1_list_decoding(points_encoding(points)) == Ok::<Seq<Seq<u8>>, Failure>(points),
{
    let write = |p: Seq<u8>| hex_encoding(p);
    let read = |s: Seq<char>| g1_decoding(s);
    assert forall|i: int| 0 <= i < points.len() implies read(write(#[trigger] points[i])) == Ok::<
        Seq<u8>,
        Failure,
    >(points[i]) by {
        lemma_g1_round_trip(points[i]);
    }
    lemma_list_round_trip(points, write, read);
}

/// Writing a list of points of G2 and reading it back gives the same list.
pub proof fn g2_list_round_trip(points: Seq<Seq<u8>>)
    requires
        all_g2(points),
    ensures
        g2_list_decoding(points_encoding(points)) == Ok::<Seq<Seq<u8>>, Failure>(points),
{
    let write = |p: Seq<u8>| hex_encoding(p);
    let read = |s: Seq<char>| g2_decoding(s);
    assert forall|i: int| 0 <= i < points.len() implies read(write(#[trigger] points[i])) == Ok::<
        Seq<u8>,
        Failure,
    >(points[i]) by {
        lemma_g2_round_trip(points[i]);
    }
    lemma_list_round_trip(points, write, read);
}

/// Writing a verifying key and reading it back gives the same key, byte for byte.
pub proof fn verifying_key_round_trip(k: VerifyingKeyView)
    requires
        verifying_key_is_valid(k),
    ensures
        verifying_key_decoding(verifying_key_encoding(k)) == Ok::<VerifyingKeyView, Failure>(k),
{
    lemma_g1_round_trip(k.alpha_g1);
    lemma_g2_round_trip(k.beta_g2);
    lemma_g2_round_trip(k.gamma_g2);
    lemma_g2_round_trip(k.delta_g2);
    g1_list_round_trip(k.ic);
}

/// Writing a row and reading it back gives the same row.
pub proof fn row_round_trip(row: Seq<(nat, nat)>)
    requires
        row_reduced(row),
    ensures
        row_decoding(row_encoding(row)) == Ok::<Seq<(nat, nat)>, Failure>(row),
{
    let write = |t: (nat, nat)| term_encoding(t);
    let read = |t: (nat, Seq<char>)| term_decoding(t);
    assert forall|i: int| 0 <= i < row.len() implies read(write(#[trigger] row[i])) == Ok::<
        (nat, nat),
        Failure,
    >(row[i]) by {
        lemma_scalar_round_trip(row[i].1);
    }
    lemma_list_round_trip(row, write, read);
}

/// Writing a circuit and reading it back gives the same circuit.
pub proof fn circuit_round_trip(c: CircuitView)
    requires
        well_formed(c),
        coefficients_reduced(c),
    ensures
        circuit_decoding(circuit_encoding(c)) == Ok::<CircuitView, Failure>(c),
{
    let write = |x: ConstraintView| constraint_encoding(x);
    let read = |x: ConstraintParamsView| constraint_decoding(x);
    assert forall|j: int| 0 <= j < c.constraints.len() implies read(
        write(#[trigger] c.constraints[j]),
    ) == Ok::<ConstraintView, Failure>(c.constraints[j]) by {
        row_round_trip(c.constraints[j].a);
        row_round_trip(c.constraints[j].b);
        row_round_trip(c.constraints[j].c);
    }
    lemma_list_round_trip(c.constraints, write, read);
}

/// Writing a proving key and reading it back gives the same key, byte for byte.
pub proof fn proving_key_round_trip(k: ProvingKeyView)
    requires
        proving_key_is_valid(k),
    ensures
        proving_key_decoding(proving_key_encoding(k)) == Ok::<ProvingKeyView, Failure>(k),
{
    circuit_round_trip(k.circuit);
    lemma_g1_round_trip(k.alpha_g1);
    lemma_g1_round_trip(k.beta_g1);
    lemma_g2_round_trip(k.beta_g2);
    lemma_g1_round_trip(k.delta_g1);
    lemma_g2_round_trip(k.delta_g2);
    g1_list_round_trip(k.a_query);
    g1_list_round_trip(k.b_g1_query);
    g2_list_round_trip(k.b_g2_query);
    g1_list_round_trip(k.l_query);
    g1_list_round_trip(k.h_query);
}

/// Reads a proof.
pub fn decode_proof(p: &SerializedProof) -> (r: Result<Proof, Groth16Error>)
    ensures
        outcome(r, |x: Proof| x@) == proof_decoding(p@),
{
    let a = match decode_g1(p.a.as_str()) {
        Err(e) => {
            return Err(e);
        },
        Ok(a) => a,
    };
    let b = match decode_g2(p.b.as_str()) {
        Err(e) => {
            return Err(e);
        },
        Ok(b) => b,
    };
    let c = match decode_g1(p.c.as_str()) {
        Err(e) => {
            return Err(e);
        },
        Ok(c) => c,
    };
    Ok(Proof { a, b, c })
}

/// Writes a proof.
pub fn encode_proof(p: &Proof) -> (r: SerializedProof)
    ensures
        r@ == proof_encoding(p@),
        proof_decoding(r@) == Ok::<ProofView, Failure>(p@),
{
    SerializedProof { a: encode_g1(&p.a), b: encode_g2(&p.b), c: encode_g1(&p.c) }
}

/// Reads a verifying key.
pub fn decode_verifying_key(k: &SerializedVerifyingKey) -> (r: Result<VerifyingKey, Groth16Error>)
    ensures
        outcome(r, |x: VerifyingKey| x@) == verifying_key_decoding(k@),
{
    let alpha_g1 = match decode_g1(k.alpha_g1.as_str()) {
        Err(e) => {
            return Err(e);
        },
        Ok(p) => p,
    };
    let beta_g2 = match decode_g2(k.beta_g2.as_str()) {
        Err(e) => {
            return Err(e);
        },
        Ok(p) => p,
    };
    let gamma_g2 = match decode_g2(k.gamma_g2.as_str()) {
        Err(e) => {
            return Err(e);
        },
        Ok(p) => p,
    };
    let delta_g2 = match decode_g2(k.delta_g2.as_str()) {
        Err(e) => {
            return Err(e);
        },
        Ok(p) => p,
    };
    let ic = match decode_g1_list(&k.ic) {
        Err(e) => {
            return Err(e);
        },
        Ok(v) => v,
    };
    Ok(VerifyingKey { alpha_g1, beta_g2, gamma_g2, delta_g2, ic })
}

/// Writes a verifying key.
pub fn encode_verifying_key(k: &VerifyingKey) -> (r: SerializedVerifyingKey)
    ensures
        r@ == verifying_key_encoding(k@),
        verifying_key_decoding(r@) == Ok::<VerifyingKeyView, Failure>(k@),
{
    let r = SerializedVerifyingKey {
        alpha_g1: encode_g1(&k.alpha_g1),
        beta_g2: encode_g2(&k.beta_g2),
        gamma_g2: encode_g2(&k.gamma_g2),
        delta_g2: encode_g2(&k.delta_g2),
        ic: encode_g1_list(&k.ic),
    };
    proof {
        verifying_key_round_trip(k@);
    }
    r
}

/// Reads a row.
fn decode_row(row: &Vec<TermParams>) -> (r: Result<Vec<Term>, Groth16Error>)
    ensures
        outcome(r, |v: Vec<Term>| row_view(v@)) == row_decoding(row_params_view(row@)),
{
    let ghost items = row_params_view(row@);
    let ghost read = |t: (nat, Seq<char>)| term_decoding(t);
    let mut out: Vec<Term> = Vec::new();
    let mut i: usize = 0;
    proof {
        assert(items.take(0) =~= Seq::<(nat, Seq<char>)>::empty());
        assert(row_view(out@) =~= Seq::<(nat, nat)>::empty());
    }
    while i < row.len()
        invariant
            i <= row.len(),
            items == row_params_view(row@),
            read == (|t: (nat, Seq<char>)| term_decoding(t)),
            list_decoding(items.take(i as int), read) == Ok::<Seq<(nat, nat)>, Failure>(
                row_view(out@),
            ),
        decreases row.len() - i,
    {
        proof {
            assert(items.take(i + 1).drop_last() =~= items.take(i as int));
            assert(items.take(i + 1).last() == (
                row@[i as int].variable as nat,
                row@[i as int].coefficient@,
            ));
        }
        match decode_scalar(row[i].coefficient.as_str()) {
            Err(e) => {
                proof {
                    lemma_list_decoding_fails_early(items, i + 1, read);
                }
                return Err(e);
            },
            Ok(x) => {
                let ghost before = row_view(out@);
                out.push(Term { variable: row[i].variable, coefficient: x });
                assert(row_view(out@) =~= before.push((row@[i as int].variable as nat, x@)));
            },
        }
        i = i + 1;
    }
    proof {
        assert(items.take(items.len() as int) =~= items);
    }
    Ok(out)
}

/// Reads a constraint.
fn decode_constraint(c: &ConstraintParams) -> (r: Result<Constraint, Groth16Error>)
    ensures
        outcome(r, |x: Constraint| x@) == constraint_decoding(c@),
{
    let a = match decode_row(&c.a) {
        Err(e) => {
            return Err(e);
        },
        Ok(v) => v,
    };
    let b = match decode_row(&c.b) {
        Err(e) => {
            return Err(e);
        },
        Ok(v) => v,
    };
    let cc = match decode_row(&c.c) {
        Err(e) => {
            return Err(e);
        },
        Ok(v) => v,
    };
    Ok(Constraint { a, b, c: cc })
}

/// Reads circuit parameters.
pub fn decode_circuit(p: &CircuitParams) -> (r: Result<Circuit, Groth16Error>)
    ensures
        outcome(r, |c: Circuit| c@) == circuit_decoding(p@),
{
    if p.constraints.len() != p.constraint_count {
        return Err(Groth16Error::SerializationError);
    }
    if p.constraint_count > MAX_DOMAIN_SIZE {
        return Err(Groth16Error::SetupSizeError);
    }
    let ghost items = constraint_params_views(p.constraints@);
    let ghost read = |c: ConstraintParamsView| constraint_decoding(c);
    let mut out: Vec<Constraint> = Vec::new();
    let mut i: usize = 0;
    proof {
        assert(items.take(0) =~= Seq::<ConstraintParamsView>::empty());
        assert(constraint_views(out@) =~= Seq::<ConstraintView>::empty());
    }
    while i < p.constraints.len()
        invariant
            i <= p.constraints.len(),
            p.constraints@.len() == p.constraint_count,
            p.constraint_count <= MAX_DOMAIN_SIZE,
            items == constraint_params_views(p.constraints@),
            read == (|c: ConstraintParamsView| constraint_decoding(c)),
            out@.len() == i,
            list_decoding(items.take(i as int), read) == Ok::<Seq<ConstraintView>, Failure>(
                constraint_views(out@),
            ),
        decreases p.constraints.len() - i,
    {
        proof {
            assert(items.take(i + 1).drop_last() =~= items.take(i as int));
            assert(items.take(i + 1).last() == p.constraints@[i as int]@);
        }
        match decode_constraint(&p.constraints[i]) {
            Err(e) => {
                proof {
                    lemma_list_decoding_fails_early(items, i + 1, read);
                }
                return Err(e);
            },
            Ok(c) => {
                let ghost before = constraint_views(out@);
                out.push(c);
                assert(constraint_views(out@) =~= before.push(c@));
            },
        }
        i = i + 1;
    }
    proof {
        assert(items.take(items.len() as int) =~= items);
    }
    Circuit::new(out, p.variable_count, p.public_input_count)
}

/// Writes a row.
fn encode_row(row: &Vec<Term>) -> (r: Vec<TermParams>)
    ensures
        row_params_view(r@) == row_encoding(row_view(row@)),
        row_reduced(row_view(row@)),
{
    let mut out: Vec<TermParams> = Vec::new();
    let mut i: usize = 0;
    while i < row.len()
        invariant
            i <= row.len(),
            out@.len() == i,
            forall|j: int|
                0 <= j < i ==> (#[trigger] out@[j]).variable == row@[j].variable
                    && out@[j].coefficient@ == scalar_encoding(row@[j].coefficient@),
            forall|j: int| 0 <= j < i ==> (#[trigger] row_view(row@)[j]).1 < modulus(),
        decreases row.len() - i,
    {
        out.push(
            TermParams {
                variable: row[i].variable,
                coefficient: encode_scalar(&row[i].coefficient),
            },
        );
        i = i + 1;
    }
    assert(row_params_view(out@) =~= row_encoding(row_view(row@)));
    out
}

/// Writes the parameters of a circuit.
pub fn encode_circuit(c: &Circuit) -> (r: CircuitParams)
    ensures
        r@ == circuit_encoding(c@),
        well_formed(c@),
        coefficients_reduced(c@),
        circuit_decoding(r@) == Ok::<CircuitView, Failure>(c@),
{
    proof {
        use_type_invariant(c);
    }
    let constraints = c.constraints();
    let mut out: Vec<ConstraintParams> = Vec::new();
    let mut i: usize = 0;
    while i < constraints.len()
        invariant
            i <= constraints.len(),
            out@.len() == i,
            forall|j: int|
                0 <= j < i ==> (#[trigger] out@[j])@ == constraint_encoding(constraints@[j]@),
            forall|j: int|
                0 <= j < i ==> row_reduced((#[trigger] constraint_views(constraints@)[j]).a)
                    && row_reduced(constraint_views(constraints@)[j].b) && row_reduced(
                    constraint_views(constraints@)[j].c,
                ),
        decreases constraints.len() - i,
    {
        let x = &constraints[i];
        out.push(
            ConstraintParams { a: encode_row(&x.a), b: encode_row(&x.b), c: encode_row(&x.c) },
        );
        i = i + 1;
    }
    let r = CircuitParams {
        constraint_count: constraints.len(),
        variable_count: c.variable_count(),
        public_input_count: c.public_input_count(),
        constraints: out,
    };
    proof {
        assert(constraint_views(constraints@) == c@.constraints);
        assert(r@.constraints =~= circuit_encoding(c@).constraints);
        circuit_round_trip(c@);
    }
    r
}

/// Reads a proving key.
pub fn decode_proving_key(k: &SerializedProvingKey) -> (r: Result<ProvingKey, Groth16Error>)
    ensures
        outcome(r, |x: ProvingKey| x@) == proving_key_decoding(k@),
{
    let circuit = match decode_circuit(&k.circuit) {
        Err(e) => {
            return Err(e);
        },
        Ok(c) => c,
    };
    let alpha_g1 = match decode_g1(k.alpha_g1.as_str()) {
        Err(e) => {
            return Err(e);
        },
        Ok(p) => p,
    };
    let beta_g1 = match decode_g1(k.beta_g1.as_str()) {
        Err(e) => {
            return Err(e);
        },
        Ok(p) => p,
    };
    let beta_g2 = match decode_g2(k.beta_g2.as_str()) {
        Err(e) => {
            return Err(e);
        },
        Ok(p) => p,
    };
    let delta_g1 = match decode_g1(k.delta_g1.as_str()) {
        Err(e) => {
            return Err(e);
        },
        Ok(p) => p,
    };
    let delta_g2 = match decode_g2(k.delta_g2.as_str()) {
        Err(e) => {
            return Err(e);
        },
        Ok(p) => p,
    };
    let a_query = match decode_g1_list(&k.a_query) {
        Err(e) => {
            return Err(e);
        },
        Ok(v) => v,
    };
    let b_g1_query = match decode_g1_list(&k.b_g1_query) {
        Err(e) => {
            return Err(e);
        },
        Ok(v) => v,
    };
    let b_g2_query = match decode_g2_list(&k.b_g2_query) {
        Err(e) => {
            return Err(e);
        },
        Ok(v) => v,
    };
    let l_query = match decode_g1_list(&k.l_query) {
        Err(e) => {
            return Err(e);
        },
        Ok(v) => v,
    };
    let h_query = match decode_g1_list(&k.h_query) {
        Err(e) => {
            return Err(e);
        },
        Ok(v) => v,
    };
    let m = circuit.variable_count();
    let public = circuit.public_input_count();
    let n = circuit.constraint_count();
    let h = if n == 0 {
        0
    } else {
        n - 1
    };
    let fits = public <= m && a_query.len() == m && b_g1_query.len() == m && b_g2_query.len() == m
        && l_query.len() == m - public && h_query.len() == h;
    let key = ProvingKey {
        circuit,
        alpha_g1,
        beta_g1,
        beta_g2,
        delta_g1,
        delta_g2,
        a_query,
        b_g1_query,
        b_g2_query,
        l_query,
        h_query,
    };
    if fits {
        Ok(key)
    } else {
        Err(Groth16Error::SerializationError)
    }
}

/// Writes a proving key.
pub fn encode_proving_key(k: &ProvingKey) -> (r: SerializedProvingKey)
    ensures
        r@ == proving_key_encoding(k@),
        proving_key_fits(k@) ==> proving_key_decoding(r@) == Ok::<ProvingKeyView, Failure>(k@),
{
    let r = SerializedProvingKey {
        circuit: encode_circuit(&k.circuit),
        alpha_g1: encode_g1(&k.alpha_g1),
        beta_g1: encode_g1(&k.beta_g1),
        beta_g2: encode_g2(&k.beta_g2),
        delta_g1: encode_g1(&k.delta_g1),
        delta_g2: encode_g2(&k.delta_g2),
        a_query: encode_g1_list(&k.a_query),
        b_g1_query: encode_g1_list(&k.b_g1_query),
        b_g2_query: encode_g2_list(&k.b_g2_query),
        l_query: encode_g1_list(&k.l_query),
        h_query: encode_g1_list(&k.h_query),
    };
    proof {
        if proving_key_fits(k@) {
            proving_key_round_trip(k@);
        }
    }
    r
}

} // verus!
