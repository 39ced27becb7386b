//! The four operations that a host calls: make a setup and its keys, make a
//! prover and a proof, and verify a proof. Everything that goes in or out is
//! a record of hexadecimal strings; randomness comes in as a seed of bytes,
//! which is wiped once it has been used.

use crate::codec::{convert_hex_to_field_elements, scalars_decoding, strings};
use crate::error::{outcome, Failure, Groth16Error};
use crate::field::{be_value, modulus, values, Scalar};
use crate::keys::{
    proving_key_fits, ProofView, ProvingKey, ProvingKeyView, VerifyingKeyView,
};
use crate::prover::{expected_proof, prove, wipe_scalars, Blinding};
use crate::r1cs::{satisfied, Circuit, CircuitView};
use crate::records::{
    circuit_decoding, decode_circuit, decode_proof, decode_proving_key, decode_verifying_key,
    encode_proof, encode_proving_key, encode_verifying_key, proof_decoding, proof_encoding,
    proving_key_decoding, proving_key_encoding, verifying_key_decoding, verifying_key_encoding,
    CircuitParams, KeyPair, KeyPairView, SerializedProof, SerializedProofView, SerializedProvingKey,
    SerializedVerifyingKey, SerializedVerifyingKeyView,
};
use crate::setup::{
    expected_proving_key, expected_verifying_key, setup, ToxicWaste, ToxicWasteView,
};
use crate::verification::{accepts, verify};
use vstd::prelude::*;
use vstd::slice::slice_subrange;
use vstd::string::*;

verus! {

/// Bytes of seed behind each scalar: twice the width of the field, so that
/// the reduced value is spread evenly over the field.
pub const SCALAR_SEED_BYTES: usize = 64;

/// Bytes of seed that a setup takes: five scalars' worth.
pub const SETUP_SEED_BYTES: usize = 320;

/// Bytes of seed that a proof takes: two scalars' worth.
pub const PROOF_SEED_BYTES: usize = 128;

/// The scalar that the `k`-th run of seed bytes gives: the run read as a
/// big-endian number, reduced modulo the order of the field.
pub open spec fn seed_scalar(seed: Seq<u8>, k: int) -> nat {
    be_value(seed.subrange(k * 64, k * 64 + 64)) % modulus()
}

/// The secret scalars that a seed gives.
pub open spec fn waste_of_seed(seed: Seq<u8>) -> ToxicWasteView {
    ToxicWasteView {
        tau: seed_scalar(seed, 0),
        alpha: seed_scalar(seed, 1),
        beta: seed_scalar(seed, 2),
        gamma: seed_scalar(seed, 3),
        delta: seed_scalar(seed, 4),
    }
}

/// Whether every byte is zero.
pub open spec fn all_zero_bytes(bytes: Seq<u8>) -> bool {
    forall|i: int| 0 <= i < bytes.len() ==> #[trigger] bytes[i] == 0
}

/// What generating keys gives: a seed of the wrong length is malformed; a
/// seed that makes `gamma` or `delta` zero gives no keys; any other gives the
/// keys of the circuit under the seed's scalars, written as records.
pub open spec fn key_generation(c: CircuitView, seed: Seq<u8>) -> Result<KeyPairView, Failure> {
    if seed.len() != SETUP_SEED_BYTES {
        Err(Failure::SerializationError)
    } else {
        let w = waste_of_seed(seed);
        if w.gamma == 0 || w.delta == 0 {
            Err(Failure::FieldRangeError)
        } else {
            Ok(
                KeyPairView {
                    proving_key: proving_key_encoding(expected_proving_key(c, w)),
                    verifying_key: verifying_key_encoding(expected_verifying_key(c, w)),
                },
            )
        }
    }
}

/// What creating a proof gives. The inputs are read, public ones first; the
/// seed must have the right length and the inputs the numbers that the
/// circuit asks for; the inputs together must satisfy the circuit.
pub open spec fn proof_creation(
    pk: ProvingKeyView,
    public_inputs: Seq<Seq<char>>,
    private_inputs: Seq<Seq<char>>,
    seed: Seq<u8>,
) -> Result<SerializedProofView, Failure> {
    match scalars_decoding(public_inputs) {
        Err(f) => Err(f),
        Ok(public) => match scalars_decoding(private_inputs) {
            Err(f) => Err(f),
            Ok(private) => if seed.len() != PROOF_SEED_BYTES || public.len()
                != pk.circuit.public_input_count || public.len() + private.len()
                != pk.circuit.variable_count {
                Err(Failure::SerializationError)
            } else if !satisfied(pk.circuit, public + private) {
                Err(Failure::ConstraintUnsatisfied)
            } else {
                Ok(
                    proof_encoding(
                        expected_proof(
                            pk,
                            public + private,
                            seed_scalar(seed, 0),
                            seed_scalar(seed, 1),
                        ),
                    ),
                )
            },
        },
    }
}

/// What verifying gives: the first failure in reading the key, the proof and
/// the inputs, in that order; else whether the proof is accepted.
pub open spec fn verification(
    vk: SerializedVerifyingKeyView,
    proof: SerializedProofView,
    public_inputs: Seq<Seq<char>>,
) -> Result<bool, Failure> {
    match verifying_key_decoding(vk) {
        Err(f) => Err(f),
        Ok(key) => match proof_decoding(proof) {
            Err(f) => Err(f),
            Ok(p) => match scalars_decoding(public_inputs) {
                Err(f) => Err(f),
                Ok(inputs) => Ok(accepts(key, p, inputs)),
            },
        },
    }
}

/// The names that the library offers to a host.
pub fn get_exports_info() -> (r: String)
    ensures
        r@ == "Rust module exports: Groth16SetupWrapper, Groth16ProverWrapper, verify_proof"@,
{
    String::from_str("Rust module exports: Groth16SetupWrapper, Groth16ProverWrapper, verify_proof")
}

/// Overwrites every byte with zero.
pub fn wipe_bytes(bytes: &mut Vec<u8>)
    ensures
        final(bytes)@.len() == old(bytes)@.len(),
        all_zero_bytes(final(bytes)@),
{
    let n = bytes.len();
    let mut i: usize = 0;
    while i < n
        invariant
            i <= n,
            bytes@.len() == n,
            forall|j: int| 0 <= j < i ==> #[trigger] bytes@[j] == 0,
        decreases n - i,
    {
        bytes[i] = 0;
        i = i + 1;
    }
}

/// The scalar that the `k`-th run of seed bytes gives.
fn scalar_of_seed(seed: &Vec<u8>, k: usize) -> (r: Scalar)
    requires
        k * 64 + 64 <= seed@.len(),
    ensures
        r@ == seed_scalar(seed@, k as int),
{
    let len = seed.len();
    let start = k * SCALAR_SEED_BYTES;
    let run = slice_subrange(seed.as_slice(), start, start + SCALAR_SEED_BYTES);
    Scalar::from_be_bytes(run)
}

/// A setup for one circuit.
#[derive(Debug)]
pub struct Groth16SetupWrapper {
    circuit: Circuit,
}

impl View for Groth16SetupWrapper {
    type V = CircuitView;

    closed spec fn view(&self) -> CircuitView {
        self.circuit@
    }
}

impl Groth16SetupWrapper {
    /// Reads the circuit that the keys are to be made for.
    pub fn new(params: &CircuitParams) -> (r: Result<Groth16SetupWrapper, Groth16Error>)
        ensures
            outcome(r, |w: Groth16SetupWrapper| w@) == circuit_decoding(params@),
    {
        match decode_circuit(params) {
            Err(e) => Err(e),
            Ok(circuit) => Ok(Groth16SetupWrapper { circuit }),
        }
    }

    /// The circuit.
    pub fn circuit(&self) -> (r: &Circuit)
        ensures
            r@ == self@,
    {
        &self.circuit
    }

    /// Derives a proving key and a verifying key from a seed of 320 random
    /// bytes, and wipes the seed. The same seed gives the same keys. Every
    /// point written is a point of its group, so that both records are read
    /// back as the keys that they were written from.
    pub fn generate_keys(&self, seed: &mut Vec<u8>) -> (r: Result<KeyPair, Groth16Error>)
        ensures
            final(seed)@.len() == old(seed)@.len(),
            all_zero_bytes(final(seed)@),
            outcome(r, |k: KeyPair| k@) == key_generation(self@, old(seed)@),
            r is Ok ==> proving_key_decoding(r->Ok_0@.proving_key) == Ok::<ProvingKeyView, Failure>(
                expected_proving_key(self@, waste_of_seed(old(seed)@)),
            ) && verifying_key_decoding(r->Ok_0@.verifying_key) == Ok::<
                VerifyingKeyView,
                Failure,
            >(expected_verifying_key(self@, waste_of_seed(old(seed)@))),
    {
        proof {
            use_type_invariant(&self.circuit);
        }
        if seed.len() != SETUP_SEED_BYTES {
            wipe_bytes(seed);
            return Err(Groth16Error::SerializationError);
        }
        let mut waste = ToxicWaste {
            tau: scalar_of_seed(seed, 0),
            alpha: scalar_of_seed(seed, 1),
            beta: scalar_of_seed(seed, 2),
            gamma: scalar_of_seed(seed, 3),
            delta: scalar_of_seed(seed, 4),
        };
        wipe_bytes(seed);
        match setup(&self.circuit, &mut waste) {
            Err(e) => Err(e),
            Ok(keys) => Ok(
                KeyPair {
                    proving_key: encode_proving_key(&keys.0),
                    verifying_key: encode_verifying_key(&keys.1),
                },
            ),
        }
    }
}

/// A prover for one proving key.
#[derive(Debug)]
pub struct Groth16ProverWrapper {
    proving_key: ProvingKey,
}

impl View for Groth16ProverWrapper {
    type V = ProvingKeyView;

    closed spec fn view(&self) -> ProvingKeyView {
        self.proving_key@
    }
}

/// Appends one list of scalars to another.
fn append_scalars(first: Vec<Scalar>, second: &Vec<Scalar>) -> (r: Vec<Scalar>)
    ensures
        values(r@) == values(first@) + values(second@),
{
    let mut out = first;
    let mut i: usize = 0;
    while i < second.len()
        invariant
            i <= second.len(),
            values(out@) == values(first@) + values(second@).take(i as int),
        decreases second.len() - i,
    {
        let ghost before = values(out@);
        out.push(second[i]);
        proof {
            assert(values(out@) =~= before.push(second@[i as int]@));
            assert(values(second@).take(i + 1) =~= values(second@).take(i as int).push(
                second@[i as int]@,
            ));
            assert(values(out@) =~= values(first@) + values(second@).take(i + 1));
        }
        i = i + 1;
    }
    proof {
        assert(values(second@).take(second@.len() as int) =~= values(second@));
    }
    out
}

impl Groth16ProverWrapper {
    /// Every prover holds a key whose lists fit its circuit.
    #[verifier::type_invariant]
    pub open spec fn key_fits(self) -> bool {
        proving_key_fits(self@)
    }

    /// Reads the proving key that proofs are to be made with.
    pub fn new(proving_key: &SerializedProvingKey) -> (r: Result<
        Groth16ProverWrapper,
        Groth16Error,
    >)
        ensures
            outcome(r, |w: Groth16ProverWrapper| w@) == proving_key_decoding(proving_key@),
    {
        match decode_proving_key(proving_key) {
            Err(e) => Err(e),
            Ok(key) => Ok(Groth16ProverWrapper { proving_key: key }),
        }
    }

    /// Makes a proof that the inputs satisfy the circuit, blinded by a seed
    /// of 128 random bytes, and wipes the seed. Every point written is a
    /// point of its group, so that the record is read back as the proof that
    /// it was written from.
    pub fn create_proof(
        &self,
        public_inputs: &[String],
        private_inputs: &[String],
        seed: &mut Vec<u8>,
    ) -> (r: Result<SerializedProof, Groth16Error>)
        ensures
            final(seed)@.len() == old(seed)@.len(),
            all_zero_bytes(final(seed)@),
            outcome(r, |p: SerializedProof| p@) == proof_creation(
                self@,
                strings(public_inputs@),
                strings(private_inputs@),
                old(seed)@,
            ),
            r is Ok ==> proof_decoding(r->Ok_0@) == Ok::<ProofView, Failure>(
                expected_proof(
                    self@,
                    scalars_decoding(strings(public_inputs@))->Ok_0 + scalars_decoding(
                        strings(private_inputs@),
                    )->Ok_0,
                    seed_scalar(old(seed)@, 0),
                    seed_scalar(old(seed)@, 1),
                ),
            ),
    {
        proof {
            use_type_invariant(self);
        }
        let public = match convert_hex_to_field_elements(public_inputs) {
            Err(e) => {
                wipe_bytes(seed);
                return Err(e);
            },
            Ok(v) => v,
        };
        let mut private = match convert_hex_to_field_elements(private_inputs) {
            Err(e) => {
                wipe_bytes(seed);
                return Err(e);
            },
            Ok(v) => v,
        };
        let m = self.proving_key.circuit.variable_count();
        if seed.len() != PROOF_SEED_BYTES || public.len()
            != self.proving_key.circuit.public_input_count() || private.len() != m - public.len() {
            wipe_bytes(seed);
            wipe_scalars(&mut private);
            return Err(Groth16Error::SerializationError);
        }
        let mut blinding = Blinding { r: scalar_of_seed(seed, 0), s: scalar_of_seed(seed, 1) };
        wipe_bytes(seed);
        let mut witness = append_scalars(public, &private);
        wipe_scalars(&mut private);
        match prove(&self.proving_key, &mut witness, &mut blinding) {
            Err(e) => Err(e),
            Ok(p) => Ok(encode_proof(&p)),
        }
    }
}

/// Checks a proof against a verifying key and the public inputs. A proof
/// that is well formed and does not hold gives `false`, which is no failure.
pub fn verify_proof(
    verifying_key: &SerializedVerifyingKey,
    proof: &SerializedProof,
    public_inputs: &[String],
) -> (r: Result<bool, Groth16Error>)
    ensures
        outcome(r, |b: bool| b) == verification(verifying_key@, proof@, strings(public_inputs@)),
{
    let key = match decode_verifying_key(verifying_key) {
        Err(e) => {
            return Err(e);
        },
        Ok(k) => k,
    };
    let p = match decode_proof(proof) {
        Err(e) => {
            return Err(e);
        },
        Ok(p) => p,
    };
    let inputs = match convert_hex_to_field_elements(public_inputs) {
        Err(e) => {
            return Err(e);
        },
        Ok(v) => v,
    };
    Ok(verify(&key, &p, &inputs))
}

} // verus!
