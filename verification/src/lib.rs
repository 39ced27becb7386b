//! Groth16 zero-knowledge proofs over the pairing groups of BLS12-381.
//!
//! A circuit is given as a rank-1 constraint system. A setup turns it into a
//! proving key and a verifying key, the prover turns a witness that satisfies
//! the circuit into a proof, and the verifier checks a proof against the
//! public inputs with one pairing equation.
//!
//! The modules, from the ground up:
//!
//! - [`field`]: the scalar field, the integers modulo the order of the groups;
//!   [`algebra`] holds the facts of modular arithmetic that the proofs use.
//! - [`curve`]: the groups G1 and G2, the target group and the pairing. The
//!   arithmetic of field and curve is done by `lambdaworks_math`; what is
//!   stated of it there is believed, everything else is proved.
//! - [`poly`]: polynomials over the field; [`evaluation`] proves that
//!   evaluation respects their operations.
//! - [`r1cs`]: circuits and what it means to satisfy one.
//! - [`qap`]: from a circuit to its quadratic arithmetic program;
//!   [`interpolation`] proves that its polynomials take the right values on
//!   the evaluation domain, and [`divisibility`] that a witness satisfies the
//!   circuit exactly when its polynomial is divisible by the target polynomial.
//! - [`keys`], [`setup`], [`prover`], [`verification`]: the protocol.
//! - [`exponents`], [`completeness`]: the proof of a satisfying witness is
//!   accepted, in any groups that keep the laws of a pairing.
//! - [`faithfulness`]: what the verifier rejects, and when two setups give
//!   different keys, in any groups whose pairing is faithful.
//! - [`hex`], [`codec`], [`records`]: numbers, points, keys and proofs as
//!   hexadecimal strings, and back.
//! - [`boundary`]: the operations that a host calls, on records of strings.

pub mod algebra;
pub mod boundary;
pub mod codec;
pub mod completeness;
pub mod curve;
pub mod divisibility;
pub mod error;
pub mod evaluation;
pub mod exponents;
pub mod faithfulness;
pub mod field;
pub mod hex;
pub mod interpolation;
pub mod keys;
pub mod poly;
pub mod prover;
pub mod qap;
pub mod r1cs;
pub mod records;
pub mod setup;
pub mod verification;

pub use crate::boundary::{
    get_exports_info, verify_proof, Groth16ProverWrapper, Groth16SetupWrapper,
};
pub use crate::codec::convert_hex_to_field_elements;
pub use crate::error::Groth16Error;
pub use crate::records::{
    CircuitParams, ConstraintParams, KeyPair, SerializedProof, SerializedProvingKey,
    SerializedVerifyingKey, TermParams,
};
