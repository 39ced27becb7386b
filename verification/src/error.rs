//! The failures that the library reports.

use vstd::prelude::*;

verus! {

/// Why an operation could not be carried out. A proof that does not verify is
/// no error: verification then returns `false`.
#[derive(Clone, Debug, PartialEq, Eq)]
pub enum Groth16Error {
    /// A string that should hold a hexadecimal number does not; it is carried along.
    ParseError(String),
    /// An arithmetic operation has no result in the field, such as the inverse of zero.
    FieldRangeError,
    /// A point is not on its curve or not in the subgroup of prime order.
    InvalidCurvePoint,
    /// The witness does not satisfy every constraint of the circuit.
    ConstraintUnsatisfied,
    /// The circuit has more constraints than the largest evaluation domain.
    SetupSizeError,
    /// A record has the wrong shape: a wrong number of entries, or counts that disagree.
    SerializationError,
}

/// A failure as mathematics sees it: the same kinds, with the string of a
/// parse error as a sequence of characters.
pub enum Failure {
    ParseError(Seq<char>),
    FieldRangeError,
    InvalidCurvePoint,
    ConstraintUnsatisfied,
    SetupSizeError,
    SerializationError,
}

/// The failure that an error stands for.
pub open spec fn failure_of(e: Groth16Error) -> Failure {
    match e {
        Groth16Error::ParseError(s) => Failure::ParseError(s@),
        Groth16Error::FieldRangeError => Failure::FieldRangeError,
        Groth16Error::InvalidCurvePoint => Failure::InvalidCurvePoint,
        Groth16Error::ConstraintUnsatisfied => Failure::ConstraintUnsatisfied,
        Groth16Error::SetupSizeError => Failure::SetupSizeError,
        Groth16Error::SerializationError => Failure::SerializationError,
    }
}

/// What a result says, with the value seen through `view` and the error as a failure.
pub open spec fn outcome<T, V>(r: Result<T, Groth16Error>, view: spec_fn(T) -> V) -> Result<
    V,
    Failure,
> {
    match r {
        Ok(t) => Ok(view(t)),
        Err(e) => Err(failure_of(e)),
    }
}

impl Groth16Error {
    /// A sentence for each kind of failure, for a caller that shows it to a person.
    pub fn message(&self) -> (r: String)
        ensures
            self is ParseError ==> r@ == "Failed to parse hex string: "@ + self->ParseError_0@,
            self is FieldRangeError ==> r@ == "division by zero in the field"@,
            self is InvalidCurvePoint ==> r@
                == "point is not in the prime-order subgroup of its curve"@,
            self is ConstraintUnsatisfied ==> r@ == "witness does not satisfy the constraints"@,
            self is SetupSizeError ==> r@ == "circuit exceeds the largest evaluation domain"@,
            self is SerializationError ==> r@ == "malformed record"@,
    {
        match self {
            Groth16Error::ParseError(s) => {
                let prefix = String::from_str("Failed to parse hex string: ");
                prefix.concat(s.as_str())
            },
            Groth16Error::FieldRangeError => String::from_str("division by zero in the field"),
            Groth16Error::InvalidCurvePoint => String::from_str(
                "point is not in the prime-order subgroup of its curve",
            ),
            Groth16Error::ConstraintUnsatisfied => String::from_str(
                "witness does not satisfy the constraints",
            ),
            Groth16Error::SetupSizeError => String::from_str(
                "circuit exceeds the largest evaluation domain",
            ),
            Groth16Error::SerializationError => String::from_str("malformed record"),
        }
    }
}

} // verus!
