//! Status codes that the precompile entry points hand back.

use vstd::prelude::*;

verus! {

/// Outcome of a BN254 operation. The position of a variant is its numeric
/// code at the native boundary.
#[derive(Clone, Copy, Debug, PartialEq, Eq, Structural)]
pub enum Bn254Result {
    Success,
    InvalidInput,
    InvalidPoint,
    InvalidScalar,
    ComputationFailed,
}

/// Outcome of a BLS12-381 operation. The position of a variant is its numeric
/// code at the native boundary.
#[derive(Clone, Copy, Debug, PartialEq, Eq, Structural)]
pub enum Bls12381Result {
    Success,
    InvalidInput,
    InvalidPoint,
    InvalidScalar,
    ComputationFailed,
}

impl Bn254Result {
    /// The status of a call that was accepted, or refused, on the shape of
    /// its buffers alone. No other status is ever returned.
    pub open spec fn of_acceptance(accepted: bool) -> Bn254Result {
        if accepted {
            Bn254Result::Success
        } else {
            Bn254Result::InvalidInput
        }
    }

    /// The numeric code of a status: 0 for success, 1 to 4 for the failures.
    pub open spec fn code_of(self) -> int {
        match self {
            Bn254Result::Success => 0,
            Bn254Result::InvalidInput => 1,
            Bn254Result::InvalidPoint => 2,
            Bn254Result::InvalidScalar => 3,
            Bn254Result::ComputationFailed => 4,
        }
    }

    /// The numeric code of this status.
    pub fn code(self) -> (c: i32)
        ensures
            c == self.code_of(),
    {
        match self {
            Bn254Result::Success => 0,
            Bn254Result::InvalidInput => 1,
            Bn254Result::InvalidPoint => 2,
            Bn254Result::InvalidScalar => 3,
            Bn254Result::ComputationFailed => 4,
        }
    }
}

impl Bls12381Result {
    /// The status of a call that was accepted, or refused, on the shape of
    /// its buffers alone. No other status is ever returned.
    pub open spec fn of_acceptance(accepted: bool) -> Bls12381Result {
        if accepted {
            Bls12381Result::Success
        } else {
            Bls12381Result::InvalidInput
        }
    }

    /// The numeric code of a status: 0 for success, 1 to 4 for the failures.
    pub open spec fn code_of(self) -> int {
        match self {
            Bls12381Result::Success => 0,
            Bls12381Result::InvalidInput => 1,
            Bls12381Result::InvalidPoint => 2,
            Bls12381Result::InvalidScalar => 3,
            Bls12381Result::ComputationFailed => 4,
        }
    }

    /// The numeric code of this status.
    pub fn code(self) -> (c: i32)
        ensures
            c == self.code_of(),
    {
        match self {
            Bls12381Result::Success => 0,
            Bls12381Result::InvalidInput => 1,
            Bls12381Result::InvalidPoint => 2,
            Bls12381Result::InvalidScalar => 3,
            Bls12381Result::ComputationFailed => 4,
        }
    }
}

} // verus!
