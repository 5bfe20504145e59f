//! Byte-level codec and validation for the BN254 and BLS12-381 elliptic-curve
//! precompiles of the Ethereum virtual machine.
//!
//! An operation takes the caller's input and output buffers, checks their
//! shape, decodes field elements and candidate points from fixed slots of the
//! input, has the validator classify each point, hands the accepted points to
//! the curve arithmetic, and writes the result in the fixed output layout.
//! The curve arithmetic itself comes from the arkworks crates and is reached
//! through `bn254_curve` and `bls12_381_curve` only; all else is verified.
//!
//! - `status`: the status codes.
//! - `encoding`: big-endian numbers, slots and buffers.
//! - `point`: field elements, points, and the output layout of a point.
//! - `bn254`: ECMUL and ECPAIRING.
//! - `bls12_381`: G1-ADD, G1-MUL, G1-MSM and PAIRING-CHECK.
//! - `laws`: what holds of the operations for every input.
//! - `generators`: the published generators lie on the curves as stated.

pub mod bls12_381;
pub mod bls12_381_curve;
pub mod bn254;
pub mod bn254_curve;
pub mod encoding;
pub mod generators;
pub mod laws;
pub mod point;
pub mod status;

pub use crate::bls12_381::{
    bls12_381_g1_add, bls12_381_g1_mul, bls12_381_g1_multiexp, bls12_381_g1_output_size,
    bls12_381_pairing, bls12_381_pairing_output_size,
};
pub use crate::bn254::{
    bn254_ecmul, bn254_ecmul_output_size, bn254_ecmul_validate_input, bn254_ecpairing,
    bn254_ecpairing_output_size, bn254_ecpairing_validate_input, bn254_init,
};
pub use crate::status::{Bls12381Result, Bn254Result};
