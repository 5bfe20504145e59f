//! The BN254 precompiles: scalar multiplication in G1 and the pairing check.

use crate::bn254_curve::{
    bn254_fq_from_be_bytes_mod_order, bn254_fq_modulus, bn254_fr_from_be_bytes_mod_order,
    bn254_fr_modulus, bn254_g1_is_in_correct_subgroup_assuming_on_curve, bn254_g1_is_on_curve,
    bn254_g1_kind, bn254_g1_affine_mul, bn254_g1_scalar_mul,
    bn254_g2_is_in_correct_subgroup_assuming_on_curve, bn254_g2_is_on_curve, bn254_g2_kind,
    bn254_multi_pairing_is_one, bn254_pairing_product_is_one,
};
use crate::encoding::{
    be_value, bool_word, buffer_after, bytes_of, bytes_of_mut, write_bool_word, write_zeros,
    zero_extend, zero_extended, zeros,
};
use crate::point::{
    encode_g1, pairing_terms_view, write_g1_point, FieldElement, Fq2, Fq2Element, G1Point,
    G2Point, PairingTerm, PointKind, G1, G2,
};
use crate::status::Bn254Result;
use vstd::prelude::*;

verus! {

/// Bytes of an ECMUL input that are read; a shorter input is zero-extended.
pub const BN254_ECMUL_INPUT_SIZE: usize = 96;

/// Bytes of an ECMUL output.
pub const BN254_ECMUL_OUTPUT_SIZE: usize = 64;

/// Bytes of one (G1, G2) pair of an ECPAIRING input.
pub const BN254_PAIRING_CHUNK_SIZE: usize = 192;

/// Bytes of an ECPAIRING output.
pub const BN254_PAIRING_OUTPUT_SIZE: usize = 32;

/// The base-field element that a coordinate slot decodes to.
pub open spec fn bn254_fq(bytes: Seq<u8>) -> nat {
    be_value(bytes) % bn254_fq_modulus()
}

/// The scalar that a scalar slot decodes to.
pub open spec fn bn254_fr(bytes: Seq<u8>) -> nat {
    be_value(bytes) % bn254_fr_modulus()
}

/// The candidate G1 point in the 64 bytes of `input` from `start` on:
/// `x` then `y`, 32 bytes each.
pub open spec fn bn254_g1_at(input: Seq<u8>, start: int) -> G1 {
    G1 {
        x: bn254_fq(input.subrange(start, start + 32)),
        y: bn254_fq(input.subrange(start + 32, start + 64)),
    }
}

/// The candidate G2 point in the 128 bytes of `input` from `start` on:
/// `x.c0`, `x.c1`, `y.c0`, `y.c1`, 32 bytes each.
pub open spec fn bn254_g2_at(input: Seq<u8>, start: int) -> G2 {
    G2 {
        x: Fq2 {
            c0: bn254_fq(input.subrange(start, start + 32)),
            c1: bn254_fq(input.subrange(start + 32, start + 64)),
        },
        y: Fq2 {
            c0: bn254_fq(input.subrange(start + 64, start + 96)),
            c1: bn254_fq(input.subrange(start + 96, start + 128)),
        },
    }
}

/// `scalar` times `p` in G1. The product with the zero scalar, and that of
/// the point at infinity, is the point at infinity.
pub open spec fn bn254_g1_product(p: G1, scalar: nat) -> G1 {
    if scalar == 0 || p.is_infinity() {
        G1::infinity()
    } else {
        bn254_g1_scalar_mul(p, scalar)
    }
}

/// Whether ECMUL takes the call: both buffers are there and the output
/// buffer has room for 64 bytes. An input of any length is taken.
pub open spec fn bn254_ecmul_accepts(input: Option<Seq<u8>>, output: Option<Seq<u8>>) -> bool {
    input is Some && output is Some && output->0.len() >= 64
}

/// Whether ECPAIRING takes the call: both buffers are there, the input is a
/// whole number of chunks of 192 bytes, and the output buffer has room for
/// 32 bytes.
pub open spec fn bn254_ecpairing_accepts(input: Option<Seq<u8>>, output: Option<Seq<u8>>) -> bool {
    input is Some && input->0.len() % 192 == 0 && output is Some && output->0.len() >= 32
}

/// The point that an ECMUL input names.
pub open spec fn bn254_ecmul_point(input: Seq<u8>) -> G1 {
    bn254_g1_at(zero_extend(input, 96), 0)
}

/// The scalar that an ECMUL input names.
pub open spec fn bn254_ecmul_scalar(input: Seq<u8>) -> nat {
    bn254_fr(zero_extend(input, 96).subrange(64, 96))
}

/// The 64 bytes that ECMUL answers with: zero bytes for a point that the
/// validator rejects, else the encoded product.
pub open spec fn bn254_ecmul_output(input: Seq<u8>) -> Seq<u8> {
    let p = bn254_ecmul_point(input);
    if bn254_g1_kind(p) == PointKind::Invalid {
        zeros(64)
    } else {
        encode_g1(bn254_g1_product(p, bn254_ecmul_scalar(input)), 32)
    }
}

/// The pair of candidate points in chunk `i` of an ECPAIRING input.
pub open spec fn bn254_pairing_term_at(input: Seq<u8>, i: int) -> (G1, G2) {
    (bn254_g1_at(input, 192 * i), bn254_g2_at(input, 192 * i + 64))
}

/// Whether the validator accepts both points of chunk `i`.
pub open spec fn bn254_pairing_term_accepted(input: Seq<u8>, i: int) -> bool {
    let (p, q) = bn254_pairing_term_at(input, i);
    bn254_g1_kind(p) != PointKind::Invalid && bn254_g2_kind(q) != PointKind::Invalid
}

/// The pairs of an ECPAIRING input, one for each whole chunk.
pub open spec fn bn254_pairing_terms(input: Seq<u8>) -> Seq<(G1, G2)> {
    Seq::new((input.len() / 192) as nat, |i: int| bn254_pairing_term_at(input, i))
}

/// What ECPAIRING decides: true for the empty input; false as soon as one
/// point is rejected; else whether the product of the pairings is one.
pub open spec fn bn254_ecpairing_holds(input: Seq<u8>) -> bool {
    input.len() == 0 || ((forall|i: int|
        0 <= i < input.len() / 192 ==> bn254_pairing_term_accepted(input, i))
        && bn254_pairing_product_is_one(bn254_pairing_terms(input)))
}

/// The 32 bytes that ECPAIRING answers with.
pub open spec fn bn254_ecpairing_output(input: Seq<u8>) -> Seq<u8> {
    bool_word(bn254_ecpairing_holds(input))
}

/// Nothing to set up: always succeeds, any number of times.
pub fn bn254_init() -> (status: Bn254Result)
    ensures
        status == Bn254Result::Success,
{
    Bn254Result::Success
}

/// The size of an ECMUL output in bytes.
pub fn bn254_ecmul_output_size() -> (size: u32)
    ensures
        size == 64,
{
    64
}

/// The size of an ECPAIRING output in bytes.
pub fn bn254_ecpairing_output_size() -> (size: u32)
    ensures
        size == 32,
{
    32
}

/// Whether a caller's buffer passes for a full ECMUL input: it is there and
/// holds at least 96 bytes. Only the length is looked at.
pub fn bn254_ecmul_validate_input(input: Option<&[u8]>) -> (status: Bn254Result)
    ensures
        status == Bn254Result::of_acceptance(input matches Some(bytes) && bytes@.len() >= 96),
{
    match input {
        Some(bytes) => {
            if bytes.len() < BN254_ECMUL_INPUT_SIZE {
                Bn254Result::InvalidInput
            } else {
                Bn254Result::Success
            }
        },
        None => Bn254Result::InvalidInput,
    }
}

/// Whether a caller's buffer passes for an ECPAIRING input: it is there and
/// its length is a multiple of 192. Only the length is looked at.
pub fn bn254_ecpairing_validate_input(input: Option<&[u8]>) -> (status: Bn254Result)
    ensures
        status == Bn254Result::of_acceptance(
            input matches Some(bytes) && bytes@.len() % 192 == 0,
        ),
{
    match input {
        Some(bytes) => {
            if bytes.len() % BN254_PAIRING_CHUNK_SIZE != 0 {
                Bn254Result::InvalidInput
            } else {
                Bn254Result::Success
            }
        },
        None => Bn254Result::InvalidInput,
    }
}

/// Decodes the candidate G1 point in the 64 bytes of `input` from `start`
/// on. Coordinates at or above the field order are reduced, not refused.
pub fn bn254_decode_g1(input: &[u8], start: usize) -> (p: G1Point)
    requires
        start + 64 <= input.len(),
    ensures
        p@ == bn254_g1_at(input@, start as int),
        p.canonical(32, bn254_fq_modulus()),
{
    let x = bn254_fq_from_be_bytes_mod_order(&input[start..start + 32]);
    let y = bn254_fq_from_be_bytes_mod_order(&input[start + 32..start + 64]);
    G1Point { x, y }
}

/// Decodes the candidate G2 point in the 128 bytes of `input` from `start`
/// on. Coordinates at or above the field order are reduced, not refused.
pub fn bn254_decode_g2(input: &[u8], start: usize) -> (p: G2Point)
    requires
        start + 128 <= input.len(),
    ensures
        p@ == bn254_g2_at(input@, start as int),
        p.canonical(32, bn254_fq_modulus()),
{
    let x0 = bn254_fq_from_be_bytes_mod_order(&input[start..start + 32]);
    let x1 = bn254_fq_from_be_bytes_mod_order(&input[start + 32..start + 64]);
    let y0 = bn254_fq_from_be_bytes_mod_order(&input[start + 64..start + 96]);
    let y1 = bn254_fq_from_be_bytes_mod_order(&input[start + 96..start + 128]);
    G2Point { x: Fq2Element { c0: x0, c1: x1 }, y: Fq2Element { c0: y0, c1: y1 } }
}

/// Decodes the point and the scalar of an ECMUL input. The first 96 bytes
/// count, and an input of less is read as if zero bytes followed it.
pub fn bn254_decode_ecmul_input(input: &[u8]) -> (r: (G1Point, FieldElement))
    ensures
        r.0@ == bn254_ecmul_point(input@),
        r.0.canonical(32, bn254_fq_modulus()),
        r.1@ == bn254_ecmul_scalar(input@),
        r.1.canonical(32, bn254_fr_modulus()),
{
    let padded = zero_extended(input, BN254_ECMUL_INPUT_SIZE);
    let point = bn254_decode_g1(padded.as_slice(), 0);
    let scalar = bn254_fr_from_be_bytes_mod_order(&padded.as_slice()[64..96]);
    (point, scalar)
}

/// Classifies a candidate point of G1: the point at infinity is accepted
/// unchecked; any other point must lie on the curve and then in the subgroup.
pub fn bn254_g1_classify(p: &G1Point) -> (kind: PointKind)
    ensures
        kind == bn254_g1_kind(p@),
{
    if p.is_infinity() {
        PointKind::Infinity
    } else if !bn254_g1_is_on_curve(p) {
        PointKind::Invalid
    } else if bn254_g1_is_in_correct_subgroup_assuming_on_curve(p) {
        PointKind::Valid
    } else {
        PointKind::Invalid
    }
}

/// Classifies a candidate point of G2: the point at infinity is accepted
/// unchecked; any other point must lie on the curve and then in the subgroup.
pub fn bn254_g2_classify(p: &G2Point) -> (kind: PointKind)
    ensures
        kind == bn254_g2_kind(p@),
{
    if p.is_infinity() {
        PointKind::Infinity
    } else if !bn254_g2_is_on_curve(p) {
        PointKind::Invalid
    } else if bn254_g2_is_in_correct_subgroup_assuming_on_curve(p) {
        PointKind::Valid
    } else {
        PointKind::Invalid
    }
}

/// ECMUL: multiplies the G1 point in the first 64 bytes of `input` by the
/// scalar in the next 32 and writes the product to the first 64 bytes of
/// `output`.
///
/// A missing buffer, or an output buffer of less than 64 bytes, is refused
/// with `InvalidInput` and nothing is written. An input of less than 96 bytes
/// is read as if zero bytes followed it. A point that the validator rejects
/// is no error: the answer is 64 zero bytes, as for the point at infinity.
pub fn bn254_ecmul(input: Option<&[u8]>, output: Option<&mut [u8]>) -> (status: Bn254Result)
    ensures
        status == Bn254Result::of_acceptance(
            bn254_ecmul_accepts(bytes_of(input), bytes_of_mut(output)),
        ),
        output matches Some(out) ==> final(out)@ == buffer_after(
            bn254_ecmul_accepts(bytes_of(input), Some(out@)),
            out@,
            bn254_ecmul_output(input->0@),
        ),
        output matches Some(out) ==> final(out)@.len() == out@.len(),
{
    let bytes = match input {
        Some(bytes) => bytes,
        None => {
            return Bn254Result::InvalidInput;
        },
    };
    let out = match output {
        Some(out) => out,
        None => {
            return Bn254Result::InvalidInput;
        },
    };
    if out.len() < BN254_ECMUL_OUTPUT_SIZE {
        return Bn254Result::InvalidInput;
    }
    let (point, scalar) = bn254_decode_ecmul_input(bytes);
    match bn254_g1_classify(&point) {
        PointKind::Invalid => {
            write_zeros(out, BN254_ECMUL_OUTPUT_SIZE);
        },
        _ => {
            let product = bn254_g1_affine_mul(&point, &scalar);
            write_g1_point(out, &product, 32);
        },
    }
    Bn254Result::Success
}

/// Decodes chunk `i` of an ECPAIRING input and classifies its two points.
/// Gives the pair if the validator accepts both, else nothing; the second
/// point is not looked at once the first is rejected.
pub fn bn254_decode_pairing_term(input: &[u8], i: usize) -> (r: Option<PairingTerm>)
    requires
        192 * (i + 1) <= input.len(),
    ensures
        r is Some == bn254_pairing_term_accepted(input@, i as int),
        r matches Some(term) ==> term@ == bn254_pairing_term_at(input@, i as int)
            && term.canonical(32, bn254_fq_modulus()),
{
    let start: usize = i * BN254_PAIRING_CHUNK_SIZE;
    let g1 = bn254_decode_g1(input, start);
    if bn254_g1_classify(&g1) == PointKind::Invalid {
        return None;
    }
    let g2 = bn254_decode_g2(input, start + 64);
    if bn254_g2_classify(&g2) == PointKind::Invalid {
        return None;
    }
    Some(PairingTerm { g1, g2 })
}

/// Decodes the whole chunks of an ECPAIRING input in order. Gives all the
/// pairs if the validator accepts every point, and nothing as soon as it
/// rejects one; no chunk behind that one is looked at.
pub fn bn254_decode_pairing_terms(input: &[u8]) -> (r: Option<Vec<PairingTerm>>)
    ensures
        r is Some == (forall|i: int|
            0 <= i < input@.len() / 192 ==> bn254_pairing_term_accepted(input@, i)),
        r matches Some(terms) ==> pairing_terms_view(terms@) == bn254_pairing_terms(input@)
            && terms@.len() == input@.len() / 192 && forall|i: int|
            0 <= i < terms@.len() ==> (#[trigger] terms@[i]).canonical(32, bn254_fq_modulus()),
{
    let pairs: usize = input.len() / BN254_PAIRING_CHUNK_SIZE;
    let mut terms: Vec<PairingTerm> = Vec::with_capacity(pairs);
    let mut i: usize = 0;
    while i < pairs
        invariant
            i <= pairs,
            pairs == input.len() / 192,
            terms@.len() == i,
            forall|j: int| 0 <= j < i ==> bn254_pairing_term_accepted(input@, j),
            forall|j: int|
                0 <= j < i ==> (#[trigger] terms@[j])@ == bn254_pairing_term_at(input@, j)
                    && terms@[j].canonical(32, bn254_fq_modulus()),
        decreases pairs - i,
    {
        match bn254_decode_pairing_term(input, i) {
            Some(term) => {
                terms.push(term);
            },
            None => {
                return None;
            },
        }
        i += 1;
    }
    assert(pairing_terms_view(terms@) =~= bn254_pairing_terms(input@));
    Some(terms)
}

/// ECPAIRING: decides whether the product of the pairings of the (G1, G2)
/// pairs in `input`, 192 bytes each, is the identity of the target group, and
/// writes the answer as a 32-byte word to the start of `output`.
///
/// A missing buffer, an output buffer of less than 32 bytes, or an input
/// whose length is no multiple of 192, is refused with `InvalidInput` and
/// nothing is written. The empty input gives true. A point at infinity
/// contributes the identity. The first point that the validator rejects ends
/// the call with the answer false; that is no error.
pub fn bn254_ecpairing(input: Option<&[u8]>, output: Option<&mut [u8]>) -> (status: Bn254Result)
    ensures
        status == Bn254Result::of_acceptance(
            bn254_ecpairing_accepts(bytes_of(input), bytes_of_mut(output)),
        ),
        output matches Some(out) ==> final(out)@ == buffer_after(
            bn254_ecpairing_accepts(bytes_of(input), Some(out@)),
            out@,
            bn254_ecpairing_output(input->0@),
        ),
        output matches Some(out) ==> final(out)@.len() == out@.len(),
{
    let bytes = match input {
        Some(bytes) => bytes,
        None => {
            return Bn254Result::InvalidInput;
        },
    };
    let out = match output {
        Some(out) => out,
        None => {
            return Bn254Result::InvalidInput;
        },
    };
    if out.len() < BN254_PAIRING_OUTPUT_SIZE {
        return Bn254Result::InvalidInput;
    }
    if bytes.len() % BN254_PAIRING_CHUNK_SIZE != 0 {
        return Bn254Result::InvalidInput;
    }
    if bytes.len() == 0 {
        write_bool_word(out, true);
        return Bn254Result::Success;
    }
    match bn254_decode_pairing_terms(bytes) {
        Some(terms) => {
            assert forall|i: int| 0 <= i < terms@.len() implies bn254_g1_kind(
                (#[trigger] terms@[i]).g1@,
            ) != PointKind::Invalid && bn254_g2_kind(terms@[i].g2@) != PointKind::Invalid by {
                assert(pairing_terms_view(terms@)[i] == bn254_pairing_terms(bytes@)[i]);
                assert(bn254_pairing_term_accepted(bytes@, i));
            }
            let holds = bn254_multi_pairing_is_one(&terms);
            write_bool_word(out, holds);
        },
        None => {
            write_bool_word(out, false);
        },
    }
    Bn254Result::Success
}

} // verus!
