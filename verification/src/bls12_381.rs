//! The BLS12-381 precompiles: addition, scalar multiplication and
//! multi-scalar multiplication in G1, and the pairing check.

use crate::bls12_381_curve::{
    bls12_381_fq_from_be_bytes_mod_order, bls12_381_fq_modulus,
    bls12_381_fr_from_be_bytes_mod_order, bls12_381_fr_modulus, bls12_381_g1_add_points,
    bls12_381_g1_affine_add, bls12_381_g1_affine_msm, bls12_381_g1_affine_mul,
    bls12_381_g1_is_in_correct_subgroup_assuming_on_curve, bls12_381_g1_is_on_curve,
    bls12_381_g1_kind, bls12_381_g1_msm_sum, bls12_381_g1_scalar_mul,
    bls12_381_g2_is_in_correct_subgroup_assuming_on_curve, bls12_381_g2_is_on_curve,
    bls12_381_g2_kind, bls12_381_multi_pairing_is_one, bls12_381_pairing_product_is_one,
};
use crate::encoding::{
    be_value, bool_word, buffer_after, bytes_of, bytes_of_mut, write_bool_word, write_zeros, zeros,
};
use crate::point::{
    encode_g1, msm_terms_view, pairing_terms_view, write_g1_point, Fq2, Fq2Element, G1Point,
    G2Point, MsmTerm, PairingTerm, PointKind, G1, G2,
};
use crate::status::Bls12381Result;
use vstd::prelude::*;

verus! {

/// Bytes of a slot that carries one base-field element: the 48 bytes of the
/// element, right-aligned.
pub const BLS12_381_FIELD_SLOT_SIZE: usize = 64;

/// Bytes of a G1-ADD input that are read.
pub const BLS12_381_G1_ADD_INPUT_SIZE: usize = 256;

/// Bytes of a G1-MUL input that are read.
pub const BLS12_381_G1_MUL_INPUT_SIZE: usize = 160;

/// Bytes of one (point, scalar) chunk of a G1-MSM input.
pub const BLS12_381_G1_MSM_CHUNK_SIZE: usize = 160;

/// Bytes of one (G1, G2) pair of a PAIRING-CHECK input.
pub const BLS12_381_PAIRING_CHUNK_SIZE: usize = 384;

/// Bytes of the output of a G1 operation.
pub const BLS12_381_G1_OUTPUT_SIZE: usize = 128;

/// Bytes of a PAIRING-CHECK output.
pub const BLS12_381_PAIRING_OUTPUT_SIZE: usize = 32;

/// The base-field element that a coordinate slot decodes to.
pub open spec fn bls12_381_fq(bytes: Seq<u8>) -> nat {
    be_value(bytes) % bls12_381_fq_modulus()
}

/// The scalar that a scalar slot decodes to.
pub open spec fn bls12_381_fr(bytes: Seq<u8>) -> nat {
    be_value(bytes) % bls12_381_fr_modulus()
}

/// The candidate G1 point in `input` from `start` on: `x` then `y`, each in
/// a slot of `slot` bytes. The whole slot is decoded.
pub open spec fn bls12_381_g1_at(input: Seq<u8>, start: int, slot: int) -> G1 {
    G1 {
        x: bls12_381_fq(input.subrange(start, start + slot)),
        y: bls12_381_fq(input.subrange(start + slot, start + 2 * slot)),
    }
}

/// The candidate G2 point in the 256 bytes of `input` from `start` on:
/// `x.c0`, `x.c1`, `y.c0`, `y.c1`, each in a slot of 64 bytes.
pub open spec fn bls12_381_g2_at(input: Seq<u8>, start: int) -> G2 {
    G2 {
        x: Fq2 {
            c0: bls12_381_fq(input.subrange(start, start + 64)),
            c1: bls12_381_fq(input.subrange(start + 64, start + 128)),
        },
        y: Fq2 {
            c0: bls12_381_fq(input.subrange(start + 128, start + 192)),
            c1: bls12_381_fq(input.subrange(start + 192, start + 256)),
        },
    }
}

/// Whether a call with a fixed layout is taken: both buffers are there, the
/// input holds at least `input_size` bytes and the output buffer has room
/// for `output_size`.
pub open spec fn bls12_381_accepts_at_least(
    input: Option<Seq<u8>>,
    output: Option<Seq<u8>>,
    input_size: nat,
    output_size: nat,
) -> bool {
    input is Some && input->0.len() >= input_size && output is Some && output->0.len()
        >= output_size
}

/// Whether a call on a list of chunks is taken: both buffers are there, the
/// input is a whole number of chunks of `chunk_size` bytes and the output
/// buffer has room for `output_size`.
pub open spec fn bls12_381_accepts_chunks(
    input: Option<Seq<u8>>,
    output: Option<Seq<u8>>,
    chunk_size: nat,
    output_size: nat,
) -> bool {
    input is Some && input->0.len() % chunk_size == 0 && output is Some && output->0.len()
        >= output_size
}

/// Whether G1-ADD takes the call.
pub open spec fn bls12_381_g1_add_accepts(input: Option<Seq<u8>>, output: Option<Seq<u8>>) -> bool {
    bls12_381_accepts_at_least(input, output, 256, 128)
}

/// Whether G1-MUL takes the call.
pub open spec fn bls12_381_g1_mul_accepts(input: Option<Seq<u8>>, output: Option<Seq<u8>>) -> bool {
    bls12_381_accepts_at_least(input, output, 160, 128)
}

/// Whether G1-MSM takes the call.
pub open spec fn bls12_381_g1_msm_accepts(input: Option<Seq<u8>>, output: Option<Seq<u8>>) -> bool {
    bls12_381_accepts_chunks(input, output, 160, 128)
}

/// Whether PAIRING-CHECK takes the call.
pub open spec fn bls12_381_pairing_accepts(
    input: Option<Seq<u8>>,
    output: Option<Seq<u8>>,
) -> bool {
    bls12_381_accepts_chunks(input, output, 384, 32)
}

/// `p + q` in G1. The point at infinity is neutral.
pub open spec fn bls12_381_g1_sum(p: G1, q: G1) -> G1 {
    if p.is_infinity() {
        q
    } else if q.is_infinity() {
        p
    } else {
        bls12_381_g1_add_points(p, q)
    }
}

/// `scalar` times `p` in G1. The product with the zero scalar, and that of
/// the point at infinity, is the point at infinity.
pub open spec fn bls12_381_g1_product(p: G1, scalar: nat) -> G1 {
    if scalar == 0 || p.is_infinity() {
        G1::infinity()
    } else {
        bls12_381_g1_scalar_mul(p, scalar)
    }
}

/// The 128 bytes that G1-ADD answers with: zero bytes if the validator
/// rejects either point, else the encoded sum.
pub open spec fn bls12_381_g1_add_output(input: Seq<u8>) -> Seq<u8> {
    let p = bls12_381_g1_at(input, 0, 64);
    let q = bls12_381_g1_at(input, 128, 64);
    if bls12_381_g1_kind(p) == PointKind::Invalid || bls12_381_g1_kind(q) == PointKind::Invalid {
        zeros(128)
    } else {
        encode_g1(bls12_381_g1_sum(p, q), 64)
    }
}

/// The 128 bytes that G1-MUL answers with: zero bytes for a point that the
/// validator rejects, else the encoded product.
pub open spec fn bls12_381_g1_mul_output(input: Seq<u8>) -> Seq<u8> {
    let p = bls12_381_g1_at(input, 0, 64);
    let scalar = bls12_381_fr(input.subrange(128, 160));
    if bls12_381_g1_kind(p) == PointKind::Invalid {
        zeros(128)
    } else {
        encode_g1(bls12_381_g1_product(p, scalar), 64)
    }
}

/// The point and the scalar in chunk `i` of a G1-MSM input: `x` and `y` in
/// 48 bytes each, the scalar in 32, and 32 bytes that nothing reads.
pub open spec fn bls12_381_msm_term_at(input: Seq<u8>, i: int) -> (G1, nat) {
    (
        bls12_381_g1_at(input, 160 * i, 48),
        bls12_381_fr(input.subrange(160 * i + 96, 160 * i + 128)),
    )
}

/// The summands that the first `n` chunks of a G1-MSM input leave: those
/// whose point is on the curve and in the subgroup, in order. The point at
/// infinity and rejected points are dropped.
pub open spec fn bls12_381_msm_terms(input: Seq<u8>, n: nat) -> Seq<(G1, nat)>
    decreases n,
{
    if n == 0 {
        Seq::empty()
    } else {
        let rest = bls12_381_msm_terms(input, (n - 1) as nat);
        let term = bls12_381_msm_term_at(input, n - 1);
        if bls12_381_g1_kind(term.0) == PointKind::Valid {
            rest.push(term)
        } else {
            rest
        }
    }
}

/// The sum of a multi-scalar multiplication; that of no summands is the
/// point at infinity.
pub open spec fn bls12_381_g1_msm_result(terms: Seq<(G1, nat)>) -> G1 {
    if terms.len() == 0 {
        G1::infinity()
    } else {
        bls12_381_g1_msm_sum(terms)
    }
}

/// The 128 bytes that G1-MSM answers with.
pub open spec fn bls12_381_g1_msm_output(input: Seq<u8>) -> Seq<u8> {
    encode_g1(bls12_381_g1_msm_result(bls12_381_msm_terms(input, input.len() / 160)), 64)
}

/// The pair of candidate points in chunk `i` of a PAIRING-CHECK input.
pub open spec fn bls12_381_pairing_term_at(input: Seq<u8>, i: int) -> (G1, G2) {
    (bls12_381_g1_at(input, 384 * i, 64), bls12_381_g2_at(input, 384 * i + 128))
}

/// Whether the validator accepts both points of chunk `i`.
pub open spec fn bls12_381_pairing_term_accepted(input: Seq<u8>, i: int) -> bool {
    let (p, q) = bls12_381_pairing_term_at(input, i);
    bls12_381_g1_kind(p) != PointKind::Invalid && bls12_381_g2_kind(q) != PointKind::Invalid
}

/// The pairs of a PAIRING-CHECK input, one for each whole chunk.
pub open spec fn bls12_381_pairing_terms(input: Seq<u8>) -> Seq<(G1, G2)> {
    Seq::new((input.len() / 384) as nat, |i: int| bls12_381_pairing_term_at(input, i))
}

/// What PAIRING-CHECK decides: true for the empty input; false as soon as
/// one point is rejected; else whether the product of the pairings is one.
pub open spec fn bls12_381_pairing_holds(input: Seq<u8>) -> bool {
    input.len() == 0 || ((forall|i: int|
        0 <= i < input.len() / 384 ==> bls12_381_pairing_term_accepted(input, i))
        && bls12_381_pairing_product_is_one(bls12_381_pairing_terms(input)))
}

/// The 32 bytes that PAIRING-CHECK answers with.
pub open spec fn bls12_381_pairing_output(input: Seq<u8>) -> Seq<u8> {
    bool_word(bls12_381_pairing_holds(input))
}

/// The size of the output of a G1 operation in bytes.
pub fn bls12_381_g1_output_size() -> (size: u32)
    ensures
        size == 128,
{
    128
}

/// The size of a PAIRING-CHECK output in bytes.
pub fn bls12_381_pairing_output_size() -> (size: u32)
    ensures
        size == 32,
{
    32
}

/// Decodes the candidate G1 point in `input` from `start` on, each
/// coordinate from a slot of `slot` bytes. A slot that spells a number at or
/// above the field order is reduced, not refused.
pub fn bls12_381_decode_g1(input: &[u8], start: usize, slot: usize) -> (p: G1Point)
    requires
        start + 2 * slot <= input.len(),
    ensures
        p@ == bls12_381_g1_at(input@, start as int, slot as int),
        p.canonical(48, bls12_381_fq_modulus()),
{
    let x = bls12_381_fq_from_be_bytes_mod_order(&input[start..start + slot]);
    let y = bls12_381_fq_from_be_bytes_mod_order(&input[start + slot..start + 2 * slot]);
    G1Point { x, y }
}

/// Decodes the candidate G2 point in the 256 bytes of `input` from `start`
/// on. A slot that spells a number at or above the field order is reduced,
/// not refused.
pub fn bls12_381_decode_g2(input: &[u8], start: usize) -> (p: G2Point)
    requires
        start + 256 <= input.len(),
    ensures
        p@ == bls12_381_g2_at(input@, start as int),
        p.canonical(48, bls12_381_fq_modulus()),
{
    let x0 = bls12_381_fq_from_be_bytes_mod_order(&input[start..start + 64]);
    let x1 = bls12_381_fq_from_be_bytes_mod_order(&input[start + 64..start + 128]);
    let y0 = bls12_381_fq_from_be_bytes_mod_order(&input[start + 128..start + 192]);
    let y1 = bls12_381_fq_from_be_bytes_mod_order(&input[start + 192..start + 256]);
    G2Point { x: Fq2Element { c0: x0, c1: x1 }, y: Fq2Element { c0: y0, c1: y1 } }
}

/// Classifies a candidate point of G1: the point at infinity is accepted
/// unchecked; any other point must lie on the curve and then in the subgroup.
pub fn bls12_381_g1_classify(p: &G1Point) -> (kind: PointKind)
    ensures
        kind == bls12_381_g1_kind(p@),
{
    if p.is_infinity() {
        PointKind::Infinity
    } else if !bls12_381_g1_is_on_curve(p) {
        PointKind::Invalid
    } else if bls12_381_g1_is_in_correct_subgroup_assuming_on_curve(p) {
        PointKind::Valid
    } else {
        PointKind::Invalid
    }
}

/// Classifies a candidate point of G2: the point at infinity is accepted
/// unchecked; any other point must lie on the curve and then in the subgroup.
pub fn bls12_381_g2_classify(p: &G2Point) -> (kind: PointKind)
    ensures
        kind == bls12_381_g2_kind(p@),
{
    if p.is_infinity() {
        PointKind::Infinity
    } else if !bls12_381_g2_is_on_curve(p) {
        PointKind::Invalid
    } else if bls12_381_g2_is_in_correct_subgroup_assuming_on_curve(p) {
        PointKind::Valid
    } else {
        PointKind::Invalid
    }
}

/// G1-ADD: adds the two G1 points in the first 256 bytes of `input` and
/// writes the sum to the first 128 bytes of `output`.
///
/// A missing buffer, an input of less than 256 bytes or an output buffer of
/// less than 128 bytes is refused with `InvalidInput` and nothing is written.
/// A point that the validator rejects is no error: the answer is 128 zero
/// bytes, as for the point at infinity.
pub fn bls12_381_g1_add(input: Option<&[u8]>, output: Option<&mut [u8]>) -> (status:
    Bls12381Result)
    ensures
        status == Bls12381Result::of_acceptance(
            bls12_381_g1_add_accepts(bytes_of(input), bytes_of_mut(output)),
        ),
        output matches Some(out) ==> final(out)@ == buffer_after(
            bls12_381_g1_add_accepts(bytes_of(input), Some(out@)),
            out@,
            bls12_381_g1_add_output(input->0@),
        ),
        output matches Some(out) ==> final(out)@.len() == out@.len(),
{
    let bytes = match input {
        Some(bytes) => bytes,
        None => {
            return Bls12381Result::InvalidInput;
        },
    };
    let out = match output {
        Some(out) => out,
        None => {
            return Bls12381Result::InvalidInput;
        },
    };
    if bytes.len() < BLS12_381_G1_ADD_INPUT_SIZE || out.len() < BLS12_381_G1_OUTPUT_SIZE {
        return Bls12381Result::InvalidInput;
    }
    let p = bls12_381_decode_g1(bytes, 0, BLS12_381_FIELD_SLOT_SIZE);
    if bls12_381_g1_classify(&p) == PointKind::Invalid {
        write_zeros(out, BLS12_381_G1_OUTPUT_SIZE);
        return Bls12381Result::Success;
    }
    let q = bls12_381_decode_g1(bytes, 128, BLS12_381_FIELD_SLOT_SIZE);
    if bls12_381_g1_classify(&q) == PointKind::Invalid {
        write_zeros(out, BLS12_381_G1_OUTPUT_SIZE);
        return Bls12381Result::Success;
    }
    let sum = bls12_381_g1_affine_add(&p, &q);
    write_g1_point(out, &sum, BLS12_381_FIELD_SLOT_SIZE);
    Bls12381Result::Success
}

/// G1-MUL: multiplies the G1 point in the first 128 bytes of `input` by the
/// scalar in the next 32 and writes the product to the first 128 bytes of
/// `output`.
///
/// A missing buffer, an input of less than 160 bytes or an output buffer of
/// less than 128 bytes is refused with `InvalidInput` and nothing is written.
/// A point that the validator rejects is no error: the answer is 128 zero
/// bytes, as for the point at infinity.
pub fn bls12_381_g1_mul(input: Option<&[u8]>, output: Option<&mut [u8]>) -> (status:
    Bls12381Result)
    ensures
        status == Bls12381Result::of_acceptance(
            bls12_381_g1_mul_accepts(bytes_of(input), bytes_of_mut(output)),
        ),
        output matches Some(out) ==> final(out)@ == buffer_after(
            bls12_381_g1_mul_accepts(bytes_of(input), Some(out@)),
            out@,
            bls12_381_g1_mul_output(input->0@),
        ),
        output matches Some(out) ==> final(out)@.len() == out@.len(),
{
    let bytes = match input {
        Some(bytes) => bytes,
        None => {
            return Bls12381Result::InvalidInput;
        },
    };
    let out = match output {
        Some(out) => out,
        None => {
            return Bls12381Result::InvalidInput;
        },
    };
    if bytes.len() < BLS12_381_G1_MUL_INPUT_SIZE || out.len() < BLS12_381_G1_OUTPUT_SIZE {
        return Bls12381Result::InvalidInput;
    }
    let point = bls12_381_decode_g1(bytes, 0, BLS12_381_FIELD_SLOT_SIZE);
    let scalar = bls12_381_fr_from_be_bytes_mod_order(&bytes[128..160]);
    if bls12_381_g1_classify(&point) == PointKind::Invalid {
        write_zeros(out, BLS12_381_G1_OUTPUT_SIZE);
        return Bls12381Result::Success;
    }
    let product = bls12_381_g1_affine_mul(&point, &scalar);
    write_g1_point(out, &product, BLS12_381_FIELD_SLOT_SIZE);
    Bls12381Result::Success
}

/// Decodes chunk `i` of a G1-MSM input and classifies its point. Gives the
/// summand if the point is on the curve and in the subgroup; the point at
/// infinity and a rejected point give nothing.
pub fn bls12_381_decode_msm_term(input: &[u8], i: usize) -> (r: Option<MsmTerm>)
    requires
        160 * (i + 1) <= input.len(),
    ensures
        r is Some == (bls12_381_g1_kind(bls12_381_msm_term_at(input@, i as int).0)
            == PointKind::Valid),
        r matches Some(term) ==> term@ == bls12_381_msm_term_at(input@, i as int)
            && term.point.canonical(48, bls12_381_fq_modulus()) && term.scalar.canonical(
            32,
            bls12_381_fr_modulus(),
        ),
{
    let start: usize = i * BLS12_381_G1_MSM_CHUNK_SIZE;
    let point = bls12_381_decode_g1(input, start, 48);
    let scalar = bls12_381_fr_from_be_bytes_mod_order(&input[start + 96..start + 128]);
    match bls12_381_g1_classify(&point) {
        PointKind::Valid => Some(MsmTerm { point, scalar }),
        _ => None,
    }
}

/// Decodes the whole chunks of a G1-MSM input in order and keeps the
/// summands whose point is on the curve and in the subgroup.
pub fn bls12_381_decode_msm_terms(input: &[u8]) -> (terms: Vec<MsmTerm>)
    ensures
        msm_terms_view(terms@) == bls12_381_msm_terms(input@, input@.len() / 160),
        forall|i: int|
            0 <= i < terms@.len() ==> (#[trigger] terms@[i]).point.canonical(
                48,
                bls12_381_fq_modulus(),
            ) && terms@[i].scalar.canonical(32, bls12_381_fr_modulus()) && bls12_381_g1_kind(
                terms@[i].point@,
            ) == PointKind::Valid,
{
    let chunks: usize = input.len() / BLS12_381_G1_MSM_CHUNK_SIZE;
    let mut terms: Vec<MsmTerm> = Vec::with_capacity(chunks);
    let mut i: usize = 0;
    while i < chunks
        invariant
            i <= chunks,
            chunks == input.len() / 160,
            msm_terms_view(terms@) == bls12_381_msm_terms(input@, i as nat),
            forall|j: int|
                0 <= j < terms@.len() ==> (#[trigger] terms@[j]).point.canonical(
                    48,
                    bls12_381_fq_modulus(),
                ) && terms@[j].scalar.canonical(32, bls12_381_fr_modulus()) && bls12_381_g1_kind(
                    terms@[j].point@,
                ) == PointKind::Valid,
        decreases chunks - i,
    {
        let ghost kept = terms@;
        match bls12_381_decode_msm_term(input, i) {
            Some(term) => {
                terms.push(term);
                assert(msm_terms_view(terms@) =~= msm_terms_view(kept).push(term@));
            },
            None => {},
        }
        i += 1;
    }
    terms
}

/// G1-MSM: sums the products `scalar * point` over the chunks of `input`,
/// 160 bytes each, and writes the sum to the first 128 bytes of `output`.
///
/// A missing buffer, an input whose length is no multiple of 160, or an
/// output buffer of less than 128 bytes, is refused with `InvalidInput` and
/// nothing is written. A chunk whose point is the point at infinity, or one
/// that the validator rejects, is left out of the sum. The sum of no chunks
/// is the point at infinity.
pub fn bls12_381_g1_multiexp(input: Option<&[u8]>, output: Option<&mut [u8]>) -> (status:
    Bls12381Result)
    ensures
        status == Bls12381Result::of_acceptance(
            bls12_381_g1_msm_accepts(bytes_of(input), bytes_of_mut(output)),
        ),
        output matches Some(out) ==> final(out)@ == buffer_after(
            bls12_381_g1_msm_accepts(bytes_of(input), Some(out@)),
            out@,
            bls12_381_g1_msm_output(input->0@),
        ),
        output matches Some(out) ==> final(out)@.len() == out@.len(),
{
    let bytes = match input {
        Some(bytes) => bytes,
        None => {
            return Bls12381Result::InvalidInput;
        },
    };
    let out = match output {
        Some(out) => out,
        None => {
            return Bls12381Result::InvalidInput;
        },
    };
    if bytes.len() % BLS12_381_G1_MSM_CHUNK_SIZE != 0 || out.len() < BLS12_381_G1_OUTPUT_SIZE {
        return Bls12381Result::InvalidInput;
    }
    let terms = bls12_381_decode_msm_terms(bytes);
    if terms.len() == 0 {
        write_zeros(out, BLS12_381_G1_OUTPUT_SIZE);
    } else {
        let sum = bls12_381_g1_affine_msm(&terms);
        write_g1_point(out, &sum, BLS12_381_FIELD_SLOT_SIZE);
    }
    Bls12381Result::Success
}

/// Decodes chunk `i` of a PAIRING-CHECK input and classifies its two points.
/// Gives the pair if the validator accepts both, else nothing; the second
/// point is not looked at once the first is rejected.
pub fn bls12_381_decode_pairing_term(input: &[u8], i: usize) -> (r: Option<PairingTerm>)
    requires
        384 * (i + 1) <= input.len(),
    ensures
        r is Some == bls12_381_pairing_term_accepted(input@, i as int),
        r matches Some(term) ==> term@ == bls12_381_pairing_term_at(input@, i as int)
            && term.canonical(48, bls12_381_fq_modulus()),
{
    let start: usize = i * BLS12_381_PAIRING_CHUNK_SIZE;
    let g1 = bls12_381_decode_g1(input, start, BLS12_381_FIELD_SLOT_SIZE);
    if bls12_381_g1_classify(&g1) == PointKind::Invalid {
        return None;
    }
    let g2 = bls12_381_decode_g2(input, start + 128);
    if bls12_381_g2_classify(&g2) == PointKind::Invalid {
        return None;
    }
    Some(PairingTerm { g1, g2 })
}

/// Decodes the whole chunks of a PAIRING-CHECK input in order. Gives all
/// the pairs if the validator accepts every point, and nothing as soon as it
/// rejects one; no chunk behind that one is looked at.
pub fn bls12_381_decode_pairing_terms(input: &[u8]) -> (r: Option<Vec<PairingTerm>>)
    ensures
        r is Some == (forall|i: int|
            0 <= i < input@.len() / 384 ==> bls12_381_pairing_term_accepted(input@, i)),
        r matches Some(terms) ==> pairing_terms_view(terms@) == bls12_381_pairing_terms(input@)
            && terms@.len() == input@.len() / 384 && forall|i: int|
            0 <= i < terms@.len() ==> (#[trigger] terms@[i]).canonical(
                48,
                bls12_381_fq_modulus(),
            ),
{
    let pairs: usize = input.len() / BLS12_381_PAIRING_CHUNK_SIZE;
    let mut terms: Vec<PairingTerm> = Vec::with_capacity(pairs);
    let mut i: usize = 0;
    while i < pairs
        invariant
            i <= pairs,
            pairs == input.len() / 384,
            terms@.len() == i,
            forall|j: int| 0 <= j < i ==> bls12_381_pairing_term_accepted(input@, j),
            forall|j: int|
                0 <= j < i ==> (#[trigger] terms@[j])@ == bls12_381_pairing_term_at(input@, j)
                    && terms@[j].canonical(48, bls12_381_fq_modulus()),
        decreases pairs - i,
    {
        match bls12_381_decode_pairing_term(input, i) {
            Some(term) => {
                terms.push(term);
            },
            None => {
                return None;
            },
        }
        i += 1;
    }
    assert(pairing_terms_view(terms@) =~= bls12_381_pairing_terms(input@));
    Some(terms)
}

/// PAIRING-CHECK: decides whether the product of the pairings of the
/// (G1, G2) pairs in `input`, 384 bytes each, is the identity of the target
/// group, and writes the answer as a 32-byte word to the start of `output`.
///
/// A missing buffer, an input whose length is no multiple of 384, or an
/// output buffer of less than 32 bytes, is refused with `InvalidInput` and
/// nothing is written. The empty input gives true. A point at infinity
/// contributes the identity. The first point that the validator rejects ends
/// the call with the answer false; that is no error.
pub fn bls12_381_pairing(input: Option<&[u8]>, output: Option<&mut [u8]>) -> (status:
    Bls12381Result)
    ensures
        status == Bls12381Result::of_acceptance(
            bls12_381_pairing_accepts(bytes_of(input), bytes_of_mut(output)),
        ),
        output matches Some(out) ==> final(out)@ == buffer_after(
            bls12_381_pairing_accepts(bytes_of(input), Some(out@)),
            out@,
            bls12_381_pairing_output(input->0@),
        ),
        output matches Some(out) ==> final(out)@.len() == out@.len(),
{
    let bytes = match input {
        Some(bytes) => bytes,
        None => {
            return Bls12381Result::InvalidInput;
        },
    };
    let out = match output {
        Some(out) => out,
        None => {
            return Bls12381Result::InvalidInput;
        },
    };
    if bytes.len() % BLS12_381_PAIRING_CHUNK_SIZE != 0 || out.len()
        < BLS12_381_PAIRING_OUTPUT_SIZE {
        return Bls12381Result::InvalidInput;
    }
    if bytes.len() == 0 {
        write_bool_word(out, true);
        return Bls12381Result::Success;
    }
    match bls12_381_decode_pairing_terms(bytes) {
        Some(terms) => {
            assert forall|i: int| 0 <= i < terms@.len() implies bls12_381_g1_kind(
                (#[trigger] terms@[i]).g1@,
            ) != PointKind::Invalid && bls12_381_g2_kind(terms@[i].g2@)
                != PointKind::Invalid by {
                assert(pairing_terms_view(terms@)[i] == bls12_381_pairing_terms(bytes@)[i]);
                assert(bls12_381_pairing_term_accepted(bytes@, i));
            }
            let holds = bls12_381_multi_pairing_is_one(&terms);
            write_bool_word(out, holds);
        },
        None => {
            write_bool_word(out, false);
        },
    }
    Bls12381Result::Success
}

} // verus!
