//! What holds of the precompiles for every input, stated over the functions
//! that their contracts are written in.

use crate::bls12_381::{
    bls12_381_fr, bls12_381_g1_add_accepts, bls12_381_g1_add_output, bls12_381_g1_at,
    bls12_381_g1_msm_accepts, bls12_381_g1_msm_output, bls12_381_g1_mul_accepts,
    bls12_381_g1_mul_output, bls12_381_msm_term_at, bls12_381_msm_terms,
    bls12_381_pairing_accepts, bls12_381_pairing_output,
};
use crate::bls12_381_curve::{bls12_381_fq_modulus, bls12_381_g1_kind};
use crate::bn254::{
    bn254_ecmul_accepts, bn254_ecmul_output, bn254_ecmul_point, bn254_ecmul_scalar,
    bn254_ecpairing_accepts, bn254_ecpairing_output, bn254_g1_at,
};
use crate::bn254_curve::{bn254_fq_modulus, bn254_g1_kind};
use crate::encoding::{
    be_bytes, be_value, buffer_after, lemma_be_bytes_len, lemma_be_bytes_of_value,
    lemma_be_round_trip, lemma_be_value_bound, lemma_be_value_leading_zeros,
    lemma_be_value_zeros, overwrite_prefix, zero_extend, zeros,
};
use crate::point::{encode_g1, lemma_encode_g1_len, PointKind, G1};
use crate::status::{Bls12381Result, Bn254Result};
use vstd::arithmetic::div_mod::*;
use vstd::arithmetic::power::*;
use vstd::prelude::*;

verus! {

/// A slot of 32 bytes holds every number below `2^256`, and so every element
/// of the base field of BN254.
pub proof fn lemma_slot_32_holds_field()
    ensures
        pow(256, 32) == 0x1_0000000000000000_0000000000000000_0000000000000000_0000000000000000int,
        bn254_fq_modulus() < pow(256, 32),
{
    lemma_pow1(256);
    lemma_pow_adds(256, 1, 1);
    lemma_pow_adds(256, 2, 2);
    lemma_pow_adds(256, 4, 4);
    lemma_pow_adds(256, 8, 8);
    lemma_pow_adds(256, 16, 16);
    let e16 = pow(256, 2);
    let e32 = pow(256, 4);
    let e64 = pow(256, 8);
    let e128 = pow(256, 16);
    let e256 = pow(256, 32);
    assert(e16 == 0x1_0000);
    assert(e32 == 0x1_0000_0000) by (nonlinear_arith)
        requires
            e32 == e16 * e16,
            e16 == 0x1_0000,
    ;
    assert(e64 == 0x1_0000_0000_0000_0000) by (nonlinear_arith)
        requires
            e64 == e32 * e32,
            e32 == 0x1_0000_0000,
    ;
    assert(e128 == 0x1_0000000000000000_0000000000000000int) by (nonlinear_arith)
        requires
            e128 == e64 * e64,
            e64 == 0x1_0000_0000_0000_0000,
    ;
    assert(e256 == 0x1_0000000000000000_0000000000000000_0000000000000000_0000000000000000int)
        by (nonlinear_arith)
        requires
            e256 == e128 * e128,
            e128 == 0x1_0000000000000000_0000000000000000int,
    ;
}

/// A slot of 64 bytes holds every element of the base field of BLS12-381,
/// which lies below `2^384`.
pub proof fn lemma_slot_64_holds_field()
    ensures
        bls12_381_fq_modulus() < pow(256, 64),
{
    lemma_slot_32_holds_field();
    lemma_pow_adds(256, 32, 32);
    let e256 = pow(256, 32);
    assert(bls12_381_fq_modulus() < e256 * e256) by (nonlinear_arith)
        requires
            e256
                == 0x1_0000000000000000_0000000000000000_0000000000000000_0000000000000000int,
            bls12_381_fq_modulus()
                == 4002409555221667393417789825735904156556882819939007885332058136124031650490837864442687629129015664037894272559787nat,
    ;
}

/// Every operation answers with as many bytes as its output size says,
/// whatever the input: 64 for ECMUL, 128 for the G1 operations of BLS12-381,
/// 32 for the two pairing checks.
pub proof fn lemma_output_sizes(input: Seq<u8>)
    ensures
        bn254_ecmul_output(input).len() == 64,
        bn254_ecpairing_output(input).len() == 32,
        bls12_381_g1_add_output(input).len() == 128,
        bls12_381_g1_mul_output(input).len() == 128,
        bls12_381_g1_msm_output(input).len() == 128,
        bls12_381_pairing_output(input).len() == 32,
{
    assert forall|p: G1, slot: nat| (#[trigger] encode_g1(p, slot)).len() == 2 * slot by {
        lemma_encode_g1_len(p, slot);
    }
}

/// Multiplying by the zero scalar, or multiplying the point at infinity,
/// makes ECMUL answer with 64 zero bytes.
pub proof fn lemma_bn254_ecmul_zero_scalar_or_identity(input: Seq<u8>)
    requires
        bn254_ecmul_scalar(input) == 0 || bn254_ecmul_point(input).is_infinity(),
    ensures
        bn254_ecmul_output(input) == zeros(64),
{
}

/// Multiplying by the zero scalar, or multiplying the point at infinity,
/// makes G1-MUL answer with 128 zero bytes.
pub proof fn lemma_bls12_381_g1_mul_zero_scalar_or_identity(input: Seq<u8>)
    requires
        bls12_381_fr(input.subrange(128, 160)) == 0 || bls12_381_g1_at(input, 0, 64).is_infinity(),
    ensures
        bls12_381_g1_mul_output(input) == zeros(128),
{
}

/// A point that the validator rejects is no error for ECMUL: the call
/// succeeds and writes 64 zero bytes.
pub proof fn lemma_bn254_ecmul_rejected_point(input: Seq<u8>, output: Seq<u8>)
    requires
        output.len() >= 64,
        bn254_g1_kind(bn254_ecmul_point(input)) == PointKind::Invalid,
    ensures
        Bn254Result::of_acceptance(bn254_ecmul_accepts(Some(input), Some(output)))
            == Bn254Result::Success,
        buffer_after(
            bn254_ecmul_accepts(Some(input), Some(output)),
            output,
            bn254_ecmul_output(input),
        ) == overwrite_prefix(output, zeros(64)),
{
}

/// A point that the validator rejects is no error for G1-MUL: the call
/// succeeds and writes 128 zero bytes.
pub proof fn lemma_bls12_381_g1_mul_rejected_point(input: Seq<u8>, output: Seq<u8>)
    requires
        input.len() >= 160,
        output.len() >= 128,
        bls12_381_g1_kind(bls12_381_g1_at(input, 0, 64)) == PointKind::Invalid,
    ensures
        Bls12381Result::of_acceptance(bls12_381_g1_mul_accepts(Some(input), Some(output)))
            == Bls12381Result::Success,
        buffer_after(
            bls12_381_g1_mul_accepts(Some(input), Some(output)),
            output,
            bls12_381_g1_mul_output(input),
        ) == overwrite_prefix(output, zeros(128)),
{
}

/// One rejected point is enough for G1-ADD to succeed with 128 zero bytes.
pub proof fn lemma_bls12_381_g1_add_rejected_point(input: Seq<u8>, output: Seq<u8>)
    requires
        input.len() >= 256,
        output.len() >= 128,
        bls12_381_g1_kind(bls12_381_g1_at(input, 0, 64)) == PointKind::Invalid
            || bls12_381_g1_kind(bls12_381_g1_at(input, 128, 64)) == PointKind::Invalid,
    ensures
        Bls12381Result::of_acceptance(bls12_381_g1_add_accepts(Some(input), Some(output)))
            == Bls12381Result::Success,
        buffer_after(
            bls12_381_g1_add_accepts(Some(input), Some(output)),
            output,
            bls12_381_g1_add_output(input),
        ) == overwrite_prefix(output, zeros(128)),
{
}

/// Adding the point at infinity changes nothing: where the first point of a
/// G1-ADD input is the point at infinity and the second is accepted, the
/// answer is the second point in the output layout. Where the caller wrote
/// that point in the output layout, the answer is those very bytes.
pub proof fn lemma_bls12_381_g1_add_identity(input: Seq<u8>, q: G1)
    requires
        input.len() >= 256,
        bls12_381_g1_at(input, 0, 64).is_infinity(),
        bls12_381_g1_kind(bls12_381_g1_at(input, 128, 64)) != PointKind::Invalid,
        q.x < bls12_381_fq_modulus(),
        q.y < bls12_381_fq_modulus(),
        input.subrange(128, 256) == encode_g1(q, 64),
    ensures
        bls12_381_g1_at(input, 128, 64) == q,
        bls12_381_g1_add_output(input) == input.subrange(128, 256),
{
    let tail = input.subrange(128, 256);
    lemma_bls12_381_g1_round_trip(q);
    assert(input.subrange(128, 192) =~= tail.subrange(0, 64));
    assert(input.subrange(192, 256) =~= tail.subrange(64, 128));
}

/// The empty product of pairings is the identity: ECPAIRING on the empty
/// input succeeds and answers true.
pub proof fn lemma_bn254_ecpairing_empty_input(output: Seq<u8>)
    requires
        output.len() >= 32,
    ensures
        Bn254Result::of_acceptance(bn254_ecpairing_accepts(Some(Seq::empty()), Some(output)))
            == Bn254Result::Success,
        bn254_ecpairing_output(Seq::empty()) == zeros(31).push(1u8),
{
}

/// The empty product of pairings is the identity: PAIRING-CHECK on the empty
/// input succeeds and answers true.
pub proof fn lemma_bls12_381_pairing_empty_input(output: Seq<u8>)
    requires
        output.len() >= 32,
    ensures
        Bls12381Result::of_acceptance(
            bls12_381_pairing_accepts(Some(Seq::empty()), Some(output)),
        ) == Bls12381Result::Success,
        bls12_381_pairing_output(Seq::empty()) == zeros(31).push(1u8),
{
}

/// ECMUL takes an input of any length, and reads one of less than 96 bytes
/// as if zero bytes followed it.
pub proof fn lemma_bn254_ecmul_short_input(input: Seq<u8>, output: Seq<u8>)
    requires
        output.len() >= 64,
    ensures
        bn254_ecmul_accepts(Some(input), Some(output)),
        bn254_ecmul_output(input) == bn254_ecmul_output(zero_extend(input, 96)),
{
    assert(zero_extend(zero_extend(input, 96), 96) =~= zero_extend(input, 96));
}

/// ECMUL on the empty input multiplies the point at infinity by zero and
/// answers with 64 zero bytes.
pub proof fn lemma_bn254_ecmul_empty_input()
    ensures
        bn254_ecmul_point(Seq::empty()).is_infinity(),
        bn254_ecmul_scalar(Seq::empty()) == 0,
        bn254_ecmul_output(Seq::empty()) == zeros(64),
{
    let padded = zero_extend(Seq::empty(), 96);
    assert(padded.subrange(0, 32) =~= zeros(32));
    assert(padded.subrange(32, 64) =~= zeros(32));
    assert(padded.subrange(64, 96) =~= zeros(32));
    lemma_be_value_zeros(32);
    lemma_small_mod(0, bn254_fq_modulus());
}

/// The summands of G1-MSM are empty when no chunk holds a point that is on
/// the curve and in the subgroup.
pub proof fn lemma_bls12_381_msm_terms_none_valid(input: Seq<u8>, n: nat)
    requires
        forall|i: int|
            0 <= i < n ==> bls12_381_g1_kind(#[trigger] bls12_381_msm_term_at(input, i).0)
                != PointKind::Valid,
    ensures
        bls12_381_msm_terms(input, n).len() == 0,
    decreases n,
{
    if n > 0 {
        lemma_bls12_381_msm_terms_none_valid(input, (n - 1) as nat);
        assert(bls12_381_g1_kind(bls12_381_msm_term_at(input, n - 1).0) != PointKind::Valid);
    }
}

/// G1-MSM answers with 128 zero bytes when every point is the point at
/// infinity or is rejected, and so when there is no chunk at all.
pub proof fn lemma_bls12_381_msm_nothing_to_sum(input: Seq<u8>)
    requires
        forall|i: int|
            0 <= i < input.len() / 160 ==> bls12_381_g1_kind(
                #[trigger] bls12_381_msm_term_at(input, i).0,
            ) != PointKind::Valid,
    ensures
        bls12_381_g1_msm_output(input) == zeros(128),
{
    lemma_bls12_381_msm_terms_none_valid(input, input.len() / 160);
}

/// G1-MSM on the empty input succeeds and answers with 128 zero bytes.
pub proof fn lemma_bls12_381_msm_empty_input(output: Seq<u8>)
    requires
        output.len() >= 128,
    ensures
        Bls12381Result::of_acceptance(bls12_381_g1_msm_accepts(Some(Seq::empty()), Some(output)))
            == Bls12381Result::Success,
        bls12_381_g1_msm_output(Seq::empty()) == zeros(128),
{
    lemma_bls12_381_msm_nothing_to_sum(Seq::empty());
}

/// Writing a coordinate into a slot that is wide enough and reading the slot
/// back recovers it: the slot spells the same number, and its last bytes are
/// the coordinate's own bytes, with zero bytes before them.
pub proof fn lemma_slot_round_trip(bytes: Seq<u8>, width: nat)
    requires
        bytes.len() <= width,
    ensures
        be_value(bytes) < pow(256, width),
        be_bytes(be_value(bytes), width) == zeros((width - bytes.len()) as nat) + bytes,
        be_bytes(be_value(bytes), width).skip(width - bytes.len()) == bytes,
        be_value(be_bytes(be_value(bytes), width)) == be_value(bytes),
{
    let pad = (width - bytes.len()) as nat;
    lemma_be_value_bound(bytes);
    lemma_pow_increases(256, bytes.len(), width);
    lemma_be_bytes_of_value(bytes, pad);
    lemma_be_value_leading_zeros(pad, bytes);
    assert((zeros(pad) + bytes).skip(pad as int) =~= bytes);
}

/// Decoding the output layout of a BN254 point gives the point back.
pub proof fn lemma_bn254_g1_round_trip(p: G1)
    requires
        p.x < bn254_fq_modulus(),
        p.y < bn254_fq_modulus(),
    ensures
        encode_g1(p, 32).len() == 64,
        bn254_g1_at(encode_g1(p, 32), 0) == p,
{
    let q = bn254_fq_modulus();
    let bytes = encode_g1(p, 32);
    lemma_slot_32_holds_field();
    lemma_be_bytes_len(p.x, 32);
    lemma_be_bytes_len(p.y, 32);
    lemma_be_round_trip(p.x, 32);
    lemma_be_round_trip(p.y, 32);
    lemma_small_mod(p.x, q);
    lemma_small_mod(p.y, q);
    if p.is_infinity() {
        assert(bytes.subrange(0, 32) =~= zeros(32));
        assert(bytes.subrange(32, 64) =~= zeros(32));
        lemma_be_value_zeros(32);
    } else {
        assert(bytes.subrange(0, 32) =~= be_bytes(p.x, 32));
        assert(bytes.subrange(32, 64) =~= be_bytes(p.y, 32));
    }
}

/// Decoding the output layout of a BLS12-381 point gives the point back.
pub proof fn lemma_bls12_381_g1_round_trip(p: G1)
    requires
        p.x < bls12_381_fq_modulus(),
        p.y < bls12_381_fq_modulus(),
    ensures
        encode_g1(p, 64).len() == 128,
        bls12_381_g1_at(encode_g1(p, 64), 0, 64) == p,
{
    let q = bls12_381_fq_modulus();
    let bytes = encode_g1(p, 64);
    lemma_slot_64_holds_field();
    lemma_be_bytes_len(p.x, 64);
    lemma_be_bytes_len(p.y, 64);
    lemma_be_round_trip(p.x, 64);
    lemma_be_round_trip(p.y, 64);
    lemma_small_mod(p.x, q);
    lemma_small_mod(p.y, q);
    if p.is_infinity() {
        assert(bytes.subrange(0, 64) =~= zeros(64));
        assert(bytes.subrange(64, 128) =~= zeros(64));
        lemma_be_value_zeros(64);
    } else {
        assert(bytes.subrange(0, 64) =~= be_bytes(p.x, 64));
        assert(bytes.subrange(64, 128) =~= be_bytes(p.y, 64));
    }
}

} // verus!
