//! The arithmetic of BN254, taken from the arkworks crates. The functions
//! of this file that call those crates are believed, not proved: each states
//! what the crates' source and documentation give for the call that its body
//! makes. The functions without a body name what a call returns where that
//! takes more than a few lines to say.
//!
//! Field elements cross this boundary as big-endian bytes. On the way in a
//! function rebuilds each element with `from_be_bytes_mod_order`, which gives
//! the element that the bytes spell; on the way out it writes each element
//! with `into_bigint` and `to_bytes_be`, which give the bytes of its
//! representative below the field order. A point is built from its two
//! coordinates with `new_unchecked`; in these crates the point whose
//! coordinates are both zero is the point at infinity.

use crate::encoding::be_value;
use crate::point::{
    g1_on_curve, g2_on_curve, pairing_terms_view, point_kind, FieldElement, Fq2, Fq2Element,
    G1Point, G2Point, PairingTerm, PointKind, G1, G2,
};
use ark_bn254::{Bn254, Fq, Fq12, Fr, G1Affine, G2Affine};
use ark_ec::pairing::{Pairing, PairingOutput};
use ark_ec::CurveGroup;
use ark_ff::{BigInteger, Field, PrimeField};
use vstd::prelude::*;

verus! {

/// The order of the base field of BN254.
pub open spec fn bn254_fq_modulus() -> nat {
    21888242871839275222246405745257275088696311157297823662689037894645226208583nat
}

/// The order of the scalar field of BN254, which is the order of G1 and G2.
pub open spec fn bn254_fr_modulus() -> nat {
    21888242871839275222246405745257275088548364400416034343698204186575808495617nat
}

/// The constant term of the G2 curve equation, `3 / (9 + u)`.
pub open spec fn bn254_g2_coeff_b() -> Fq2 {
    Fq2 {
        c0: 19485874751759354771024239261021720505790618469301721065564631296452457478373nat,
        c1: 266929791119991161246907387137283842545076965332900288569378510910307636690nat,
    }
}

/// G1 of BN254 is the curve `y^2 = x^3 + 3` over the base field.
pub open spec fn bn254_g1_on_curve(p: G1) -> bool {
    g1_on_curve(p, 3, bn254_fq_modulus())
}

/// G2 of BN254 is the curve `y^2 = x^3 + 3 / (9 + u)` over the quadratic
/// extension of the base field.
pub open spec fn bn254_g2_on_curve(p: G2) -> bool {
    g2_on_curve(p, bn254_g2_coeff_b(), bn254_fq_modulus())
}

/// Whether a point of the G2 curve lies in the subgroup of prime order, as
/// `is_in_correct_subgroup_assuming_on_curve` of arkworks decides it.
pub uninterp spec fn bn254_g2_in_subgroup(p: G2) -> bool;

/// The validator's verdict on a candidate point of G1. The cofactor of G1
/// is one: every point of the curve is in the subgroup.
pub open spec fn bn254_g1_kind(p: G1) -> PointKind {
    point_kind(p.is_infinity(), bn254_g1_on_curve(p), true)
}

/// The validator's verdict on a candidate point of G2.
pub open spec fn bn254_g2_kind(p: G2) -> PointKind {
    point_kind(p.is_infinity(), bn254_g2_on_curve(p), bn254_g2_in_subgroup(p))
}

/// The affine coordinates of `scalar` times `p` in G1, as arkworks computes
/// and normalizes them.
pub uninterp spec fn bn254_g1_scalar_mul(p: G1, scalar: nat) -> G1;

/// Whether the product of the pairings of `terms` is the identity of the
/// target group, as `multi_pairing` of arkworks computes it.
pub uninterp spec fn bn254_pairing_product_is_one(terms: Seq<(G1, G2)>) -> bool;

/// `PrimeField::from_be_bytes_mod_order` on `ark_bn254::Fq`: the bytes read as
/// a big-endian number and reduced modulo the field order. The result is
/// handed back as the 32 big-endian bytes of `into_bigint`.
#[verifier::external_body]
pub(crate) fn bn254_fq_from_be_bytes_mod_order(bytes: &[u8]) -> (r: FieldElement)
    ensures
        r.canonical(32, bn254_fq_modulus()),
        r@ == be_value(bytes@) % bn254_fq_modulus(),
{
    FieldElement { bytes: Fq::from_be_bytes_mod_order(bytes).into_bigint().to_bytes_be() }
}

/// `PrimeField::from_be_bytes_mod_order` on `ark_bn254::Fr`: the bytes read as
/// a big-endian number and reduced modulo the group order. The result is
/// handed back as the 32 big-endian bytes of `into_bigint`.
#[verifier::external_body]
pub(crate) fn bn254_fr_from_be_bytes_mod_order(bytes: &[u8]) -> (r: FieldElement)
    ensures
        r.canonical(32, bn254_fr_modulus()),
        r@ == be_value(bytes@) % bn254_fr_modulus(),
{
    FieldElement { bytes: Fr::from_be_bytes_mod_order(bytes).into_bigint().to_bytes_be() }
}

/// `Affine::is_on_curve` on `ark_bn254::G1Affine`: the curve equation holds
/// of the coordinates, or both are zero.
#[verifier::external_body]
pub(crate) fn bn254_g1_is_on_curve(p: &G1Point) -> (r: bool)
    ensures
        r == bn254_g1_on_curve(p@),
{
    let x = Fq::from_be_bytes_mod_order(&p.x.bytes);
    let y = Fq::from_be_bytes_mod_order(&p.y.bytes);
    G1Affine::new_unchecked(x, y).is_on_curve()
}

/// `Affine::is_in_correct_subgroup_assuming_on_curve` on
/// `ark_bn254::G1Affine`. The cofactor of G1 is one, and the crate answers
/// `true` for every point.
#[verifier::external_body]
pub(crate) fn bn254_g1_is_in_correct_subgroup_assuming_on_curve(p: &G1Point) -> (r: bool)
    requires
        bn254_g1_on_curve(p@),
    ensures
        r,
{
    let x = Fq::from_be_bytes_mod_order(&p.x.bytes);
    let y = Fq::from_be_bytes_mod_order(&p.y.bytes);
    G1Affine::new_unchecked(x, y).is_in_correct_subgroup_assuming_on_curve()
}

/// `Affine::is_on_curve` on `ark_bn254::G2Affine`: the curve equation holds
/// of the coordinates, or both are zero.
#[verifier::external_body]
pub(crate) fn bn254_g2_is_on_curve(p: &G2Point) -> (r: bool)
    ensures
        r == bn254_g2_on_curve(p@),
{
    let fq = |e: &FieldElement| Fq::from_be_bytes_mod_order(&e.bytes);
    let x = ark_bn254::Fq2::new(fq(&p.x.c0), fq(&p.x.c1));
    let y = ark_bn254::Fq2::new(fq(&p.y.c0), fq(&p.y.c1));
    G2Affine::new_unchecked(x, y).is_on_curve()
}

/// `Affine::is_in_correct_subgroup_assuming_on_curve` on
/// `ark_bn254::G2Affine`, for a point of the curve.
#[verifier::external_body]
pub(crate) fn bn254_g2_is_in_correct_subgroup_assuming_on_curve(p: &G2Point) -> (r: bool)
    requires
        bn254_g2_on_curve(p@),
    ensures
        r == bn254_g2_in_subgroup(p@),
{
    let fq = |e: &FieldElement| Fq::from_be_bytes_mod_order(&e.bytes);
    let x = ark_bn254::Fq2::new(fq(&p.x.c0), fq(&p.x.c1));
    let y = ark_bn254::Fq2::new(fq(&p.y.c0), fq(&p.y.c1));
    G2Affine::new_unchecked(x, y).is_in_correct_subgroup_assuming_on_curve()
}

/// The product of an `ark_bn254::G1Affine` and an `ark_bn254::Fr`, brought
/// back to affine coordinates with `into_affine`. Multiplying by zero, or
/// multiplying the point at infinity, gives the point at infinity, whose
/// coordinates are both zero.
#[verifier::external_body]
pub(crate) fn bn254_g1_affine_mul(p: &G1Point, scalar: &FieldElement) -> (r: G1Point)
    requires
        p.canonical(32, bn254_fq_modulus()),
        scalar.canonical(32, bn254_fr_modulus()),
        bn254_g1_kind(p@) != PointKind::Invalid,
    ensures
        r.canonical(32, bn254_fq_modulus()),
        r@ == bn254_g1_scalar_mul(p@, scalar@),
        scalar@ == 0 || p@.is_infinity() ==> r@.is_infinity(),
{
    let x = Fq::from_be_bytes_mod_order(&p.x.bytes);
    let y = Fq::from_be_bytes_mod_order(&p.y.bytes);
    let s = Fr::from_be_bytes_mod_order(&scalar.bytes);
    let r = (G1Affine::new_unchecked(x, y) * s).into_affine();
    G1Point {
        x: FieldElement { bytes: r.x.into_bigint().to_bytes_be() },
        y: FieldElement { bytes: r.y.into_bigint().to_bytes_be() },
    }
}

/// `Pairing::multi_pairing` on `ark_bn254::Bn254`, compared with the identity
/// of the target group. It is called on accepted points only: each is the
/// point at infinity or a point of its subgroup.
#[verifier::external_body]
pub(crate) fn bn254_multi_pairing_is_one(terms: &Vec<PairingTerm>) -> (r: bool)
    requires
        forall|i: int|
            0 <= i < terms@.len() ==> (#[trigger] terms@[i]).canonical(32, bn254_fq_modulus())
                && bn254_g1_kind(terms@[i].g1@) != PointKind::Invalid && bn254_g2_kind(
                terms@[i].g2@,
            ) != PointKind::Invalid,
    ensures
        r == bn254_pairing_product_is_one(pairing_terms_view(terms@)),
{
    let fq = |e: &FieldElement| Fq::from_be_bytes_mod_order(&e.bytes);
    let fq2 = |e: &Fq2Element| ark_bn254::Fq2::new(fq(&e.c0), fq(&e.c1));
    let g1 = terms.iter().map(|t| G1Affine::new_unchecked(fq(&t.g1.x), fq(&t.g1.y)));
    let g2 = terms.iter().map(|t| G2Affine::new_unchecked(fq2(&t.g2.x), fq2(&t.g2.y)));
    Bn254::multi_pairing(g1, g2) == PairingOutput(Fq12::ONE)
}

} // verus!
