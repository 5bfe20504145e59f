//! The arithmetic of BLS12-381, taken from the arkworks crates. The functions
//! of this file that call those crates are believed, not proved: each states
//! what the crates' source and documentation give for the call that its body
//! makes. The functions without a body name what a call returns where that
//! takes more than a few lines to say.
//!
//! Field elements cross this boundary as big-endian bytes. On the way in a
//! function rebuilds each element with `from_be_bytes_mod_order`, which gives
//! the element that the bytes spell; on the way out it writes each element
//! with `into_bigint` and `to_bytes_be`, which give the bytes of its
//! representative below the field order. A point is built from its two
//! coordinates with `new_unchecked`; in these crates the point whose
//! coordinates are both zero is the point at infinity.

use crate::encoding::be_value;
use crate::point::{
    g1_on_curve, g2_on_curve, msm_terms_view, pairing_terms_view, point_kind, FieldElement, Fq2,
    Fq2Element, G1Point, G2Point, MsmTerm, PairingTerm, PointKind, G1, G2,
};
use ark_bls12_381::{Bls12_381, Fq, Fq12, Fr, G1Affine, G1Projective, G2Affine};
use ark_ec::pairing::{Pairing, PairingOutput};
use ark_ec::{CurveGroup, VariableBaseMSM};
use ark_ff::{BigInteger, Field, PrimeField};
use vstd::prelude::*;

verus! {

/// The order of the base field of BLS12-381.
pub open spec fn bls12_381_fq_modulus() -> nat {
    4002409555221667393417789825735904156556882819939007885332058136124031650490837864442687629129015664037894272559787nat
}

/// The order of the scalar field of BLS12-381, which is the order of G1 and G2.
pub open spec fn bls12_381_fr_modulus() -> nat {
    52435875175126190479447740508185965837690552500527637822603658699938581184513nat
}

/// G1 of BLS12-381 lies on the curve `y^2 = x^3 + 4` over the base field.
pub open spec fn bls12_381_g1_on_curve(p: G1) -> bool {
    g1_on_curve(p, 4, bls12_381_fq_modulus())
}

/// G2 of BLS12-381 lies on the curve `y^2 = x^3 + 4 + 4u` over the quadratic
/// extension of the base field.
pub open spec fn bls12_381_g2_on_curve(p: G2) -> bool {
    g2_on_curve(p, Fq2 { c0: 4, c1: 4 }, bls12_381_fq_modulus())
}

/// Whether a point of the G1 curve lies in the subgroup of prime order, as
/// `is_in_correct_subgroup_assuming_on_curve` of arkworks decides it.
pub uninterp spec fn bls12_381_g1_in_subgroup(p: G1) -> bool;

/// Whether a point of the G2 curve lies in the subgroup of prime order, as
/// `is_in_correct_subgroup_assuming_on_curve` of arkworks decides it.
pub uninterp spec fn bls12_381_g2_in_subgroup(p: G2) -> bool;

/// The validator's verdict on a candidate point of G1.
pub open spec fn bls12_381_g1_kind(p: G1) -> PointKind {
    point_kind(p.is_infinity(), bls12_381_g1_on_curve(p), bls12_381_g1_in_subgroup(p))
}

/// The validator's verdict on a candidate point of G2.
pub open spec fn bls12_381_g2_kind(p: G2) -> PointKind {
    point_kind(p.is_infinity(), bls12_381_g2_on_curve(p), bls12_381_g2_in_subgroup(p))
}

/// The affine coordinates of `p + q` in G1, as arkworks computes and
/// normalizes them.
pub uninterp spec fn bls12_381_g1_add_points(p: G1, q: G1) -> G1;

/// The affine coordinates of `scalar` times `p` in G1, as arkworks computes
/// and normalizes them.
pub uninterp spec fn bls12_381_g1_scalar_mul(p: G1, scalar: nat) -> G1;

/// The affine coordinates of the sum of the products `scalar * point` over
/// `terms`, as `VariableBaseMSM::msm` of arkworks computes it.
pub uninterp spec fn bls12_381_g1_msm_sum(terms: Seq<(G1, nat)>) -> G1;

/// Whether the product of the pairings of `terms` is the identity of the
/// target group, as `multi_pairing` of arkworks computes it.
pub uninterp spec fn bls12_381_pairing_product_is_one(terms: Seq<(G1, G2)>) -> bool;

/// `PrimeField::from_be_bytes_mod_order` on `ark_bls12_381::Fq`: the bytes
/// read as a big-endian number and reduced modulo the field order. The
/// result is handed back as the 48 big-endian bytes of `into_bigint`.
#[verifier::external_body]
pub(crate) fn bls12_381_fq_from_be_bytes_mod_order(bytes: &[u8]) -> (r: FieldElement)
    ensures
        r.canonical(48, bls12_381_fq_modulus()),
        r@ == be_value(bytes@) % bls12_381_fq_modulus(),
{
    FieldElement { bytes: Fq::from_be_bytes_mod_order(bytes).into_bigint().to_bytes_be() }
}

/// `PrimeField::from_be_bytes_mod_order` on `ark_bls12_381::Fr`: the bytes
/// read as a big-endian number and reduced modulo the group order. The
/// result is handed back as the 32 big-endian bytes of `into_bigint`.
#[verifier::external_body]
pub(crate) fn bls12_381_fr_from_be_bytes_mod_order(bytes: &[u8]) -> (r: FieldElement)
    ensures
        r.canonical(32, bls12_381_fr_modulus()),
        r@ == be_value(bytes@) % bls12_381_fr_modulus(),
{
    FieldElement { bytes: Fr::from_be_bytes_mod_order(bytes).into_bigint().to_bytes_be() }
}

/// `Affine::is_on_curve` on `ark_bls12_381::G1Affine`: the curve equation
/// holds of the coordinates, or both are zero.
#[verifier::external_body]
pub(crate) fn bls12_381_g1_is_on_curve(p: &G1Point) -> (r: bool)
    ensures
        r == bls12_381_g1_on_curve(p@),
{
    let x = Fq::from_be_bytes_mod_order(&p.x.bytes);
    let y = Fq::from_be_bytes_mod_order(&p.y.bytes);
    G1Affine::new_unchecked(x, y).is_on_curve()
}

/// `Affine::is_in_correct_subgroup_assuming_on_curve` on
/// `ark_bls12_381::G1Affine`, for a point of the curve.
#[verifier::external_body]
pub(crate) fn bls12_381_g1_is_in_correct_subgroup_assuming_on_curve(p: &G1Point) -> (r: bool)
    requires
        bls12_381_g1_on_curve(p@),
    ensures
        r == bls12_381_g1_in_subgroup(p@),
{
    let x = Fq::from_be_bytes_mod_order(&p.x.bytes);
    let y = Fq::from_be_bytes_mod_order(&p.y.bytes);
    G1Affine::new_unchecked(x, y).is_in_correct_subgroup_assuming_on_curve()
}

/// `Affine::is_on_curve` on `ark_bls12_381::G2Affine`: the curve equation
/// holds of the coordinates, or both are zero.
#[verifier::external_body]
pub(crate) fn bls12_381_g2_is_on_curve(p: &G2Point) -> (r: bool)
    ensures
        r == bls12_381_g2_on_curve(p@),
{
    let fq = |e: &FieldElement| Fq::from_be_bytes_mod_order(&e.bytes);
    let x = ark_bls12_381::Fq2::new(fq(&p.x.c0), fq(&p.x.c1));
    let y = ark_bls12_381::Fq2::new(fq(&p.y.c0), fq(&p.y.c1));
    G2Affine::new_unchecked(x, y).is_on_curve()
}

/// `Affine::is_in_correct_subgroup_assuming_on_curve` on
/// `ark_bls12_381::G2Affine`, for a point of the curve.
#[verifier::external_body]
pub(crate) fn bls12_381_g2_is_in_correct_subgroup_assuming_on_curve(p: &G2Point) -> (r: bool)
    requires
        bls12_381_g2_on_curve(p@),
    ensures
        r == bls12_381_g2_in_subgroup(p@),
{
    let fq = |e: &FieldElement| Fq::from_be_bytes_mod_order(&e.bytes);
    let x = ark_bls12_381::Fq2::new(fq(&p.x.c0), fq(&p.x.c1));
    let y = ark_bls12_381::Fq2::new(fq(&p.y.c0), fq(&p.y.c1));
    G2Affine::new_unchecked(x, y).is_in_correct_subgroup_assuming_on_curve()
}

/// The sum of two `ark_bls12_381::G1Affine`, brought back to affine
/// coordinates with `into_affine`. The point at infinity is neutral: the sum
/// with it is the other point, coordinate for coordinate.
#[verifier::external_body]
pub(crate) fn bls12_381_g1_affine_add(p: &G1Point, q: &G1Point) -> (r: G1Point)
    requires
        p.canonical(48, bls12_381_fq_modulus()),
        q.canonical(48, bls12_381_fq_modulus()),
        bls12_381_g1_kind(p@) != PointKind::Invalid,
        bls12_381_g1_kind(q@) != PointKind::Invalid,
    ensures
        r.canonical(48, bls12_381_fq_modulus()),
        r@ == bls12_381_g1_add_points(p@, q@),
        p@.is_infinity() ==> r@ == q@,
        q@.is_infinity() ==> r@ == p@,
{
    let fq = |e: &FieldElement| Fq::from_be_bytes_mod_order(&e.bytes);
    let a = G1Affine::new_unchecked(fq(&p.x), fq(&p.y));
    let b = G1Affine::new_unchecked(fq(&q.x), fq(&q.y));
    let r = (a + b).into_affine();
    G1Point {
        x: FieldElement { bytes: r.x.into_bigint().to_bytes_be() },
        y: FieldElement { bytes: r.y.into_bigint().to_bytes_be() },
    }
}

/// The product of an `ark_bls12_381::G1Affine` and an `ark_bls12_381::Fr`,
/// brought back to affine coordinates with `into_affine`. Multiplying by
/// zero, or multiplying the point at infinity, gives the point at infinity,
/// whose coordinates are both zero.
#[verifier::external_body]
pub(crate) fn bls12_381_g1_affine_mul(p: &G1Point, scalar: &FieldElement) -> (r: G1Point)
    requires
        p.canonical(48, bls12_381_fq_modulus()),
        scalar.canonical(32, bls12_381_fr_modulus()),
        bls12_381_g1_kind(p@) != PointKind::Invalid,
    ensures
        r.canonical(48, bls12_381_fq_modulus()),
        r@ == bls12_381_g1_scalar_mul(p@, scalar@),
        scalar@ == 0 || p@.is_infinity() ==> r@.is_infinity(),
{
    let x = Fq::from_be_bytes_mod_order(&p.x.bytes);
    let y = Fq::from_be_bytes_mod_order(&p.y.bytes);
    let s = Fr::from_be_bytes_mod_order(&scalar.bytes);
    let r = (G1Affine::new_unchecked(x, y) * s).into_affine();
    G1Point {
        x: FieldElement { bytes: r.x.into_bigint().to_bytes_be() },
        y: FieldElement { bytes: r.y.into_bigint().to_bytes_be() },
    }
}

/// `VariableBaseMSM::msm` on `ark_bls12_381::G1Projective`, brought back to
/// affine coordinates with `into_affine`. Points and scalars come from one
/// list, so there are as many of the one as of the other and `msm` cannot
/// refuse them.
#[verifier::external_body]
pub(crate) fn bls12_381_g1_affine_msm(terms: &Vec<MsmTerm>) -> (r: G1Point)
    requires
        forall|i: int|
            0 <= i < terms@.len() ==> (#[trigger] terms@[i]).point.canonical(
                48,
                bls12_381_fq_modulus(),
            ) && terms@[i].scalar.canonical(32, bls12_381_fr_modulus()) && bls12_381_g1_kind(
                terms@[i].point@,
            ) != PointKind::Invalid,
    ensures
        r.canonical(48, bls12_381_fq_modulus()),
        r@ == bls12_381_g1_msm_sum(msm_terms_view(terms@)),
{
    let fq = |e: &FieldElement| Fq::from_be_bytes_mod_order(&e.bytes);
    let point = |t: &MsmTerm| G1Affine::new_unchecked(fq(&t.point.x), fq(&t.point.y));
    let points: Vec<G1Affine> = terms.iter().map(point).collect();
    let scalars: Vec<Fr> = terms.iter().map(|t| Fr::from_be_bytes_mod_order(&t.scalar.bytes))
        .collect();
    let r = G1Projective::msm(&points, &scalars).unwrap().into_affine();
    G1Point {
        x: FieldElement { bytes: r.x.into_bigint().to_bytes_be() },
        y: FieldElement { bytes: r.y.into_bigint().to_bytes_be() },
    }
}

/// `Pairing::multi_pairing` on `ark_bls12_381::Bls12_381`, compared with the
/// identity of the target group. It is called on accepted points only: each
/// is the point at infinity or a point of its subgroup.
#[verifier::external_body]
pub(crate) fn bls12_381_multi_pairing_is_one(terms: &Vec<PairingTerm>) -> (r: bool)
    requires
        forall|i: int|
            0 <= i < terms@.len() ==> (#[trigger] terms@[i]).canonical(
                48,
                bls12_381_fq_modulus(),
            ) && bls12_381_g1_kind(terms@[i].g1@) != PointKind::Invalid && bls12_381_g2_kind(
                terms@[i].g2@,
            ) != PointKind::Invalid,
    ensures
        r == bls12_381_pairing_product_is_one(pairing_terms_view(terms@)),
{
    let fq = |e: &FieldElement| Fq::from_be_bytes_mod_order(&e.bytes);
    let fq2 = |e: &Fq2Element| ark_bls12_381::Fq2::new(fq(&e.c0), fq(&e.c1));
    let g1 = terms.iter().map(|t| G1Affine::new_unchecked(fq(&t.g1.x), fq(&t.g1.y)));
    let g2 = terms.iter().map(|t| G2Affine::new_unchecked(fq2(&t.g2.x), fq2(&t.g2.y)));
    Bls12_381::multi_pairing(g1, g2) == PairingOutput(Fq12::ONE)
}

} // verus!
