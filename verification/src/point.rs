//! Field elements and curve points as the precompiles see them: canonical
//! big-endian bytes in executable code, natural numbers in contracts.

use crate::encoding::{
    be_bytes, be_value, is_zero, lemma_be_bytes_len, overwrite_prefix, write_right_aligned,
    write_zeros, zeros,
};
use vstd::prelude::*;

verus! {

/// An element of a prime field, held as the big-endian bytes of its
/// representative. Its view is the number that the bytes spell.
pub struct FieldElement {
    pub bytes: Vec<u8>,
}

impl View for FieldElement {
    type V = nat;

    open spec fn view(&self) -> nat {
        be_value(self.bytes@)
    }
}

impl FieldElement {
    /// The element is held in exactly `width` bytes and lies below `modulus`.
    pub open spec fn canonical(&self, width: nat, modulus: nat) -> bool {
        self.bytes@.len() == width && self@ < modulus
    }

    /// Whether the element is zero.
    pub fn is_zero(&self) -> (r: bool)
        ensures
            r == (self@ == 0),
    {
        is_zero(self.bytes.as_slice())
    }
}

/// An element `c0 + c1 * u` of the quadratic extension of a prime field.
pub struct Fq2Element {
    pub c0: FieldElement,
    pub c1: FieldElement,
}

/// The two coefficients of an element of the quadratic extension.
pub struct Fq2 {
    pub c0: nat,
    pub c1: nat,
}

impl Fq2 {
    /// Both coefficients are zero.
    pub open spec fn is_zero(self) -> bool {
        self.c0 == 0 && self.c1 == 0
    }
}

impl View for Fq2Element {
    type V = Fq2;

    open spec fn view(&self) -> Fq2 {
        Fq2 { c0: self.c0@, c1: self.c1@ }
    }
}

impl Fq2Element {
    /// Both coefficients are canonical.
    pub open spec fn canonical(&self, width: nat, modulus: nat) -> bool {
        self.c0.canonical(width, modulus) && self.c1.canonical(width, modulus)
    }

    /// Whether the element is zero.
    pub fn is_zero(&self) -> (r: bool)
        ensures
            r == self@.is_zero(),
    {
        self.c0.is_zero() && self.c1.is_zero()
    }
}

/// Affine coordinates of a candidate point of G1. Both coordinates zero
/// stand for the point at infinity.
pub struct G1 {
    pub x: nat,
    pub y: nat,
}

impl G1 {
    /// The point at infinity.
    pub open spec fn infinity() -> G1 {
        G1 { x: 0, y: 0 }
    }

    /// Both coordinates are zero.
    pub open spec fn is_infinity(self) -> bool {
        self.x == 0 && self.y == 0
    }
}

/// Affine coordinates of a candidate point of G2, over the quadratic
/// extension. Both coordinates zero stand for the point at infinity.
pub struct G2 {
    pub x: Fq2,
    pub y: Fq2,
}

impl G2 {
    /// Both coordinates are zero.
    pub open spec fn is_infinity(self) -> bool {
        self.x.is_zero() && self.y.is_zero()
    }
}

/// A candidate point of G1 as decoded from bytes: nothing is known of it
/// until it has been classified.
pub struct G1Point {
    pub x: FieldElement,
    pub y: FieldElement,
}

impl View for G1Point {
    type V = G1;

    open spec fn view(&self) -> G1 {
        G1 { x: self.x@, y: self.y@ }
    }
}

impl G1Point {
    /// Both coordinates are canonical.
    pub open spec fn canonical(&self, width: nat, modulus: nat) -> bool {
        self.x.canonical(width, modulus) && self.y.canonical(width, modulus)
    }

    /// Whether both coordinates are zero, which stands for the point at
    /// infinity.
    pub fn is_infinity(&self) -> (r: bool)
        ensures
            r == self@.is_infinity(),
    {
        self.x.is_zero() && self.y.is_zero()
    }
}

/// A candidate point of G2 as decoded from bytes.
pub struct G2Point {
    pub x: Fq2Element,
    pub y: Fq2Element,
}

impl View for G2Point {
    type V = G2;

    open spec fn view(&self) -> G2 {
        G2 { x: self.x@, y: self.y@ }
    }
}

impl G2Point {
    /// Both coordinates are canonical.
    pub open spec fn canonical(&self, width: nat, modulus: nat) -> bool {
        self.x.canonical(width, modulus) && self.y.canonical(width, modulus)
    }

    /// Whether both coordinates are zero, which stands for the point at
    /// infinity.
    pub fn is_infinity(&self) -> (r: bool)
        ensures
            r == self@.is_infinity(),
    {
        self.x.is_zero() && self.y.is_zero()
    }
}

/// Reduction of both coefficients into the prime field of `q` elements.
pub open spec fn fq2_reduce(a: Fq2, q: nat) -> Fq2 {
    Fq2 { c0: a.c0 % q, c1: a.c1 % q }
}

/// Sum in the quadratic extension of the prime field of `q` elements.
pub open spec fn fq2_add(a: Fq2, b: Fq2, q: nat) -> Fq2 {
    Fq2 { c0: (a.c0 + b.c0) % q, c1: (a.c1 + b.c1) % q }
}

/// Product in the quadratic extension, in which `u * u = -1`.
pub open spec fn fq2_mul(a: Fq2, b: Fq2, q: nat) -> Fq2 {
    Fq2 {
        c0: ((a.c0 * b.c0 - a.c1 * b.c1) % (q as int)) as nat,
        c1: (a.c0 * b.c1 + a.c1 * b.c0) % q,
    }
}

/// Membership of a candidate point in the curve `y^2 = x^3 + b` over the
/// prime field of `q` elements. The point at infinity is on the curve.
pub open spec fn g1_on_curve(p: G1, b: nat, q: nat) -> bool {
    let x = p.x % q;
    let y = p.y % q;
    (x == 0 && y == 0) || (y * y) % q == (x * x * x + b) % q
}

/// Membership of a candidate point in the curve `y^2 = x^3 + b` over the
/// quadratic extension. The point at infinity is on the curve.
pub open spec fn g2_on_curve(p: G2, b: Fq2, q: nat) -> bool {
    let x = fq2_reduce(p.x, q);
    let y = fq2_reduce(p.y, q);
    (x.is_zero() && y.is_zero()) || fq2_mul(y, y, q) == fq2_add(
        fq2_mul(fq2_mul(x, x, q), x, q),
        b,
        q,
    )
}

/// What the validator makes of a candidate point.
#[derive(Clone, Copy, Debug, PartialEq, Eq, Structural)]
pub enum PointKind {
    /// Both coordinates are zero: the point at infinity, accepted unchecked.
    Infinity,
    /// On the curve and in the prime-order subgroup.
    Valid,
    /// Neither of the above.
    Invalid,
}

/// The classification of a candidate point from the three facts that bear
/// on it. Membership in the subgroup counts only for a point on the curve.
pub open spec fn point_kind(is_infinity: bool, on_curve: bool, in_subgroup: bool) -> PointKind {
    if is_infinity {
        PointKind::Infinity
    } else if on_curve && in_subgroup {
        PointKind::Valid
    } else {
        PointKind::Invalid
    }
}

/// One factor of a pairing product.
pub struct PairingTerm {
    pub g1: G1Point,
    pub g2: G2Point,
}

impl View for PairingTerm {
    type V = (G1, G2);

    open spec fn view(&self) -> (G1, G2) {
        (self.g1@, self.g2@)
    }
}

impl PairingTerm {
    /// Both points are canonical.
    pub open spec fn canonical(&self, width: nat, modulus: nat) -> bool {
        self.g1.canonical(width, modulus) && self.g2.canonical(width, modulus)
    }
}

/// One summand of a multi-scalar multiplication.
pub struct MsmTerm {
    pub point: G1Point,
    pub scalar: FieldElement,
}

impl View for MsmTerm {
    type V = (G1, nat);

    open spec fn view(&self) -> (G1, nat) {
        (self.point@, self.scalar@)
    }
}

/// The views of a list of pairing terms, in order.
pub open spec fn pairing_terms_view(terms: Seq<PairingTerm>) -> Seq<(G1, G2)> {
    Seq::new(terms.len(), |i: int| terms[i]@)
}

/// The views of a list of summands, in order.
pub open spec fn msm_terms_view(terms: Seq<MsmTerm>) -> Seq<(G1, nat)> {
    Seq::new(terms.len(), |i: int| terms[i]@)
}

/// The output layout of a G1 point: `x` then `y`, each right-aligned in a
/// slot of `slot` bytes; the point at infinity is all zero bytes.
pub open spec fn encode_g1(p: G1, slot: nat) -> Seq<u8> {
    if p.is_infinity() {
        zeros(2 * slot)
    } else {
        be_bytes(p.x, slot) + be_bytes(p.y, slot)
    }
}

/// The output layout of a G1 point fills two slots.
pub proof fn lemma_encode_g1_len(p: G1, slot: nat)
    ensures
        encode_g1(p, slot).len() == 2 * slot,
{
    lemma_be_bytes_len(p.x, slot);
    lemma_be_bytes_len(p.y, slot);
}

/// Writes `p` in the output layout at the start of `out`.
pub fn write_g1_point(out: &mut [u8], p: &G1Point, slot: usize)
    requires
        p.x.bytes@.len() <= slot,
        p.y.bytes@.len() <= slot,
        2 * slot <= old(out).len(),
    ensures
        final(out)@ == overwrite_prefix(old(out)@, encode_g1(p@, slot as nat)),
        final(out)@.len() == old(out)@.len(),
{
    if p.is_infinity() {
        write_zeros(out, 2 * slot);
    } else {
        write_right_aligned(out, 0, slot, p.x.bytes.as_slice());
        write_right_aligned(out, slot, slot, p.y.bytes.as_slice());
        proof {
            lemma_be_bytes_len(p.x@, slot as nat);
            lemma_be_bytes_len(p.y@, slot as nat);
            assert(out@ =~= overwrite_prefix(old(out)@, encode_g1(p@, slot as nat)));
        }
    }
}

} // verus!
