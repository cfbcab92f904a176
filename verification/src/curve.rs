//! Affine points of the group `G1` of BN254, the curve `y^2 = x^3 + 3`.
//!
//! A point is stored by its two coordinates and a flag for the identity.
//! Its view is the triple of the two residues and the flag. The group law
//! itself is computed by `ark-ec`; what it returns is named by [`g1_add`]
//! and [`g1_mul`], and the contracts of this crate speak of those names.
use crate::field::{fq_add, fq_mul, Fq, Fr};
use ark_bn254::{G1Affine, G1Projective};
use ark_ec::CurveGroup;
use ark_ff::{BigInt, PrimeField};
use ark_std::UniformRand;
use rand::rngs::StdRng;
use vstd::prelude::*;

verus! {

/// The view of a point: its two coordinates and whether it is the identity.
pub type PointView = (nat, nat, bool);

/// The sum of two points of `G1`, as `ark_ec` computes it.
pub uninterp spec fn g1_add(p: (nat, nat, bool), q: (nat, nat, bool)) -> (nat, nat, bool);

/// The multiple of a point of `G1` by a scalar, as `ark_ec` computes it.
pub uninterp spec fn g1_mul(p: (nat, nat, bool), s: nat) -> (nat, nat, bool);

/// Whether `(x, y)` satisfies the curve equation.
pub open spec fn on_curve(x: nat, y: nat) -> bool {
    fq_mul(y, y) == fq_add(fq_mul(fq_mul(x, x), x), 3)
}

/// Whether a triple is the view of a point of `G1`: the identity with
/// both coordinates zero, or a pair on the curve.
pub open spec fn point_valid(p: PointView) -> bool {
    if p.2 {
        p.0 == 0 && p.1 == 0
    } else {
        on_curve(p.0, p.1)
    }
}

/// A point of `G1`.
#[derive(Clone, Copy, Debug, PartialEq, Eq)]
pub struct Point {
    pub(crate) x: Fq,
    pub(crate) y: Fq,
    pub(crate) infinity: bool,
}

impl View for Point {
    type V = PointView;

    closed spec fn view(&self) -> PointView {
        (self.x@, self.y@, self.infinity)
    }
}

impl Point {
    #[verifier::type_invariant]
    spec fn well_formed(self) -> bool {
        point_valid(self@)
    }

    /// The identity of the group.
    pub fn identity() -> (r: Point)
        ensures
            r@ == (0nat, 0nat, true),
    {
        Point { x: Fq::zero(), y: Fq::zero(), infinity: true }
    }

    /// The point with the given coordinates, if it lies on the curve.
    pub fn from_coords(x: Fq, y: Fq) -> (r: Option<Point>)
        ensures
            r.is_some() <==> on_curve(x@, y@),
            r matches Some(p) ==> p@ == (x@, y@, false),
    {
        let lhs = y.mul(&y);
        let x3 = x.mul(&x).mul(&x);
        let rhs = x3.add(&Fq::from_u128(3));
        if lhs.equals(&rhs) {
            Some(Point { x, y, infinity: false })
        } else {
            None
        }
    }

    /// Both coordinates and whether this is the identity.
    pub fn coords(&self) -> (r: (Fq, Fq, bool))
        ensures
            (r.0@, r.1@, r.2) == self@,
            point_valid(self@),
    {
        proof {
            use_type_invariant(self);
        }
        (self.x, self.y, self.infinity)
    }

    /// The first coordinate; zero for the identity.
    pub fn x(&self) -> (r: Fq)
        ensures
            r@ == self@.0,
    {
        self.x
    }

    /// The second coordinate; zero for the identity.
    pub fn y(&self) -> (r: Fq)
        ensures
            r@ == self@.1,
    {
        self.y
    }

    /// Whether this is the identity of the group.
    pub fn is_identity(&self) -> (r: bool)
        ensures
            r == self@.2,
    {
        self.infinity
    }

    /// Whether two points are the same.
    pub fn equals(&self, other: &Point) -> (r: bool)
        ensures
            r == (self@ == other@),
    {
        self.x.equals(&other.x) && self.y.equals(&other.y) && self.infinity == other.infinity
    }

    /// Sum of two points. Calls `ark_ec`'s addition of two
    /// `ark_bn254::G1Affine` values and normalises the projective result
    /// with `into_affine`; the contract names that result. Both arguments
    /// are points of the group, so the outside values are built from their
    /// coordinates as they stand, and the result is a point of the group
    /// again. The same holds of the function below.
    #[verifier::external_body]
    pub(crate) fn add(&self, rhs: &Point) -> (r: Point)
        ensures
            r@ == g1_add(self@, rhs@),
    {
        let (px, py) = (BigInt(self.x.limbs).into(), BigInt(self.y.limbs).into());
        let (qx, qy) = (BigInt(rhs.x.limbs).into(), BigInt(rhs.y.limbs).into());
        let p = G1Affine { x: px, y: py, infinity: self.infinity };
        let q = G1Affine { x: qx, y: qy, infinity: rhs.infinity };
        let s = (p + q).into_affine();
        let (x, y) = (Fq { limbs: s.x.into_bigint().0 }, Fq { limbs: s.y.into_bigint().0 });
        Point { x, y, infinity: s.infinity }
    }

    /// Multiple of a point by a scalar. Calls `ark_ec`'s multiplication of
    /// an `ark_bn254::G1Affine` by an `ark_bn254::Fr` and normalises the
    /// projective result with `into_affine`; the contract names that result.
    #[verifier::external_body]
    pub(crate) fn mul(&self, scalar: &Fr) -> (r: Point)
        ensures
            r@ == g1_mul(self@, scalar@),
    {
        let (px, py) = (BigInt(self.x.limbs).into(), BigInt(self.y.limbs).into());
        let p = G1Affine { x: px, y: py, infinity: self.infinity };
        let k: ark_bn254::Fr = BigInt(scalar.limbs).into();
        let s = (p * k).into_affine();
        let (x, y) = (Fq { limbs: s.x.into_bigint().0 }, Fq { limbs: s.y.into_bigint().0 });
        Point { x, y, infinity: s.infinity }
    }

    /// A fresh point. Calls `ark_std`'s `UniformRand::rand` for
    /// `ark_bn254::G1Projective` and normalises with `into_affine`; nothing
    /// is claimed of the outcome beyond its being a point of the group.
    #[verifier::external_body]
    pub(crate) fn random(rng: &mut StdRng) -> (r: Point) {
        let s = G1Projective::rand(rng).into_affine();
        let (x, y) = (Fq { limbs: s.x.into_bigint().0 }, Fq { limbs: s.y.into_bigint().0 });
        Point { x, y, infinity: s.infinity }
    }
}

} // verus!
