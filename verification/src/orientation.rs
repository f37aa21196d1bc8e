//! The orientation model: from the sines and cosines of yaw and pitch to the
//! camera's basis.

use vstd::prelude::*;
use crate::fixed::{abs, trunc_div, UNIT};
use crate::orthonormal::{lemma_components, lemma_forward_cross_right, lemma_product_bound};
use crate::vector::Vec3;

verus! {

/// How far the sum of the squares of a sine and its cosine may lie from one
/// (from `UNIT * UNIT`, both counting millionths). Every pair that was rounded
/// to the nearest millionth from an exact sine and cosine is within it.
pub const TRIG_SLACK: i64 = 2_000_000;

/// What a `Trig` holds, as unbounded integers counting millionths.
pub struct TrigModel {
    pub sin_theta: int,
    pub cos_theta: int,
    pub sin_phi: int,
    pub cos_phi: int,
}

/// `s` and `c` lie on the unit circle, up to `TRIG_SLACK`.
pub open spec fn near_unit(s: int, c: int) -> bool {
    abs(s * s + c * c - UNIT * UNIT) <= TRIG_SLACK
}

impl TrigModel {
    /// Both pairs lie on the unit circle, up to `TRIG_SLACK`.
    pub open spec fn valid(self) -> bool {
        &&& near_unit(self.sin_theta, self.cos_theta)
        &&& near_unit(self.sin_phi, self.cos_phi)
    }

    /// The direction in which the camera looks.
    pub open spec fn forward(self) -> Vec3 {
        Vec3 {
            x: trunc_div(self.cos_phi * self.sin_theta, UNIT as int) as i64,
            y: (-self.sin_phi) as i64,
            z: trunc_div(self.cos_phi * self.cos_theta, UNIT as int) as i64,
        }
    }

    /// The direction to the camera's right. It does not depend on the pitch:
    /// it stays in the horizontal plane.
    pub open spec fn right(self) -> Vec3 {
        Vec3 { x: self.cos_theta as i64, y: 0, z: (-self.sin_theta) as i64 }
    }

    /// The direction above the camera: the normalized cross product of
    /// `forward` and `right`.
    pub open spec fn up(self) -> Vec3 {
        self.forward().spec_cross(self.right()).spec_normalize()
    }

    /// The three directions together.
    pub open spec fn basis(self) -> Basis {
        Basis { forward: self.forward(), right: self.right(), up: self.up() }
    }
}

/// The sines and cosines of the yaw `theta` and the pitch `phi`, in millionths.
/// A value of this type always lies on the unit circle up to `TRIG_SLACK`.
#[derive(Clone, Copy, Debug)]
pub struct Trig {
    sin_theta: i64,
    cos_theta: i64,
    sin_phi: i64,
    cos_phi: i64,
}

impl View for Trig {
    type V = TrigModel;

    closed spec fn view(&self) -> TrigModel {
        TrigModel {
            sin_theta: self.sin_theta as int,
            cos_theta: self.cos_theta as int,
            sin_phi: self.sin_phi as int,
            cos_phi: self.cos_phi as int,
        }
    }
}

/// The camera's orthonormal basis.
#[derive(Clone, Copy, Debug, PartialEq, Eq, Structural)]
pub struct Basis {
    pub forward: Vec3,
    pub right: Vec3,
    pub up: Vec3,
}

impl Basis {
    /// The basis that the orientation model gives for these sines and cosines.
    /// It is computed afresh from them each time, never turned step by step.
    pub fn from_trig(trig: &Trig) -> (b: Basis)
        ensures
            b == trig@.basis(),
    {
        proof {
            use_type_invariant(trig);
            lemma_components(trig@);
            lemma_forward_cross_right(trig@);
            lemma_product_bound(trig@.cos_phi, trig@.sin_theta, 1_000_000, 1_000_000);
            lemma_product_bound(trig@.cos_phi, trig@.cos_theta, 1_000_000, 1_000_000);
        }
        let forward = Vec3 {
            x: (trig.cos_phi * trig.sin_theta) / UNIT,
            y: -trig.sin_phi,
            z: (trig.cos_phi * trig.cos_theta) / UNIT,
        };
        let right = Vec3 { x: trig.cos_theta, y: 0, z: -trig.sin_theta };
        let across = forward.cross(right);
        let up = across.normalize();
        Basis { forward, right, up }
    }
}

impl Trig {
    /// The values lie on the unit circle, as every value of this type does.
    #[verifier::type_invariant]
    pub open spec fn wf(self) -> bool {
        self@.valid()
    }

    /// Takes the four values if both pairs lie on the unit circle up to
    /// `TRIG_SLACK`, and refuses them otherwise.
    pub fn new(sin_theta: i64, cos_theta: i64, sin_phi: i64, cos_phi: i64) -> (r: Option<Trig>)
        ensures
            r is Some <==> near_unit(sin_theta as int, cos_theta as int) && near_unit(
                sin_phi as int,
                cos_phi as int,
            ),
            r is Some ==> r.unwrap()@ == (TrigModel {
                sin_theta: sin_theta as int,
                cos_theta: cos_theta as int,
                sin_phi: sin_phi as int,
                cos_phi: cos_phi as int,
            }),
    {
        if on_circle(sin_theta, cos_theta) && on_circle(sin_phi, cos_phi) {
            Some(Trig { sin_theta, cos_theta, sin_phi, cos_phi })
        } else {
            None
        }
    }

    /// The values at yaw zero and pitch zero: both sines zero, both cosines one.
    pub fn level() -> (t: Trig)
        ensures
            t@ == (TrigModel { sin_theta: 0, cos_theta: UNIT as int, sin_phi: 0, cos_phi: UNIT as int }),
    {
        Trig { sin_theta: 0, cos_theta: UNIT, sin_phi: 0, cos_phi: UNIT }
    }

    pub fn sin_theta(&self) -> (v: i64)
        ensures
            v == self@.sin_theta,
    {
        self.sin_theta
    }

    pub fn cos_theta(&self) -> (v: i64)
        ensures
            v == self@.cos_theta,
    {
        self.cos_theta
    }

    pub fn sin_phi(&self) -> (v: i64)
        ensures
            v == self@.sin_phi,
    {
        self.sin_phi
    }

    pub fn cos_phi(&self) -> (v: i64)
        ensures
            v == self@.cos_phi,
    {
        self.cos_phi
    }
}

/// Whether `s` and `c` lie on the unit circle up to `TRIG_SLACK`.
fn on_circle(s: i64, c: i64) -> (b: bool)
    ensures
        b == near_unit(s as int, c as int),
{
    if s < -2 * UNIT || s > 2 * UNIT || c < -2 * UNIT || c > 2 * UNIT {
        proof {
            if s < -2 * UNIT || s > 2 * UNIT {
                lemma_far_from_circle(s as int, c as int);
            } else {
                lemma_far_from_circle(c as int, s as int);
            }
        }
        return false;
    }
    assert(0 <= s * s <= 4_000_000_000_000 && 0 <= c * c <= 4_000_000_000_000) by (nonlinear_arith)
        requires
            -2_000_000 <= s <= 2_000_000,
            -2_000_000 <= c <= 2_000_000,
    ;
    let sum: i64 = s * s + c * c;
    let one: i64 = UNIT * UNIT;
    sum - one <= TRIG_SLACK && one - sum <= TRIG_SLACK
}

/// A point with a component beyond two is far from the unit circle.
proof fn lemma_far_from_circle(s: int, c: int)
    by (nonlinear_arith)
    requires
        s < -2_000_000 || s > 2_000_000,
    ensures
        s * s + c * c - 1_000_000 * 1_000_000 > 2_000_000,
        c * c + s * s - 1_000_000 * 1_000_000 > 2_000_000,
{
}

} // verus!
