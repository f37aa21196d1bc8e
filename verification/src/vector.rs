//! Three-dimensional vectors with integer components.

use vstd::prelude::*;
use crate::fixed::{abs, clamp_i64, int_sqrt, isqrt, lemma_int_sqrt_bounds, saturate, trunc_div, UNIT};

verus! {

/// A vector of three integer components. It is a plain value: every operation
/// returns a new vector. The scale in which the components count is the
/// caller's: sums keep it, products multiply it.
#[derive(Clone, Copy, Debug, PartialEq, Eq, Structural)]
pub struct Vec3 {
    pub x: i64,
    pub y: i64,
    pub z: i64,
}

impl Vec3 {
    /// The dot product, as an unbounded integer.
    pub open spec fn dot(self, other: Vec3) -> int {
        self.x * other.x + self.y * other.y + self.z * other.z
    }

    /// The squared length, as an unbounded integer.
    pub open spec fn norm_sq(self) -> int {
        self.dot(self)
    }

    /// The componentwise sum, each component saturating.
    pub open spec fn spec_add(self, other: Vec3) -> Vec3 {
        Vec3 {
            x: clamp_i64(self.x + other.x),
            y: clamp_i64(self.y + other.y),
            z: clamp_i64(self.z + other.z),
        }
    }

    /// The componentwise difference, each component saturating.
    pub open spec fn spec_subtract(self, other: Vec3) -> Vec3 {
        Vec3 {
            x: clamp_i64(self.x - other.x),
            y: clamp_i64(self.y - other.y),
            z: clamp_i64(self.z - other.z),
        }
    }

    /// Each component times `k`, saturating.
    pub open spec fn spec_scale(self, k: int) -> Vec3 {
        Vec3 {
            x: clamp_i64(self.x * k),
            y: clamp_i64(self.y * k),
            z: clamp_i64(self.z * k),
        }
    }

    /// The cross product, each component saturating.
    pub open spec fn spec_cross(self, other: Vec3) -> Vec3 {
        Vec3 {
            x: clamp_i64(self.y * other.z - self.z * other.y),
            y: clamp_i64(self.z * other.x - self.x * other.z),
            z: clamp_i64(self.x * other.y - self.y * other.x),
        }
    }

    /// The length, rounded down to a whole number.
    pub open spec fn spec_length(self) -> nat {
        int_sqrt(self.norm_sq() as nat)
    }

    /// The vector of length one (in millionths) that points the same way:
    /// each component times `UNIT`, divided by the length, rounded toward zero.
    pub open spec fn spec_normalize(self) -> Vec3
        recommends
            self.norm_sq() > 0,
    {
        Vec3 {
            x: trunc_div(self.x * UNIT, self.spec_length() as int) as i64,
            y: trunc_div(self.y * UNIT, self.spec_length() as int) as i64,
            z: trunc_div(self.z * UNIT, self.spec_length() as int) as i64,
        }
    }

    pub fn new(x: i64, y: i64, z: i64) -> (v: Vec3)
        ensures
            v == (Vec3 { x, y, z }),
    {
        Vec3 { x, y, z }
    }

    pub fn add(self, other: Vec3) -> (v: Vec3)
        ensures
            v == self.spec_add(other),
    {
        Vec3 {
            x: saturate(self.x as i128 + other.x as i128),
            y: saturate(self.y as i128 + other.y as i128),
            z: saturate(self.z as i128 + other.z as i128),
        }
    }

    pub fn subtract(self, other: Vec3) -> (v: Vec3)
        ensures
            v == self.spec_subtract(other),
    {
        Vec3 {
            x: saturate(self.x as i128 - other.x as i128),
            y: saturate(self.y as i128 - other.y as i128),
            z: saturate(self.z as i128 - other.z as i128),
        }
    }

    pub fn scale(self, k: i64) -> (v: Vec3)
        ensures
            v == self.spec_scale(k as int),
    {
        Vec3 { x: saturate(wide_mul(self.x, k)), y: saturate(wide_mul(self.y, k)), z: saturate(wide_mul(self.z, k)) }
    }

    pub fn cross(self, other: Vec3) -> (v: Vec3)
        ensures
            v == self.spec_cross(other),
    {
        Vec3 {
            x: saturate(wide_mul(self.y, other.z) - wide_mul(self.z, other.y)),
            y: saturate(wide_mul(self.z, other.x) - wide_mul(self.x, other.z)),
            z: saturate(wide_mul(self.x, other.y) - wide_mul(self.y, other.x)),
        }
    }

    /// The length, rounded down. No vector of `i64` components is too long for it.
    pub fn length(self) -> (len: u64)
        ensures
            len == self.spec_length(),
            len == 0 <==> self.norm_sq() == 0,
    {
        let n: u128 = square(self.x) + square(self.y) + square(self.z);
        let len: u64 = isqrt(n);
        assert(len == 0 <==> n == 0) by (nonlinear_arith)
            requires
                len * len <= n < (len + 1) * (len + 1),
        ;
        len
    }

    /// Scales the vector to length one. The zero vector has no direction and is
    /// left out. The result is as exact as the rounded length is: a vector of
    /// a few counts is best scaled up before it is normalized.
    pub fn normalize(self) -> (v: Vec3)
        requires
            self.norm_sq() > 0,
        ensures
            v == self.spec_normalize(),
            abs(v.x as int) <= UNIT,
            abs(v.y as int) <= UNIT,
            abs(v.z as int) <= UNIT,
    {
        let len: u64 = self.length();
        proof {
            lemma_component_below_length(self);
        }
        Vec3 { x: unit_share(self.x, len), y: unit_share(self.y, len), z: unit_share(self.z, len) }
    }

    /// The components as an array, in the order x, y, z.
    pub fn uniform(self) -> (a: [i64; 3])
        ensures
            a@ == seq![self.x, self.y, self.z],
    {
        [self.x, self.y, self.z]
    }
}

/// No component of a vector is longer than the vector's rounded length, once
/// that length is at least one.
pub proof fn lemma_component_below_length(v: Vec3)
    requires
        v.norm_sq() > 0,
    ensures
        v.spec_length() >= 1,
        abs(v.x as int) <= v.spec_length(),
        abs(v.y as int) <= v.spec_length(),
        abs(v.z as int) <= v.spec_length(),
{
    let n = v.norm_sq();
    let len = v.spec_length() as int;
    lemma_int_sqrt_bounds(n as nat);
    lemma_square_below(v.x as int, v.y as int, v.z as int, len);
    lemma_square_below(v.y as int, v.x as int, v.z as int, len);
    lemma_square_below(v.z as int, v.x as int, v.y as int, len);
}

/// The components of a normalized vector are the quotients that the formula
/// names, none longer than one.
pub proof fn lemma_normalize_components(v: Vec3)
    requires
        v.norm_sq() > 0,
    ensures
        v.spec_length() >= 1,
        v.spec_normalize().x == trunc_div(v.x * UNIT, v.spec_length() as int),
        v.spec_normalize().y == trunc_div(v.y * UNIT, v.spec_length() as int),
        v.spec_normalize().z == trunc_div(v.z * UNIT, v.spec_length() as int),
        abs(v.spec_normalize().x as int) <= UNIT,
        abs(v.spec_normalize().y as int) <= UNIT,
        abs(v.spec_normalize().z as int) <= UNIT,
{
    lemma_component_below_length(v);
    lemma_share_bounded(v.x as int, v.spec_length() as int);
    lemma_share_bounded(v.y as int, v.spec_length() as int);
    lemma_share_bounded(v.z as int, v.spec_length() as int);
}

/// A number whose square is below the square of `len + 1` is at most `len`.
proof fn lemma_square_below(a: int, b: int, c: int, len: int)
    by (nonlinear_arith)
    requires
        0 <= len,
        0 < a * a + b * b + c * c < (len + 1) * (len + 1),
    ensures
        len >= 1,
        -len <= a <= len,
{
}

/// The product of two `i64`, which an `i128` always holds.
fn wide_mul(a: i64, b: i64) -> (p: i128)
    ensures
        p == a * b,
        -0x3fff_ffff_ffff_ffff_8000_0000_0000_0000 <= p <= 0x4000_0000_0000_0000_0000_0000_0000_0000,
{
    assert(-0x3fff_ffff_ffff_ffff_8000_0000_0000_0000 <= a * b <= 0x4000_0000_0000_0000_0000_0000_0000_0000)
        by (nonlinear_arith)
        requires
            -0x8000_0000_0000_0000 <= a <= 0x7fff_ffff_ffff_ffff,
            -0x8000_0000_0000_0000 <= b <= 0x7fff_ffff_ffff_ffff,
    ;
    (a as i128) * (b as i128)
}

/// The square of an `i64`, which a `u128` always holds.
fn square(a: i64) -> (s: u128)
    ensures
        s == a * a,
        s <= 0x4000_0000_0000_0000_0000_0000_0000_0000,
{
    assert(0 <= a * a <= 0x4000_0000_0000_0000_0000_0000_0000_0000) by (nonlinear_arith)
        requires
            -0x8000_0000_0000_0000 <= a <= 0x8000_0000_0000_0000,
    ;
    let wide: i128 = (a as i128) * (a as i128);
    wide as u128
}

/// One component of a vector of length `len`, as a share of one.
fn unit_share(c: i64, len: u64) -> (q: i64)
    requires
        len >= 1,
        abs(c as int) <= len,
    ensures
        q == trunc_div(c * UNIT, len as int),
        abs(q as int) <= UNIT,
{
    assert(-0x8000_0000_0000_0000 * 1_000_000 <= c * UNIT <= 0x8000_0000_0000_0000 * 1_000_000)
        by (nonlinear_arith)
        requires
            -0x8000_0000_0000_0000 <= c <= 0x8000_0000_0000_0000,
            UNIT == 1_000_000,
    ;
    let scaled: i128 = (c as i128) * (UNIT as i128);
    let q: i128 = scaled / (len as i128);
    proof {
        lemma_share_bounded(c as int, len as int);
    }
    q as i64
}

/// A component no longer than the length has a share of at most one.
proof fn lemma_share_bounded(c: int, len: int)
    by (nonlinear_arith)
    requires
        len >= 1,
        -len <= c <= len,
    ensures
        -UNIT <= trunc_div(c * UNIT, len) <= UNIT,
{
}

} // verus!
