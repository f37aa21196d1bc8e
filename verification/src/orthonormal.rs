//! Why the basis of the orientation model is orthonormal: each of its vectors
//! has length one, and each two of them are at right angles, up to the rounding
//! of the fixed-point arithmetic.

use vstd::prelude::*;
use crate::fixed::{abs, trunc_div, UNIT};
use crate::orientation::TrigModel;
use crate::vector::Vec3;

verus! {

/// How far the squared length of a basis vector may lie from one, and the dot
/// product of two basis vectors from zero (both count in `UNIT * UNIT`).
pub const BASIS_SLACK: i64 = 10_000_000;

/// A component of a point near the unit circle is at most one.
pub(crate) proof fn lemma_circle_component(s: int, c: int)
    by (nonlinear_arith)
    requires
        s * s + c * c <= 1_000_000 * 1_000_000 + 2_000_000,
    ensures
        -1_000_000 <= s <= 1_000_000,
{
}

/// The product of two bounded numbers is bounded by the product of the bounds.
pub(crate) proof fn lemma_product_bound(x: int, y: int, bx: int, by: int)
    by (nonlinear_arith)
    requires
        -bx <= x <= bx,
        -by <= y <= by,
    ensures
        -(bx * by) <= x * y <= bx * by,
{
}

/// What truncating division by one million leaves over is less than one million.
pub(crate) proof fn lemma_trunc_remainder(v: int)
    ensures
        -999_999 <= v - 1_000_000 * trunc_div(v, 1_000_000) <= 999_999,
{
}

/// The components of `forward` and `right` are the formula's values, none
/// longer than one.
pub(crate) proof fn lemma_components(t: TrigModel)
    requires
        t.valid(),
    ensures
        abs(t.sin_theta) <= UNIT,
        abs(t.cos_theta) <= UNIT,
        abs(t.sin_phi) <= UNIT,
        abs(t.cos_phi) <= UNIT,
        t.forward().x == trunc_div(t.cos_phi * t.sin_theta, UNIT as int),
        t.forward().y == -t.sin_phi,
        t.forward().z == trunc_div(t.cos_phi * t.cos_theta, UNIT as int),
        t.right().x == t.cos_theta,
        t.right().y == 0,
        t.right().z == -t.sin_theta,
        abs(t.forward().x as int) <= UNIT,
        abs(t.forward().z as int) <= UNIT,
{
    lemma_circle_component(t.sin_theta, t.cos_theta);
    lemma_circle_component(t.cos_theta, t.sin_theta);
    lemma_circle_component(t.sin_phi, t.cos_phi);
    lemma_circle_component(t.cos_phi, t.sin_phi);
    lemma_product_bound(t.cos_phi, t.sin_theta, 1_000_000, 1_000_000);
    lemma_product_bound(t.cos_phi, t.cos_theta, 1_000_000, 1_000_000);
}

/// With `fx` and `fz` the rounded products of the formula for `forward`,
/// `forward` and `right` are at right angles up to two millionths.
proof fn lemma_forward_right_dot(cp: int, st: int, ct: int, fx: int, fz: int)
    requires
        -1_000_000 <= cp <= 1_000_000,
        -1_000_000 <= st <= 1_000_000,
        -1_000_000 <= ct <= 1_000_000,
        fx == trunc_div(cp * st, 1_000_000),
        fz == trunc_div(cp * ct, 1_000_000),
    ensures
        -2_000_000 <= fx * ct - fz * st <= 2_000_000,
{
    let r1 = cp * st - 1_000_000 * fx;
    let r2 = cp * ct - 1_000_000 * fz;
    lemma_trunc_remainder(cp * st);
    lemma_trunc_remainder(cp * ct);
    let d = fx * ct - fz * st;
    assert(1_000_000 * d == r2 * st - r1 * ct) by (nonlinear_arith)
        requires
            d == fx * ct - fz * st,
            1_000_000 * fx == cp * st - r1,
            1_000_000 * fz == cp * ct - r2,
    ;
    lemma_product_bound(r2, st, 999_999, 1_000_000);
    lemma_product_bound(r1, ct, 999_999, 1_000_000);
}

/// With `fx` and `fz` the rounded products of the formula for `forward`, the
/// sum of their squares is the squared cosine of the pitch, up to seven
/// millionths.
proof fn lemma_forward_horizontal(cp: int, st: int, ct: int, fx: int, fz: int)
    requires
        -1_000_000 <= cp <= 1_000_000,
        -1_000_000 <= st <= 1_000_000,
        -1_000_000 <= ct <= 1_000_000,
        -2_000_000 <= st * st + ct * ct - 1_000_000 * 1_000_000 <= 2_000_000,
        fx == trunc_div(cp * st, 1_000_000),
        fz == trunc_div(cp * ct, 1_000_000),
    ensures
        -7_000_000 <= fx * fx + fz * fz - cp * cp <= 7_000_000,
{
    let x = cp * st;
    let y = cp * ct;
    let r1 = x - 1_000_000 * fx;
    let r2 = y - 1_000_000 * fz;
    lemma_trunc_remainder(x);
    lemma_trunc_remainder(y);
    let g = fx * fx + fz * fz;
    let cp2 = cp * cp;
    let a = st * st + ct * ct;
    assert(1_000_000_000_000 * g == x * x + y * y - 2 * (x * r1) - 2 * (y * r2) + r1 * r1 + r2 * r2)
        by (nonlinear_arith)
        requires
            g == fx * fx + fz * fz,
            1_000_000 * fx == x - r1,
            1_000_000 * fz == y - r2,
    ;
    assert(x * x + y * y == cp2 * a) by (nonlinear_arith)
        requires
            x == cp * st,
            y == cp * ct,
            cp2 == cp * cp,
            a == st * st + ct * ct,
    ;
    lemma_product_bound(cp, st, 1_000_000, 1_000_000);
    lemma_product_bound(cp, ct, 1_000_000, 1_000_000);
    lemma_product_bound(x, r1, 1_000_000_000_000, 999_999);
    lemma_product_bound(y, r2, 1_000_000_000_000, 999_999);
    lemma_product_bound(r1, r1, 999_999, 999_999);
    lemma_product_bound(r2, r2, 999_999, 999_999);
    lemma_product_bound(cp, cp, 1_000_000, 1_000_000);
    assert(cp2 >= 0) by (nonlinear_arith)
        requires
            cp2 == cp * cp,
    ;
    lemma_product_bound(cp2, a - 1_000_000_000_000, 1_000_000_000_000, 2_000_000);
    assert(cp2 * a == cp2 * (a - 1_000_000_000_000) + 1_000_000_000_000 * cp2) by (nonlinear_arith);
}

/// The square of a product is the product of the squares.
proof fn lemma_square_of_product(a: int, b: int)
    by (nonlinear_arith)
    ensures
        (a * b) * (a * b) == (a * a) * (b * b),
{
}

/// `(a * b) * (c * d)` is `(c * b) * (a * d)`.
proof fn lemma_swap_factors(a: int, b: int, c: int, d: int)
    by (nonlinear_arith)
    ensures
        (a * b) * (c * d) == (c * b) * (a * d),
{
}

/// In the plane, the squared cross product of two vectors is the product of
/// their squared lengths less the square of their dot product.
pub(crate) proof fn lemma_lagrange_plane(p: int, q: int, u: int, v: int)
    ensures
        (q * u - p * v) * (q * u - p * v) == (p * p + q * q) * (u * u + v * v) - (p * u + q * v) * (
        p * u + q * v),
{
    let pu = p * u;
    let pv = p * v;
    let qu = q * u;
    let qv = q * v;
    assert((q * u - p * v) * (q * u - p * v) == qu * qu - 2 * (qu * pv) + pv * pv)
        by (nonlinear_arith)
        requires
            qu == q * u,
            pv == p * v,
    ;
    assert((p * u + q * v) * (p * u + q * v) == pu * pu + 2 * (pu * qv) + qv * qv)
        by (nonlinear_arith)
        requires
            pu == p * u,
            qv == q * v,
    ;
    let pp = p * p;
    let qq = q * q;
    let uu = u * u;
    let vv = v * v;
    lemma_square_of_product(p, u);
    lemma_square_of_product(p, v);
    lemma_square_of_product(q, u);
    lemma_square_of_product(q, v);
    assert((pp + qq) * (uu + vv) == pp * uu + pp * vv + qq * uu + qq * vv) by (nonlinear_arith);
    lemma_swap_factors(q, u, p, v);
}

/// `(a * b) * c` is `(c * b) * a`.
proof fn lemma_swap_outer(a: int, b: int, c: int)
    by (nonlinear_arith)
    ensures
        (a * b) * c == (c * b) * a,
        (a * b) * c == (a * c) * b,
{
}

/// `a * (b * c)` is `(a * b) * c`.
proof fn lemma_associate(a: int, b: int, c: int)
    by (nonlinear_arith)
    ensures
        a * (b * c) == (a * b) * c,
{
}

/// `(m - n) * a` is `m * a - n * a`.
proof fn lemma_distribute(m: int, n: int, a: int)
    by (nonlinear_arith)
    ensures
        (m - n) * a == m * a - n * a,
{
}

/// A cross product is at right angles to its first factor.
pub(crate) proof fn lemma_cross_orthogonal(a1: int, a2: int, a3: int, b1: int, b2: int, b3: int)
    ensures
        (a2 * b3 - a3 * b2) * a1 + (a3 * b1 - a1 * b3) * a2 + (a1 * b2 - a2 * b1) * a3 == 0,
{
    lemma_distribute(a2 * b3, a3 * b2, a1);
    lemma_distribute(a3 * b1, a1 * b3, a2);
    lemma_distribute(a1 * b2, a2 * b1, a3);
    lemma_swap_outer(a2, b3, a1);
    lemma_swap_outer(a3, b2, a1);
    lemma_swap_outer(a3, b1, a2);
}

/// A cross product is at right angles to its second factor.
pub(crate) proof fn lemma_cross_orthogonal_second(a1: int, a2: int, a3: int, b1: int, b2: int, b3: int)
    ensures
        (a2 * b3 - a3 * b2) * b1 + (a3 * b1 - a1 * b3) * b2 + (a1 * b2 - a2 * b1) * b3 == 0,
{
    lemma_distribute(a2 * b3, a3 * b2, b1);
    lemma_distribute(a3 * b1, a1 * b3, b2);
    lemma_distribute(a1 * b2, a2 * b1, b3);
    lemma_swap_outer(a2, b3, b1);
    lemma_swap_outer(a3, b2, b1);
    lemma_swap_outer(a1, b3, b2);
}

/// `forward` and `right` have length one and are at right angles, up to the
/// rounding of the two products in `forward`.
pub proof fn lemma_forward_right(t: TrigModel)
    requires
        t.valid(),
    ensures
        abs(t.right().norm_sq() - UNIT * UNIT) <= 2_000_000,
        abs(t.forward().norm_sq() - UNIT * UNIT) <= 9_000_000,
        abs(t.forward().dot(t.right())) <= 2_000_000,
{
    lemma_components(t);
    let f = t.forward();
    let r = t.right();
    lemma_forward_right_dot(t.cos_phi, t.sin_theta, t.cos_theta, f.x as int, f.z as int);
    lemma_forward_horizontal(t.cos_phi, t.sin_theta, t.cos_theta, f.x as int, f.z as int);
    assert(r.norm_sq() == t.sin_theta * t.sin_theta + t.cos_theta * t.cos_theta) by (nonlinear_arith)
        requires
            r.norm_sq() == r.x * r.x + r.y * r.y + r.z * r.z,
            r.x == t.cos_theta,
            r.y == 0,
            r.z == -t.sin_theta,
    ;
    assert(f.norm_sq() == f.x * f.x + f.z * f.z + t.sin_phi * t.sin_phi) by (nonlinear_arith)
        requires
            f.norm_sq() == f.x * f.x + f.y * f.y + f.z * f.z,
            f.y == -t.sin_phi,
    ;
    assert(f.dot(r) == f.x * t.cos_theta - f.z * t.sin_theta) by (nonlinear_arith)
        requires
            f.dot(r) == f.x * r.x + f.y * r.y + f.z * r.z,
            r.x == t.cos_theta,
            r.y == 0,
            r.z == -t.sin_theta,
    ;
}

/// The cross product of `forward` and `right`: no component saturates, it is
/// at right angles to both, and its length is one (in `UNIT * UNIT`) up to six
/// millionths. So it is never the zero vector.
pub proof fn lemma_forward_cross_right(t: TrigModel)
    requires
        t.valid(),
    ensures
        ({
            let f = t.forward();
            let r = t.right();
            let c = f.spec_cross(r);
            &&& c.x == f.y * r.z - f.z * r.y
            &&& c.y == f.z * r.x - f.x * r.z
            &&& c.z == f.x * r.y - f.y * r.x
            &&& c.dot(f) == 0
            &&& c.dot(r) == 0
            &&& c.norm_sq() == f.norm_sq() * r.norm_sq() - f.dot(r) * f.dot(r)
            &&& 999_994_000_000 <= c.spec_length() <= 1_000_006_000_000
            &&& c.norm_sq() > 0
        }),
{
    lemma_components(t);
    lemma_forward_right(t);
    let f = t.forward();
    let r = t.right();
    let c = f.spec_cross(r);
    let (fx, fy, fz) = (f.x as int, f.y as int, f.z as int);
    let (rx, rz) = (r.x as int, r.z as int);
    lemma_product_bound(fy, rz, 1_000_000, 1_000_000);
    lemma_product_bound(fz, rx, 1_000_000, 1_000_000);
    lemma_product_bound(fx, rz, 1_000_000, 1_000_000);
    lemma_product_bound(fy, rx, 1_000_000, 1_000_000);
    assert(fz * r.y == 0 && fx * r.y == 0) by (nonlinear_arith)
        requires
            r.y == 0,
    ;
    let cz = -(fy * rx);
    lemma_cross_orthogonal(fx, fy, fz, rx, 0, rz);
    lemma_cross_orthogonal_second(fx, fy, fz, rx, 0, rz);
    // The squared length, by the identity of Lagrange.
    let big_f = f.norm_sq();
    let big_r = r.norm_sq();
    let d = f.dot(r);
    let n = c.norm_sq();
    lemma_lagrange_plane(fx, fz, rx, rz);
    lemma_square_of_product(fy, rz);
    lemma_square_of_product(fy, rx);
    assert(cz * cz == (fy * rx) * (fy * rx)) by (nonlinear_arith)
        requires
            cz == -(fy * rx),
    ;
    assert(big_r == rx * rx + rz * rz) by (nonlinear_arith)
        requires
            big_r == rx * rx + r.y * r.y + rz * rz,
            r.y == 0,
    ;
    assert(d == fx * rx + fz * rz) by (nonlinear_arith)
        requires
            d == fx * rx + fy * r.y + fz * rz,
            r.y == 0,
    ;
    assert(big_f * big_r == (fx * fx + fz * fz) * big_r + (fy * fy) * (rz * rz) + (fy * fy) * (rx
        * rx)) by (nonlinear_arith)
        requires
            big_f == fx * fx + fy * fy + fz * fz,
            big_r == rx * rx + rz * rz,
    ;
    lemma_length_near_one(big_f, big_r, d, n);
    crate::fixed::lemma_int_sqrt_bounds(n as nat);
    let len = c.spec_length() as int;
    assert(999_994_000_000 <= len <= 1_000_006_000_000) by (nonlinear_arith)
        requires
            0 <= len,
            len * len <= n < (len + 1) * (len + 1),
            999_994_000_000 * 999_994_000_000 <= n <= 1_000_006_000_000 * 1_000_006_000_000,
    ;
}

/// From two squared lengths near one and a dot product near zero to a squared
/// cross product near one.
proof fn lemma_length_near_one(big_f: int, big_r: int, d: int, n: int)
    by (nonlinear_arith)
    requires
        999_991_000_000 <= big_f <= 1_000_009_000_000,
        999_998_000_000 <= big_r <= 1_000_002_000_000,
        -2_000_000 <= d <= 2_000_000,
        n == big_f * big_r - d * d,
    ensures
        999_994_000_000 * 999_994_000_000 <= n <= 1_000_006_000_000 * 1_000_006_000_000,
{
}

/// What truncating division by `d` leaves over is less than `d`.
pub(crate) proof fn lemma_trunc_remainder_by(v: int, d: int)
    requires
        d > 0,
    ensures
        -(d - 1) <= v - d * trunc_div(v, d) <= d - 1,
{
    if v >= 0 {
        vstd::arithmetic::div_mod::lemma_fundamental_div_mod(v, d);
        vstd::arithmetic::div_mod::lemma_mod_bound(v, d);
    } else {
        vstd::arithmetic::div_mod::lemma_fundamental_div_mod(-v, d);
        vstd::arithmetic::div_mod::lemma_mod_bound(-v, d);
        assert(d * (-((-v) / d)) == -(d * ((-v) / d))) by (nonlinear_arith);
    }
}

/// A vector `c` scaled to length one stays at right angles, up to three
/// millionths, to a vector `w` of components no longer than one that `c` is at
/// right angles to.
proof fn lemma_scaled_stays_orthogonal(
    cx: int,
    cy: int,
    cz: int,
    len: int,
    ux: int,
    uy: int,
    uz: int,
    wx: int,
    wy: int,
    wz: int,
)
    requires
        len >= 1,
        ux == trunc_div(cx * 1_000_000, len),
        uy == trunc_div(cy * 1_000_000, len),
        uz == trunc_div(cz * 1_000_000, len),
        cx * wx + cy * wy + cz * wz == 0,
        -1_000_000 <= wx <= 1_000_000,
        -1_000_000 <= wy <= 1_000_000,
        -1_000_000 <= wz <= 1_000_000,
    ensures
        -3_000_000 <= ux * wx + uy * wy + uz * wz <= 3_000_000,
{
    let ex = cx * 1_000_000 - len * ux;
    let ey = cy * 1_000_000 - len * uy;
    let ez = cz * 1_000_000 - len * uz;
    lemma_trunc_remainder_by(cx * 1_000_000, len);
    lemma_trunc_remainder_by(cy * 1_000_000, len);
    lemma_trunc_remainder_by(cz * 1_000_000, len);
    let d = ux * wx + uy * wy + uz * wz;
    let (lx, ly, lz) = (len * ux, len * uy, len * uz);
    let (uwx, uwy, uwz) = (ux * wx, uy * wy, uz * wz);
    assert(len * (uwx + uwy + uwz) == len * uwx + len * uwy + len * uwz) by (nonlinear_arith);
    lemma_associate(len, ux, wx);
    lemma_associate(len, uy, wy);
    lemma_associate(len, uz, wz);
    let (cwx, cwy, cwz) = (cx * wx, cy * wy, cz * wz);
    assert(lx * wx == 1_000_000 * cwx - ex * wx) by (nonlinear_arith)
        requires
            lx == cx * 1_000_000 - ex,
            cwx == cx * wx,
    ;
    assert(ly * wy == 1_000_000 * cwy - ey * wy) by (nonlinear_arith)
        requires
            ly == cy * 1_000_000 - ey,
            cwy == cy * wy,
    ;
    assert(lz * wz == 1_000_000 * cwz - ez * wz) by (nonlinear_arith)
        requires
            lz == cz * 1_000_000 - ez,
            cwz == cz * wz,
    ;
    lemma_product_bound(ex, wx, len - 1, 1_000_000);
    lemma_product_bound(ey, wy, len - 1, 1_000_000);
    lemma_product_bound(ez, wz, len - 1, 1_000_000);
    assert(-3_000_000 <= d <= 3_000_000) by (nonlinear_arith)
        requires
            len >= 1,
            -3_000_000 * len < len * d < 3_000_000 * len,
    ;
}

/// The square of one component of a vector scaled to length one, times the
/// squared length: `(len * u) * (len * u)` for `len * u == c * UNIT - e`.
proof fn lemma_scaled_square(c: int, e: int, len: int, u: int)
    requires
        len * u == c * 1_000_000 - e,
    ensures
        (len * len) * (u * u) == 1_000_000_000_000 * (c * c) - 2_000_000 * (c * e) + e * e,
{
    let p = len * u;
    lemma_square_of_product(len, u);
    assert(p * p == 1_000_000_000_000 * (c * c) - 2_000_000 * (c * e) + e * e) by (nonlinear_arith)
        requires
            p == c * 1_000_000 - e,
    ;
}

/// The bounds of the three parts of what scaling leaves over, added up.
proof fn lemma_leftover_is_small(t: int, gap: int, ce: int, ee: int, len: int, l2: int, w: int, v: int)
    requires
        t == 1_000_000_000_000 * gap - 2_000_000 * ce + ee,
        0 <= gap <= 2 * len,
        -3 * w <= ce <= 3 * w,
        0 <= ee <= 3 * v,
        w == l2 - len,
        v == l2 - 2 * len + 1,
        len >= 999_994_000_000,
        l2 >= 999_994_000_000 * len,
    ensures
        -6_000_000 * l2 <= t <= 6_000_006 * l2,
{
}

/// A vector `c` whose length is near one (in `UNIT * UNIT`), scaled to length
/// one, has length one up to seven millionths.
proof fn lemma_scaled_has_length_one(
    cx: int,
    cy: int,
    cz: int,
    len: int,
    ux: int,
    uy: int,
    uz: int,
)
    requires
        len >= 999_994_000_000,
        len * len <= cx * cx + cy * cy + cz * cz < (len + 1) * (len + 1),
        -len <= cx <= len,
        -len <= cy <= len,
        -len <= cz <= len,
        ux == trunc_div(cx * 1_000_000, len),
        uy == trunc_div(cy * 1_000_000, len),
        uz == trunc_div(cz * 1_000_000, len),
    ensures
        -7_000_000 <= ux * ux + uy * uy + uz * uz - 1_000_000_000_000 <= 7_000_000,
{
    let ex = cx * 1_000_000 - len * ux;
    let ey = cy * 1_000_000 - len * uy;
    let ez = cz * 1_000_000 - len * uz;
    lemma_trunc_remainder_by(cx * 1_000_000, len);
    lemma_trunc_remainder_by(cy * 1_000_000, len);
    lemma_trunc_remainder_by(cz * 1_000_000, len);
    lemma_scaled_square(cx, ex, len, ux);
    lemma_scaled_square(cy, ey, len, uy);
    lemma_scaled_square(cz, ez, len, uz);
    let l2 = len * len;
    let n = cx * cx + cy * cy + cz * cz;
    let s = ux * ux + uy * uy + uz * uz;
    let ce = cx * ex + cy * ey + cz * ez;
    let ee = ex * ex + ey * ey + ez * ez;
    let (sx, sy, sz) = (ux * ux, uy * uy, uz * uz);
    assert(l2 * (sx + sy + sz) == l2 * sx + l2 * sy + l2 * sz) by (nonlinear_arith);
    // The three parts of what is left over.
    assert((len + 1) * (len + 1) == l2 + 2 * len + 1) by (nonlinear_arith)
        requires
            l2 == len * len,
    ;
    let w = len * (len - 1);
    assert(w == l2 - len) by (nonlinear_arith)
        requires
            w == len * (len - 1),
            l2 == len * len,
    ;
    lemma_product_bound(cx, ex, len, len - 1);
    lemma_product_bound(cy, ey, len, len - 1);
    lemma_product_bound(cz, ez, len, len - 1);
    let v = (len - 1) * (len - 1);
    assert(v == l2 - 2 * len + 1) by (nonlinear_arith)
        requires
            v == (len - 1) * (len - 1),
            l2 == len * len,
    ;
    lemma_product_bound(ex, ex, len - 1, len - 1);
    lemma_product_bound(ey, ey, len - 1, len - 1);
    lemma_product_bound(ez, ez, len - 1, len - 1);
    assert(l2 >= 999_994_000_000 * len) by (nonlinear_arith)
        requires
            l2 == len * len,
            len >= 999_994_000_000,
    ;
    assert(ex * ex >= 0 && ey * ey >= 0 && ez * ez >= 0) by (nonlinear_arith);
    let t = l2 * s - 1_000_000_000_000 * l2;
    lemma_leftover_is_small(t, n - l2, ce, ee, len, l2, w, v);
    assert(t == l2 * (s - 1_000_000_000_000)) by (nonlinear_arith)
        requires
            t == l2 * s - 1_000_000_000_000 * l2,
    ;
    let x = s - 1_000_000_000_000;
    assert(-7_000_000 <= x <= 7_000_000) by (nonlinear_arith)
        requires
            l2 >= 1,
            -6_000_000 * l2 <= l2 * x <= 6_000_006 * l2,
    ;
}

/// The basis of the orientation model is orthonormal: whatever the yaw and the
/// pitch, each of `forward`, `right` and `up` has length one, and each two of
/// them are at right angles, both up to `BASIS_SLACK`, which is ten millionths.
pub proof fn lemma_basis_orthonormal(t: TrigModel)
    requires
        t.valid(),
    ensures
        abs(t.forward().norm_sq() - UNIT * UNIT) <= BASIS_SLACK,
        abs(t.right().norm_sq() - UNIT * UNIT) <= BASIS_SLACK,
        abs(t.up().norm_sq() - UNIT * UNIT) <= BASIS_SLACK,
        abs(t.forward().dot(t.right())) <= BASIS_SLACK,
        abs(t.up().dot(t.forward())) <= BASIS_SLACK,
        abs(t.up().dot(t.right())) <= BASIS_SLACK,
{
    lemma_components(t);
    lemma_forward_right(t);
    lemma_forward_cross_right(t);
    let f = t.forward();
    let r = t.right();
    let c = f.spec_cross(r);
    let u = t.up();
    let len = c.spec_length() as int;
    crate::vector::lemma_normalize_components(c);
    crate::vector::lemma_component_below_length(c);
    crate::fixed::lemma_int_sqrt_bounds(c.norm_sq() as nat);
    lemma_scaled_stays_orthogonal(
        c.x as int,
        c.y as int,
        c.z as int,
        len,
        u.x as int,
        u.y as int,
        u.z as int,
        f.x as int,
        f.y as int,
        f.z as int,
    );
    lemma_scaled_stays_orthogonal(
        c.x as int,
        c.y as int,
        c.z as int,
        len,
        u.x as int,
        u.y as int,
        u.z as int,
        r.x as int,
        r.y as int,
        r.z as int,
    );
    lemma_scaled_has_length_one(
        c.x as int,
        c.y as int,
        c.z as int,
        len,
        u.x as int,
        u.y as int,
        u.z as int,
    );
}

} // verus!
