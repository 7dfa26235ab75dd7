//! Interpolation kernels: how a noise field blends between lattice points.
//!
//! Every kernel blends `a` toward `b` as `a + (b - a) * w(t)`; the kernels
//! differ in the weight `w`.
use crate::fixed::{fx_abs, fx_add, fx_mul, fx_sub, Fixed, ONE_RAW};
use crate::trig::{cos_turn, lemma_sine_quarter_ends, unit_direction};
use vstd::prelude::*;

verus! {

/// The blend `a + (b - a) * w`.
pub open spec fn blend(a: int, b: int, w: int) -> int {
    fx_add(a, fx_mul(fx_sub(b, a), w))
}

/// Smoothstep weight `t^2 * (3 - 2 t)`.
pub open spec fn cubic_weight(t: int) -> int {
    fx_mul(fx_mul(t, t), fx_sub(3 * ONE_RAW, fx_mul(2 * ONE_RAW, t)))
}

/// Smootherstep weight `t^3 * (t * (6 t - 15) + 10)`.
pub open spec fn quintic_weight(t: int) -> int {
    fx_mul(
        fx_mul(fx_mul(t, t), t),
        fx_add(fx_mul(t, fx_sub(fx_mul(t, 6 * ONE_RAW), 15 * ONE_RAW)), 10 * ONE_RAW),
    )
}

/// Binary angle of `t` half turns, taken on the magnitude of `t`.
pub open spec fn half_turns(t: int) -> int {
    (fx_abs(t) / 2) % 0x1_0000_0000
}

/// Cosine weight `(1 - cos(pi t)) / 2`.
pub open spec fn cosine_weight(t: int) -> int {
    (ONE_RAW - cos_turn(half_turns(t))) / 2
}

/// Weight that `kind` gives to `t`.
pub open spec fn weight(kind: Interpolation, t: int) -> int {
    match kind {
        Interpolation::Linear => t,
        Interpolation::Cubic => cubic_weight(t),
        Interpolation::Quintic => quintic_weight(t),
        Interpolation::Cosine => cosine_weight(t),
    }
}

/// Value that `kind` interpolates between `a` and `b` at `t`.
pub open spec fn interpolate(kind: Interpolation, a: int, b: int, t: int) -> int {
    blend(a, b, weight(kind, t))
}

/// Linear interpolation.
pub fn lerp(a: Fixed, b: Fixed, t: Fixed) -> (r: Fixed)
    ensures
        r@ == blend(a@, b@, t@),
{
    a.plus(b.minus(a).times(t))
}

/// Cubic (smoothstep) interpolation.
pub fn cubic(a: Fixed, b: Fixed, t: Fixed) -> (r: Fixed)
    ensures
        r@ == blend(a@, b@, cubic_weight(t@)),
{
    let three = Fixed::from_raw(3 * ONE_RAW);
    let two = Fixed::from_raw(2 * ONE_RAW);
    let v = t.times(t).times(three.minus(two.times(t)));
    lerp(a, b, v)
}

/// Quintic (smootherstep) interpolation.
pub fn quintic(a: Fixed, b: Fixed, t: Fixed) -> (r: Fixed)
    ensures
        r@ == blend(a@, b@, quintic_weight(t@)),
{
    let six = Fixed::from_raw(6 * ONE_RAW);
    let fifteen = Fixed::from_raw(15 * ONE_RAW);
    let ten = Fixed::from_raw(10 * ONE_RAW);
    let v = t.times(t).times(t).times(t.times(t.times(six).minus(fifteen)).plus(ten));
    lerp(a, b, v)
}

/// Cosine interpolation.
pub fn cosine(a: Fixed, b: Fixed, t: Fixed) -> (r: Fixed)
    ensures
        r@ == blend(a@, b@, cosine_weight(t@)),
{
    let magnitude: i64 = t.abs().raw();
    let angle: u32 = ((magnitude / 2) % 0x1_0000_0000) as u32;
    let (cos, _) = unit_direction(angle);
    let f = Fixed::from_raw((ONE_RAW - cos.raw()) / 2);
    lerp(a, b, f)
}

/// Choice of interpolation kernel.
#[derive(Clone, Copy, Debug, PartialEq, Eq, Structural)]
pub enum Interpolation {
    Linear,
    Cubic,
    Quintic,
    Cosine,
}

impl Default for Interpolation {
    fn default() -> (r: Interpolation)
        ensures
            r == Interpolation::Linear,
    {
        Interpolation::Linear
    }
}

impl Interpolation {
    /// Interpolates between `a` and `b` at `t` with this kernel.
    pub fn apply(self, a: Fixed, b: Fixed, t: Fixed) -> (r: Fixed)
        ensures
            r@ == interpolate(self, a@, b@, t@),
    {
        match self {
            Interpolation::Linear => lerp(a, b, t),
            Interpolation::Cubic => cubic(a, b, t),
            Interpolation::Quintic => quintic(a, b, t),
            Interpolation::Cosine => cosine(a, b, t),
        }
    }
}

/// Every kernel gives weight zero to `t = 0` and weight one to `t = 1`, so it
/// returns `a` at zero and, where `b - a` does not saturate, `b` at one.
pub proof fn lemma_weight_ends(kind: Interpolation)
    ensures
        weight(kind, 0) == 0,
        weight(kind, ONE_RAW as int) == ONE_RAW,
{
    let one = ONE_RAW as int;
    lemma_sine_quarter_ends();
    crate::fixed::lemma_mul_one(one);
    crate::fixed::lemma_mul_one(2 * one);
    crate::fixed::lemma_mul_one(6 * one);
    crate::fixed::lemma_mul_one(-9 * one);
    assert(fx_mul(0, 0) == 0);
    assert(cubic_weight(0) == 0) by {
        let rest = fx_sub(3 * ONE_RAW, fx_mul(2 * ONE_RAW, 0));
        assert(0 * rest == 0);
    }
    assert(quintic_weight(0) == 0) by {
        let rest = fx_add(fx_mul(0, fx_sub(fx_mul(0, 6 * ONE_RAW), 15 * ONE_RAW)), 10 * ONE_RAW);
        assert(0 * rest == 0);
    }
    assert(half_turns(0) == 0);
    assert(half_turns(one) == 0x8000_0000);
}

/// Every kernel returns `a` at zero and `b` at one: a field interpolated
/// with it has no seam where one lattice cell ends and the next begins.
pub proof fn lemma_interpolate_ends(kind: Interpolation, a: int, b: int)
    requires
        -0x2000_0000_0000_0000 <= a <= 0x2000_0000_0000_0000,
        -0x2000_0000_0000_0000 <= b <= 0x2000_0000_0000_0000,
    ensures
        interpolate(kind, a, b, 0) == a,
        interpolate(kind, a, b, ONE_RAW as int) == b,
{
    lemma_weight_ends(kind);
    crate::fixed::lemma_mul_one(b - a);
    assert((b - a) * 0 == 0);
}

/// `t^2 (3 u - 2 t)` stays below `u^3` for `t` in `[0, u]`.
proof fn lemma_cubic_bound(t: int, u: int)
    requires
        0 <= t <= u,
    ensures
        t * t * (3 * u - 2 * t) <= u * u * u,
{
    assert(t * t * (3 * u - 2 * t) <= u * u * u) by (nonlinear_arith)
        requires
            0 <= t <= u,
    {
        assert((u - t) * (u - t) >= 0);
        assert((u - t) * (u - t) * (u + 2 * t) >= 0);
        assert((u - t) * (u - t) * (u + 2 * t) == u * u * u - t * t * (3 * u - 2 * t));
    }
}

/// Between zero and one the cubic kernel gives a weight between zero and one.
pub proof fn lemma_cubic_weight_range(t: int)
    requires
        0 <= t <= ONE_RAW,
    ensures
        0 <= cubic_weight(t) <= ONE_RAW,
{
    let u = ONE_RAW as int;
    let t2 = (t * t) / u;
    let s = 3 * u - 2 * t;
    assert(0 <= t * t <= u * u) by (nonlinear_arith)
        requires
            0 <= t <= u,
    ;
    assert(0 <= t2 <= u && t2 * u <= t * t) by (nonlinear_arith)
        requires
            0 <= t * t <= u * u,
            t2 == (t * t) / u,
            u > 0,
    ;
    assert(fx_mul(t, t) == t2);
    assert(((2 * u) * t) / u == 2 * t) by (nonlinear_arith)
        requires
            u > 0,
    ;
    assert(fx_mul(2 * ONE_RAW, t) == 2 * t);
    assert(fx_sub(3 * ONE_RAW, 2 * t) == s);
    lemma_cubic_bound(t, u);
    assert(0 <= t2 * s <= u * u) by (nonlinear_arith)
        requires
            0 <= t2,
            t2 * u <= t * t,
            u <= s,
            t * t * s <= u * u * u,
            u > 0,
            0 <= t,
    {
        assert(t2 * s * u <= t * t * s);
    }
    assert(0 <= (t2 * s) / u <= u) by (nonlinear_arith)
        requires
            0 <= t2 * s <= u * u,
            u > 0,
    ;
}

/// `t^3 (6 t^2 - 15 u t + 10 u^2)` stays between zero and `u^5` for `t` in
/// `[0, u]`, and its second factor stays at or above `u^2`.
proof fn lemma_quintic_bound(t: int, u: int)
    requires
        0 <= t <= u,
    ensures
        u * u <= 6 * t * t - 15 * u * t + 10 * u * u,
        t * t * t * (6 * t * t - 15 * u * t + 10 * u * u) <= u * u * u * u * u,
{
    assert(u * u <= 6 * t * t - 15 * u * t + 10 * u * u) by (nonlinear_arith)
        requires
            0 <= t <= u,
    {
        assert((u - t) * (9 * u - 6 * t) >= 0);
        assert((u - t) * (9 * u - 6 * t) == 6 * t * t - 15 * u * t + 9 * u * u);
    }
    // (u - t)^3 (u^2 + 3 u t + 6 t^2) = u^5 - t^3 (6 t^2 - 15 u t + 10 u^2), term by term
    let e = u - t;
    let f = u * u + 3 * u * t + 6 * t * t;
    let g = 6 * t * t - 15 * u * t + 10 * u * u;
    let e2 = e * e;
    let e3 = e2 * e;
    let u2 = u * u;
    let u3 = u2 * u;
    let t2 = t * t;
    let t3 = t2 * t;
    assert(e2 == u2 - 2 * (u * t) + t2) by (nonlinear_arith)
        requires
            e == u - t,
            e2 == e * e,
            u2 == u * u,
            t2 == t * t,
    ;
    assert(e3 == u3 - 3 * (u2 * t) + 3 * (u * t2) - t3) by (nonlinear_arith)
        requires
            e == u - t,
            e3 == e2 * e,
            e2 == u2 - 2 * (u * t) + t2,
            u3 == u2 * u,
            t3 == t2 * t,
            u2 == u * u,
            t2 == t * t,
    ;
    assert(f == u2 + 3 * (u * t) + 6 * t2 && g == 6 * t2 - 15 * (u * t) + 10 * u2)
        by (nonlinear_arith)
        requires
            f == u * u + 3 * u * t + 6 * t * t,
            g == 6 * t * t - 15 * u * t + 10 * u * u,
            u2 == u * u,
            t2 == t * t,
    ;
    let a0 = u3 * f;
    let a1 = (u2 * t) * f;
    let a2 = (u * t2) * f;
    let a3 = t3 * f;
    assert(e3 * f == a0 - 3 * a1 + 3 * a2 - a3) by (nonlinear_arith)
        requires
            e3 == u3 - 3 * (u2 * t) + 3 * (u * t2) - t3,
            a0 == u3 * f,
            a1 == (u2 * t) * f,
            a2 == (u * t2) * f,
            a3 == t3 * f,
    ;
    // monomials of degree five
    let m50 = u3 * u2;
    let m41 = u3 * (u * t);
    let m32 = u3 * t2;
    let m23 = u2 * t3;
    let m14 = (u * t2) * t2;
    let m05 = t3 * t2;
    assert(a0 == m50 + 3 * m41 + 6 * m32) by (nonlinear_arith)
        requires
            a0 == u3 * f,
            f == u2 + 3 * (u * t) + 6 * t2,
            m50 == u3 * u2,
            m41 == u3 * (u * t),
            m32 == u3 * t2,
    ;
    assert((u2 * t) * u2 == m41 && (u2 * t) * (u * t) == m32 && (u2 * t) * t2 == m23)
        by (nonlinear_arith)
        requires
            m41 == u3 * (u * t),
            m32 == u3 * t2,
            m23 == u2 * t3,
            u3 == u2 * u,
            u2 == u * u,
            t2 == t * t,
            t3 == t2 * t,
    ;
    assert(a1 == m41 + 3 * m32 + 6 * m23) by (nonlinear_arith)
        requires
            a1 == (u2 * t) * f,
            f == u2 + 3 * (u * t) + 6 * t2,
            (u2 * t) * u2 == m41,
            (u2 * t) * (u * t) == m32,
            (u2 * t) * t2 == m23,
    ;
    assert((u * t2) * u2 == m32 && (u * t2) * (u * t) == m23) by (nonlinear_arith)
        requires
            m32 == u3 * t2,
            m23 == u2 * t3,
            u3 == u2 * u,
            u2 == u * u,
            t2 == t * t,
            t3 == t2 * t,
    ;
    assert(a2 == m32 + 3 * m23 + 6 * m14) by (nonlinear_arith)
        requires
            a2 == (u * t2) * f,
            f == u2 + 3 * (u * t) + 6 * t2,
            (u * t2) * u2 == m32,
            (u * t2) * (u * t) == m23,
            m14 == (u * t2) * t2,
    ;
    assert(t3 * u2 == m23 && t3 * (u * t) == m14) by (nonlinear_arith)
        requires
            m23 == u2 * t3,
            m14 == (u * t2) * t2,
            t2 == t * t,
            t3 == t2 * t,
    ;
    assert(a3 == m23 + 3 * m14 + 6 * m05) by (nonlinear_arith)
        requires
            a3 == t3 * f,
            f == u2 + 3 * (u * t) + 6 * t2,
            t3 * u2 == m23,
            t3 * (u * t) == m14,
            m05 == t3 * t2,
    ;
    assert(t3 * g == 6 * m05 - 15 * m14 + 10 * m23) by (nonlinear_arith)
        requires
            g == 6 * t2 - 15 * (u * t) + 10 * u2,
            t3 * u2 == m23,
            t3 * (u * t) == m14,
            m05 == t3 * t2,
    ;
    assert(e3 * f == m50 - t3 * g);
    assert(e3 >= 0 && f >= 0) by (nonlinear_arith)
        requires
            e >= 0,
            e2 == e * e,
            e3 == e2 * e,
            f == u * u + 3 * u * t + 6 * t * t,
            0 <= t <= u,
    ;
    assert(e3 * f >= 0) by (nonlinear_arith)
        requires
            e3 >= 0,
            f >= 0,
    ;
    assert(t * t * t * (6 * t * t - 15 * u * t + 10 * u * u) == t3 * g && u * u * u * u * u == m50)
        by (nonlinear_arith)
        requires
            t3 == t2 * t,
            t2 == t * t,
            g == 6 * t * t - 15 * u * t + 10 * u * u,
            m50 == u3 * u2,
            u3 == u2 * u,
            u2 == u * u,
    ;
}

/// Between zero and one the quintic kernel gives a weight between zero and one.
pub proof fn lemma_quintic_weight_range(t: int)
    requires
        0 <= t <= ONE_RAW,
    ensures
        0 <= quintic_weight(t) <= ONE_RAW,
{
    let u = ONE_RAW as int;
    let t2 = (t * t) / u;
    let t3 = (t2 * t) / u;
    let a = 6 * t - 15 * u;
    let b = (t * a) / u;
    let c = b + 10 * u;
    let poly = 6 * t * t - 15 * u * t + 10 * u * u;
    assert(0 <= t * t <= u * u) by (nonlinear_arith)
        requires
            0 <= t <= u,
    ;
    assert(0 <= t2 <= u && t2 * u <= t * t) by (nonlinear_arith)
        requires
            0 <= t * t <= u * u,
            t2 == (t * t) / u,
            u > 0,
    ;
    assert(0 <= t2 * t <= u * u) by (nonlinear_arith)
        requires
            0 <= t2 <= u,
            0 <= t <= u,
    ;
    assert(0 <= t3 <= u && t3 * u <= t2 * t) by (nonlinear_arith)
        requires
            0 <= t2 * t <= u * u,
            t3 == (t2 * t) / u,
            u > 0,
    ;
    assert((t * (6 * u)) / u == 6 * t) by (nonlinear_arith)
        requires
            u > 0,
    ;
    assert(-15 * u * u <= t * a <= 0) by (nonlinear_arith)
        requires
            0 <= t <= u,
            a == 6 * t - 15 * u,
    ;
    assert(-15 * u <= b <= 0 && b * u <= t * a && t * a < b * u + u) by (nonlinear_arith)
        requires
            -15 * u * u <= t * a <= 0,
            b == (t * a) / u,
            u > 0,
    ;
    assert(fx_mul(t, t) == t2);
    assert(fx_mul(t2, t) == t3);
    assert(fx_mul(t, 6 * ONE_RAW) == 6 * t);
    assert(fx_sub(6 * t, 15 * ONE_RAW) == a);
    assert(fx_mul(t, a) == b);
    assert(fx_add(b, 10 * ONE_RAW) == c);
    lemma_quintic_bound(t, u);
    assert(t * a + 10 * u * u == poly) by (nonlinear_arith)
        requires
            a == 6 * t - 15 * u,
            poly == 6 * t * t - 15 * u * t + 10 * u * u,
    ;
    // c u <= poly, and c u > poly - u >= u^2 - u, so c >= 0
    assert(c * u <= poly && c >= 0) by (nonlinear_arith)
        requires
            c == b + 10 * u,
            b * u <= t * a,
            t * a < b * u + u,
            t * a + 10 * u * u == poly,
            u * u <= poly,
            u > 0,
    ;
    assert(0 <= t3 * c <= u * u) by (nonlinear_arith)
        requires
            0 <= t3,
            0 <= c,
            c * u <= poly,
            t3 * u <= t2 * t,
            t2 * u <= t * t,
            0 <= t <= u,
            0 <= t2,
            t * t * t * poly <= u * u * u * u * u,
            u * u <= poly,
            u > 0,
    {
        assert(t3 * u * u <= t2 * t * u);
        assert(t2 * t * u <= t * t * t);
        assert(t3 * u * u <= t * t * t);
        assert(t3 * u * u * (c * u) <= t * t * t * poly);
        assert(t3 * c * (u * u * u) <= u * u * (u * u * u));
    }
    assert(0 <= (t3 * c) / u <= u) by (nonlinear_arith)
        requires
            0 <= t3 * c <= u * u,
            u > 0,
    ;
}

/// Between zero and one every kernel gives a weight between zero and one.
pub proof fn lemma_weight_range(kind: Interpolation, t: int)
    requires
        0 <= t <= ONE_RAW,
    ensures
        0 <= weight(kind, t) <= ONE_RAW,
{
    match kind {
        Interpolation::Linear => {},
        Interpolation::Cubic => lemma_cubic_weight_range(t),
        Interpolation::Quintic => lemma_quintic_weight_range(t),
        Interpolation::Cosine => {},
    }
}

/// A blend with a weight between zero and one lies between its two ends.
pub proof fn lemma_blend_between(a: int, b: int, w: int)
    requires
        -0x2000_0000_0000_0000 <= a <= 0x2000_0000_0000_0000,
        -0x2000_0000_0000_0000 <= b <= 0x2000_0000_0000_0000,
        0 <= w <= ONE_RAW,
    ensures
        a <= b ==> a <= blend(a, b, w) <= b,
        b <= a ==> b <= blend(a, b, w) <= a,
{
    let u = ONE_RAW as int;
    let diff = b - a;
    let q = (diff * w) / u;
    assert((diff >= 0 ==> 0 <= q <= diff) && (diff <= 0 ==> diff <= q <= 0)) by (nonlinear_arith)
        requires
            q == (diff * w) / u,
            0 <= w <= u,
            u > 0,
    {
        if diff >= 0 {
            assert(0 <= diff * w <= diff * u);
        } else {
            assert(diff * u <= diff * w <= 0);
        }
    }
    assert(fx_sub(b, a) == diff);
    assert(fx_mul(diff, w) == q);
}

/// Between two ends in a common range, every kernel stays in that range for
/// `t` between zero and one.
pub proof fn lemma_interpolate_between(kind: Interpolation, a: int, b: int, t: int, lo: int, hi: int)
    requires
        -0x2000_0000_0000_0000 <= lo <= a <= hi <= 0x2000_0000_0000_0000,
        lo <= b <= hi,
        0 <= t <= ONE_RAW,
    ensures
        lo <= interpolate(kind, a, b, t) <= hi,
{
    lemma_weight_range(kind, t);
    lemma_blend_between(a, b, weight(kind, t));
}

} // verus!
