//! Sine and cosine of binary angles.
//!
//! An angle is a `u32` that counts units of 2^-32 of a full turn, so angles
//! wrap around by themselves. Within a quarter turn the sine is the odd
//! quintic `z * (A - z^2 * (B - z^2 * C))` of the fraction `z` of the quarter
//! turn; its coefficients make it exact at both ends of the quarter and keep
//! it within 0.0004 of the true sine in between.
use crate::fixed::{fx_mul, fx_sub, Fixed, ONE_RAW};
use vstd::prelude::*;

verus! {

/// Linear coefficient of the quarter-turn sine: pi / 2.
pub const SINE_A: i64 = 0x1_921F_B544;

/// Cubic coefficient of the quarter-turn sine: pi - 5 / 2.
pub const SINE_B: i64 = 0xA43F_6A88;

/// Quintic coefficient of the quarter-turn sine: `1 - A + B`, close to pi / 2 - 3 / 2.
pub const SINE_C: i64 = 0x121F_B544;

/// Binary angle of a quarter turn.
pub const QUARTER_TURN: u32 = 0x4000_0000;

/// The quintic before it is clamped.
pub open spec fn sine_quintic(z: int) -> int {
    let z2 = fx_mul(z, z);
    let inner = fx_sub(SINE_B as int, fx_mul(z2, SINE_C as int));
    let middle = fx_sub(SINE_A as int, fx_mul(z2, inner));
    fx_mul(z, middle)
}

/// Sine of the fraction `z` of a quarter turn, for `z` in `[0, 1]`: the quintic, clamped to `[0, 1]`.
pub open spec fn sine_quarter(z: int) -> int {
    let v = sine_quintic(z);
    if v < 0 {
        0
    } else if v > ONE_RAW {
        ONE_RAW as int
    } else {
        v
    }
}

/// Fraction of the quarter turn that `angle` has entered, as a raw value in `[0, 1)`.
pub open spec fn quarter_fraction(angle: int) -> int {
    (angle % (QUARTER_TURN as int)) * 4
}

/// Cosine of a binary angle.
pub open spec fn cos_turn(angle: int) -> int {
    let quadrant = angle / (QUARTER_TURN as int);
    let z = quarter_fraction(angle);
    if quadrant == 0 {
        sine_quarter(ONE_RAW - z)
    } else if quadrant == 1 {
        -sine_quarter(z)
    } else if quadrant == 2 {
        -sine_quarter(ONE_RAW - z)
    } else {
        sine_quarter(z)
    }
}

/// Sine of a binary angle.
pub open spec fn sin_turn(angle: int) -> int {
    let quadrant = angle / (QUARTER_TURN as int);
    let z = quarter_fraction(angle);
    if quadrant == 0 {
        sine_quarter(z)
    } else if quadrant == 1 {
        sine_quarter(ONE_RAW - z)
    } else if quadrant == 2 {
        -sine_quarter(z)
    } else {
        -sine_quarter(ONE_RAW - z)
    }
}

/// The quarter-turn sine is exact at both ends of the quarter.
pub proof fn lemma_sine_quarter_ends()
    ensures
        sine_quarter(0) == 0,
        sine_quarter(ONE_RAW as int) == ONE_RAW,
{
    let one = ONE_RAW as int;
    assert(fx_mul(0, 0) == 0);
    assert(sine_quintic(0) == 0) by {
        let inner = fx_sub(SINE_B as int, fx_mul(0, SINE_C as int));
        let middle = fx_sub(SINE_A as int, fx_mul(0, inner));
        assert(0 * middle == 0);
    }
    crate::fixed::lemma_mul_one(one);
    crate::fixed::lemma_mul_one(SINE_C as int);
    let inner = fx_sub(SINE_B as int, SINE_C as int);
    crate::fixed::lemma_mul_one(inner);
    let middle = fx_sub(SINE_A as int, inner);
    crate::fixed::lemma_mul_one(middle);
}

/// Sine of the fraction `z` of a quarter turn.
pub fn sine_of_quarter(z: Fixed) -> (r: Fixed)
    ensures
        r@ == sine_quarter(z@),
        0 <= r@ <= ONE_RAW,
{
    let z2 = z.times(z);
    let inner = Fixed::from_raw(SINE_B).minus(z2.times(Fixed::from_raw(SINE_C)));
    let middle = Fixed::from_raw(SINE_A).minus(z2.times(inner));
    let v = z.times(middle);
    v.max(Fixed::zero()).min(Fixed::one())
}

/// Cosine and sine of a binary angle, in this order.
pub fn unit_direction(angle: u32) -> (r: (Fixed, Fixed))
    ensures
        r.0@ == cos_turn(angle as int),
        r.1@ == sin_turn(angle as int),
        -(ONE_RAW as int) <= r.0@ <= ONE_RAW,
        -(ONE_RAW as int) <= r.1@ <= ONE_RAW,
{
    let quadrant: u32 = angle / QUARTER_TURN;
    let z = Fixed::from_raw((angle % QUARTER_TURN) as i64 * 4);
    let rising = sine_of_quarter(z);
    let falling = sine_of_quarter(Fixed::one().minus(z));
    if quadrant == 0 {
        (falling, rising)
    } else if quadrant == 1 {
        (rising.negated(), falling)
    } else if quadrant == 2 {
        (falling.negated(), rising.negated())
    } else {
        (rising, falling.negated())
    }
}

} // verus!
