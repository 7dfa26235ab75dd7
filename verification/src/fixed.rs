//! Fixed-point real numbers.
//!
//! Every real quantity of the generator (heights, noise values, coordinates,
//! ramp positions, light vectors) is a [`Fixed`]: a signed 64-bit integer that
//! counts units of 2^-32. Arithmetic is exact on the integers and then
//! saturated to the 64-bit range, so every operation is total; division
//! rounds toward negative infinity.
use vstd::prelude::*;

verus! {

/// Raw representation of the number one.
pub const ONE_RAW: i64 = 0x1_0000_0000;

/// Raw representation of one half.
pub const HALF_RAW: i64 = 0x8000_0000;

/// Clamps an integer to the range of raw values.
pub open spec fn sat(v: int) -> int {
    if v < i64::MIN as int {
        i64::MIN as int
    } else if v > i64::MAX as int {
        i64::MAX as int
    } else {
        v
    }
}

/// Quotient of `n` by a non-zero `d`, rounded toward negative infinity.
pub open spec fn floor_quot(n: int, d: int) -> int {
    if d > 0 {
        n / d
    } else {
        (-n) / (-d)
    }
}

/// Raw sum.
pub open spec fn fx_add(a: int, b: int) -> int {
    sat(a + b)
}

/// Raw difference.
pub open spec fn fx_sub(a: int, b: int) -> int {
    sat(a - b)
}

/// Raw negation.
pub open spec fn fx_neg(a: int) -> int {
    sat(-a)
}

/// Raw magnitude.
pub open spec fn fx_abs(a: int) -> int {
    if a < 0 {
        sat(-a)
    } else {
        a
    }
}

/// Raw product.
pub open spec fn fx_mul(a: int, b: int) -> int {
    sat((a * b) / (ONE_RAW as int))
}

/// Raw quotient by a non-zero divisor.
pub open spec fn fx_div(a: int, b: int) -> int {
    sat(floor_quot(a * (ONE_RAW as int), b))
}

/// Raw value of the integer `n`.
pub open spec fn fx_from_int(n: int) -> int {
    sat(n * (ONE_RAW as int))
}

/// Raw value of the fraction `num / den` for a non-zero `den`.
pub open spec fn fx_from_ratio(num: int, den: int) -> int {
    sat(floor_quot(num * (ONE_RAW as int), den))
}

/// Whole part of a raw value as a lattice coordinate: negative values map to zero.
pub open spec fn fx_int_part(a: int) -> int {
    if a < 0 {
        0
    } else {
        a / (ONE_RAW as int)
    }
}

/// Fractional part of a raw value, carrying the sign of the value.
pub open spec fn fx_fract(a: int) -> int {
    if a >= 0 {
        a % (ONE_RAW as int)
    } else {
        -((-a) % (ONE_RAW as int))
    }
}

/// The byte that a raw value in `[0, 1]` maps to: `floor(a * 255)`, clamped to a byte.
pub open spec fn fx_channel(a: int) -> int {
    let scaled = (a * 255) / (ONE_RAW as int);
    if scaled < 0 {
        0
    } else if scaled > 255 {
        255
    } else {
        scaled
    }
}

/// `s` is the integer square root of `n`.
pub open spec fn is_floor_sqrt(s: int, n: int) -> bool {
    s >= 0 && s * s <= n < (s + 1) * (s + 1)
}

/// Integer square root of a non-negative integer.
pub open spec fn int_sqrt(n: int) -> int {
    choose|s: int| is_floor_sqrt(s, n)
}

/// Raw square root; negative inputs map to zero.
pub open spec fn fx_sqrt(a: int) -> int {
    if a <= 0 {
        0
    } else {
        int_sqrt(a * (ONE_RAW as int))
    }
}

/// The integer square root is unique.
pub proof fn lemma_int_sqrt_unique(s: int, n: int)
    requires
        is_floor_sqrt(s, n),
    ensures
        int_sqrt(n) == s,
{
    let t = int_sqrt(n);
    assert(is_floor_sqrt(t, n));
    assert(t == s) by (nonlinear_arith)
        requires
            is_floor_sqrt(t, n),
            is_floor_sqrt(s, n),
    {
        if t < s {
            assert((t + 1) * (t + 1) <= s * s);
        }
        if s < t {
            assert((s + 1) * (s + 1) <= t * t);
        }
    }
}

/// Multiplying by one changes nothing.
pub proof fn lemma_mul_one(a: int)
    requires
        i64::MIN <= a <= i64::MAX,
    ensures
        fx_mul(a, ONE_RAW as int) == a,
        fx_mul(ONE_RAW as int, a) == a,
{
    assert((a * (ONE_RAW as int)) / (ONE_RAW as int) == a) by (nonlinear_arith);
    assert(((ONE_RAW as int) * a) / (ONE_RAW as int) == a) by (nonlinear_arith);
}

/// A quotient of a value between zero and a positive divisor lies between zero and one.
pub proof fn lemma_div_unit_range(a: int, b: int)
    requires
        0 <= a <= b,
        0 < b <= i64::MAX,
    ensures
        0 <= fx_div(a, b) <= ONE_RAW,
        a == 0 ==> fx_div(a, b) == 0,
        a == b ==> fx_div(a, b) == ONE_RAW,
{
    let one = ONE_RAW as int;
    assert(0 <= (a * one) / b <= one && (a == 0 ==> (a * one) / b == 0) && (a == b ==> (a * one)
        / b == one)) by (nonlinear_arith)
        requires
            0 <= a <= b,
            0 < b,
            one > 0,
    {
        assert(a * one <= b * one);
        assert((b * one) / b == one);
        if a == 0 {
            assert(a * one == 0);
        }
    }
}

/// A fixed-point number: `raw` counts units of 2^-32.
#[derive(Clone, Copy, Debug, PartialEq, Eq, Structural)]
pub struct Fixed {
    pub raw: i64,
}

impl View for Fixed {
    type V = int;

    open spec fn view(&self) -> int {
        self.raw as int
    }
}

fn saturate(v: i128) -> (r: Fixed)
    ensures
        r@ == sat(v as int),
{
    if v < i64::MIN as i128 {
        Fixed { raw: i64::MIN }
    } else if v > i64::MAX as i128 {
        Fixed { raw: i64::MAX }
    } else {
        Fixed { raw: v as i64 }
    }
}

fn floor_div_wide(n: i128, d: i128) -> (q: i128)
    requires
        d > 0,
        n > i128::MIN,
    ensures
        q == (n as int) / (d as int),
{
    if n >= 0 {
        n / d
    } else {
        let m: i128 = -n;
        let k: i128 = (m - 1) / d;
        proof {
            let r = (m - 1) % (d as int);
            vstd::arithmetic::div_mod::lemma_fundamental_div_mod(m - 1, d as int);
            assert(n == d * (-k - 1) + (d - 1 - r)) by (nonlinear_arith)
                requires
                    m - 1 == d * k + r,
                    n == -m,
            ;
            vstd::arithmetic::div_mod::lemma_fundamental_div_mod_converse(
                n as int,
                d as int,
                -k - 1,
                d - 1 - r,
            );
        }
        -k - 1
    }
}

fn floor_quot_wide(n: i128, d: i128) -> (q: i128)
    requires
        d != 0,
        -0x4000_0000_0000_0000_0000_0000_0000_0000 < n < 0x4000_0000_0000_0000_0000_0000_0000_0000,
        -0x4000_0000_0000_0000_0000_0000_0000_0000 < d < 0x4000_0000_0000_0000_0000_0000_0000_0000,
    ensures
        q == floor_quot(n as int, d as int),
{
    if d > 0 {
        floor_div_wide(n, d)
    } else {
        floor_div_wide(-n, -d)
    }
}

impl Fixed {
    /// The number whose raw value is `raw`.
    pub fn from_raw(raw: i64) -> (r: Fixed)
        ensures
            r@ == raw,
    {
        Fixed { raw }
    }

    /// The raw value.
    pub fn raw(self) -> (r: i64)
        ensures
            r == self@,
    {
        self.raw
    }

    /// Zero.
    pub fn zero() -> (r: Fixed)
        ensures
            r@ == 0,
    {
        Fixed { raw: 0 }
    }

    /// One.
    pub fn one() -> (r: Fixed)
        ensures
            r@ == ONE_RAW,
    {
        Fixed { raw: ONE_RAW }
    }

    /// One half.
    pub fn half() -> (r: Fixed)
        ensures
            r@ == HALF_RAW,
    {
        Fixed { raw: HALF_RAW }
    }

    /// The integer `n`, saturated.
    pub fn from_int(n: i64) -> (r: Fixed)
        ensures
            r@ == fx_from_int(n as int),
    {
        let wide: i128 = n as i128;
        assert(-0x8000_0000_0000_0000_0000_0000 <= wide * (ONE_RAW as int)
            <= 0x8000_0000_0000_0000_0000_0000) by (nonlinear_arith)
            requires
                -0x8000_0000_0000_0000 <= wide <= 0x8000_0000_0000_0000,
                ONE_RAW == 0x1_0000_0000,
        ;
        saturate(wide * (ONE_RAW as i128))
    }

    /// The count `n`, saturated.
    pub fn from_usize(n: usize) -> (r: Fixed)
        ensures
            r@ == fx_from_int(n as int),
    {
        let wide: i128 = n as i128;
        assert(0 <= wide * (ONE_RAW as int) <= 0x1_0000_0000_0000_0000_0000_0000) by (nonlinear_arith)
            requires
                0 <= wide <= 0x1_0000_0000_0000_0000,
                ONE_RAW == 0x1_0000_0000,
        ;
        saturate(wide * (ONE_RAW as i128))
    }

    /// The fraction `num / den`, rounded down and saturated.
    pub fn from_ratio(num: i64, den: i64) -> (r: Fixed)
        requires
            den != 0,
        ensures
            r@ == fx_from_ratio(num as int, den as int),
    {
        let wide: i128 = num as i128;
        assert(-0x8000_0000_0000_0000_0000_0000 <= wide * (ONE_RAW as int)
            <= 0x8000_0000_0000_0000_0000_0000) by (nonlinear_arith)
            requires
                -0x8000_0000_0000_0000 <= wide <= 0x8000_0000_0000_0000,
                ONE_RAW == 0x1_0000_0000,
        ;
        saturate(floor_quot_wide(wide * (ONE_RAW as i128), den as i128))
    }

    /// Saturating sum.
    pub fn plus(self, other: Fixed) -> (r: Fixed)
        ensures
            r@ == fx_add(self@, other@),
    {
        saturate(self.raw as i128 + other.raw as i128)
    }

    /// Saturating difference.
    pub fn minus(self, other: Fixed) -> (r: Fixed)
        ensures
            r@ == fx_sub(self@, other@),
    {
        saturate(self.raw as i128 - other.raw as i128)
    }

    /// Saturating negation.
    pub fn negated(self) -> (r: Fixed)
        ensures
            r@ == fx_neg(self@),
    {
        saturate(-(self.raw as i128))
    }

    /// Saturating magnitude.
    pub fn abs(self) -> (r: Fixed)
        ensures
            r@ == fx_abs(self@),
            r@ >= 0,
    {
        if self.raw < 0 {
            saturate(-(self.raw as i128))
        } else {
            self
        }
    }

    /// Saturating product, rounded down.
    pub fn times(self, other: Fixed) -> (r: Fixed)
        ensures
            r@ == fx_mul(self@, other@),
    {
        let a: i128 = self.raw as i128;
        let b: i128 = other.raw as i128;
        assert(-0x4000_0000_0000_0000_0000_0000_0000_0000 <= a * b
            <= 0x4000_0000_0000_0000_0000_0000_0000_0000) by (nonlinear_arith)
            requires
                -0x8000_0000_0000_0000 <= a <= 0x8000_0000_0000_0000,
                -0x8000_0000_0000_0000 <= b <= 0x8000_0000_0000_0000,
        ;
        saturate(floor_div_wide(a * b, ONE_RAW as i128))
    }

    /// Saturating quotient, rounded down.
    pub fn over(self, other: Fixed) -> (r: Fixed)
        requires
            other@ != 0,
        ensures
            r@ == fx_div(self@, other@),
    {
        let a: i128 = self.raw as i128;
        assert(-0x8000_0000_0000_0000_0000_0000 <= a * (ONE_RAW as int)
            <= 0x8000_0000_0000_0000_0000_0000) by (nonlinear_arith)
            requires
                -0x8000_0000_0000_0000 <= a <= 0x8000_0000_0000_0000,
                ONE_RAW == 0x1_0000_0000,
        ;
        saturate(floor_quot_wide(a * (ONE_RAW as i128), other.raw as i128))
    }

    /// Strictly-less test.
    pub fn lt(self, other: Fixed) -> (r: bool)
        ensures
            r == (self@ < other@),
    {
        self.raw < other.raw
    }

    /// Less-or-equal test.
    pub fn le(self, other: Fixed) -> (r: bool)
        ensures
            r == (self@ <= other@),
    {
        self.raw <= other.raw
    }

    /// Strictly-greater test.
    pub fn gt(self, other: Fixed) -> (r: bool)
        ensures
            r == (self@ > other@),
    {
        self.raw > other.raw
    }

    /// Greater-or-equal test.
    pub fn ge(self, other: Fixed) -> (r: bool)
        ensures
            r == (self@ >= other@),
    {
        self.raw >= other.raw
    }

    /// The larger of two numbers.
    pub fn max(self, other: Fixed) -> (r: Fixed)
        ensures
            r@ == if self@ >= other@ { self@ } else { other@ },
    {
        if self.raw >= other.raw {
            self
        } else {
            other
        }
    }

    /// The smaller of two numbers.
    pub fn min(self, other: Fixed) -> (r: Fixed)
        ensures
            r@ == if self@ <= other@ { self@ } else { other@ },
    {
        if self.raw <= other.raw {
            self
        } else {
            other
        }
    }

    /// Whole part as a lattice coordinate; negative numbers give zero.
    pub fn int_part(self) -> (r: usize)
        ensures
            r == fx_int_part(self@),
            r < 0x8000_0000,
    {
        if self.raw < 0 {
            0
        } else {
            (self.raw / ONE_RAW) as usize
        }
    }

    /// Fractional part, with the sign of the number.
    pub fn fract(self) -> (r: Fixed)
        ensures
            r@ == fx_fract(self@),
            -(ONE_RAW as int) < r@ < ONE_RAW,
    {
        if self.raw >= 0 {
            Fixed { raw: self.raw % ONE_RAW }
        } else {
            let m: i128 = -(self.raw as i128);
            let f: i128 = m % (ONE_RAW as i128);
            Fixed { raw: (-f) as i64 }
        }
    }

    /// Square root, rounded down; numbers below zero give zero.
    pub fn sqrt(self) -> (r: Fixed)
        ensures
            r@ == fx_sqrt(self@),
            r@ >= 0,
            self@ > 0 ==> is_floor_sqrt(r@, self@ * ONE_RAW),
    {
        if self.raw <= 0 {
            return Fixed { raw: 0 };
        }
        let a: u128 = self.raw as u128;
        assert(0 < a * (ONE_RAW as int) < 0x8000_0000_0000_0000_0000_0000) by (nonlinear_arith)
            requires
                0 < a < 0x8000_0000_0000_0000,
                ONE_RAW == 0x1_0000_0000,
        ;
        let n: u128 = a * (ONE_RAW as u128);
        let mut lo: u128 = 0;
        let mut hi: u128 = 0x1_0000_0000_0000;
        assert(hi * hi == 0x1_0000_0000_0000_0000_0000_0000) by (nonlinear_arith)
            requires
                hi == 0x1_0000_0000_0000,
        ;
        while hi - lo > 1
            invariant
                lo < hi <= 0x1_0000_0000_0000,
                lo * lo <= n < hi * hi,
            decreases hi - lo,
        {
            let mid: u128 = lo + (hi - lo) / 2;
            assert(mid * mid <= 0x1_0000_0000_0000_0000_0000_0000) by (nonlinear_arith)
                requires
                    0 <= mid <= 0x1_0000_0000_0000,
            ;
            if mid * mid <= n {
                lo = mid;
            } else {
                hi = mid;
            }
        }
        proof {
            assert(hi == lo + 1);
            lemma_int_sqrt_unique(lo as int, n as int);
        }
        Fixed { raw: lo as i64 }
    }

    /// The byte for a number in `[0, 1]`: `floor(self * 255)`, clamped to `0..=255`.
    pub fn to_channel(self) -> (r: u8)
        ensures
            r == fx_channel(self@),
    {
        let scaled: i128 = floor_div_wide(self.raw as i128 * 255, ONE_RAW as i128);
        if scaled < 0 {
            0
        } else if scaled > 255 {
            255
        } else {
            scaled as u8
        }
    }
}

} // verus!
