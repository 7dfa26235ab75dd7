//! Simplex noise: contributions of the three corners of a skewed triangle.
use super::permutation::{lattice_hash, PermutationTable};
use super::Noise;
use crate::fixed::{
    fx_add, fx_from_int, fx_int_part, fx_mul, fx_neg, fx_sub, Fixed, HALF_RAW, ONE_RAW,
};
use rand::rngs::StdRng;
use vstd::prelude::*;

verus! {

/// Raw skew factor `(sqrt(3) - 1) / 2`.
pub const F2_RAW: i64 = 0x5DB3_D742;

/// Raw unskew factor `(3 - sqrt(3)) / 6`.
pub const G2_RAW: i64 = 0x3619_5CE9;

/// Raw offset of the far corner: `2 * G2 - 1`.
pub const FAR_RAW: i64 = 2 * G2_RAW - ONE_RAW;

/// Raw output scale.
pub const SCALE_RAW: i64 = 35 * ONE_RAW;

/// Projection of `(x, y)` on the direction that the low three bits of `hash` select.
pub open spec fn grad_value(hash: u8, x: int, y: int) -> int {
    let h = hash as int % 8;
    if h == 0 {
        fx_add(x, y)
    } else if h == 1 {
        x
    } else if h == 2 {
        fx_sub(x, y)
    } else if h == 3 {
        y
    } else if h == 4 {
        fx_neg(y)
    } else if h == 5 {
        fx_add(fx_neg(x), y)
    } else if h == 6 {
        fx_neg(x)
    } else {
        fx_sub(fx_neg(x), y)
    }
}

/// Falloff `1/2 - dx^2 - dy^2` of a corner at offset `(dx, dy)`.
pub open spec fn falloff(dx: int, dy: int) -> int {
    fx_sub(fx_sub(HALF_RAW as int, fx_mul(dx, dx)), fx_mul(dy, dy))
}

/// Contribution of a corner with falloff `t` and hash `hash` at offset
/// `(dx, dy)`: `t^4 * grad` where the falloff is positive, zero elsewhere.
pub open spec fn corner_value(t: int, hash: u8, dx: int, dy: int) -> int {
    if t > 0 {
        let d = fx_mul(t, t);
        fx_mul(fx_mul(d, d), grad_value(hash, dx, dy))
    } else {
        0
    }
}

/// Value of the simplex-noise field with the table `perm` at `(x, y)`.
pub open spec fn simplex_noise(perm: Seq<u8>, x: int, y: int) -> int {
    let s = fx_mul(fx_add(x, y), F2_RAW as int);
    let i = fx_int_part(fx_add(x, s));
    let j = fx_int_part(fx_add(y, s));
    let t = fx_mul(fx_from_int(i + j), G2_RAW as int);
    let x0 = fx_add(fx_sub(x, fx_from_int(i)), t);
    let y0 = fx_add(fx_sub(y, fx_from_int(j)), t);
    let i1: int = if x0 > y0 { 1 } else { 0 };
    let j1: int = 1 - i1;
    let x1 = fx_add(fx_sub(x0, fx_from_int(i1)), G2_RAW as int);
    let y1 = fx_add(fx_sub(y0, fx_from_int(j1)), G2_RAW as int);
    let x2 = fx_add(x0, FAR_RAW as int);
    let y2 = fx_add(y0, FAR_RAW as int);
    let n0 = corner_value(falloff(x0, y0), lattice_hash(perm, i, j), x0, y0);
    let n1 = corner_value(falloff(x1, y1), lattice_hash(perm, i + i1, j + j1), x1, y1);
    let n2 = corner_value(falloff(x2, y2), lattice_hash(perm, i + 1, j + 1), x2, y2);
    fx_add(fx_mul(SCALE_RAW as int, fx_add(fx_add(n0, n1), n2)), HALF_RAW as int)
}

/// Projection of `(x, y)` on one of eight fixed directions.
pub fn grad(hash: u8, x: Fixed, y: Fixed) -> (r: Fixed)
    ensures
        r@ == grad_value(hash, x@, y@),
{
    let h: u8 = hash % 8;
    if h == 0 {
        x.plus(y)
    } else if h == 1 {
        x
    } else if h == 2 {
        x.minus(y)
    } else if h == 3 {
        y
    } else if h == 4 {
        y.negated()
    } else if h == 5 {
        x.negated().plus(y)
    } else if h == 6 {
        x.negated()
    } else {
        x.negated().minus(y)
    }
}

/// A simplex-noise field.
pub struct Simplex {
    permutation: PermutationTable,
}

impl Simplex {
    /// The permutation table.
    pub closed spec fn permutation(&self) -> Seq<u8> {
        self.permutation@
    }

    /// Builds a field from `rng`: a shuffled permutation.
    pub fn new(rng: &mut StdRng) -> (field: Simplex)
        ensures
            field.wf(),
    {
        Simplex { permutation: PermutationTable::shuffled(rng) }
    }

    /// Hash of the lattice point `(x, y)`.
    pub fn index(&self, x: usize, y: usize) -> (r: u8)
        requires
            self.wf(),
        ensures
            r == lattice_hash(self.permutation(), x as int, y as int),
    {
        self.permutation.index(x, y)
    }

    fn corner(&self, i: usize, j: usize, dx: Fixed, dy: Fixed) -> (r: Fixed)
        requires
            self.wf(),
        ensures
            r@ == corner_value(
                falloff(dx@, dy@),
                lattice_hash(self.permutation(), i as int, j as int),
                dx@,
                dy@,
            ),
    {
        let t = Fixed::half().minus(dx.times(dx)).minus(dy.times(dy));
        if t.gt(Fixed::zero()) {
            let gi = self.index(i, j);
            let d = t.times(t);
            d.times(d).times(grad(gi, dx, dy))
        } else {
            Fixed::zero()
        }
    }
}

impl Noise for Simplex {
    closed spec fn wf(&self) -> bool {
        self.permutation.wf()
    }

    open spec fn sample(&self, x: int, y: int) -> int {
        simplex_noise(self.permutation(), x, y)
    }

    fn noise(&self, x: Fixed, y: Fixed) -> (r: Fixed) {
        let f2 = Fixed::from_raw(F2_RAW);
        let g2 = Fixed::from_raw(G2_RAW);

        let s = x.plus(y).times(f2);
        let i = x.plus(s).int_part();
        let j = y.plus(s).int_part();

        let t = Fixed::from_usize(i + j).times(g2);
        let x0 = x.minus(Fixed::from_usize(i)).plus(t);
        let y0 = y.minus(Fixed::from_usize(j)).plus(t);

        let (i1, j1): (usize, usize) = if x0.gt(y0) { (1, 0) } else { (0, 1) };

        let x1 = x0.minus(Fixed::from_usize(i1)).plus(g2);
        let y1 = y0.minus(Fixed::from_usize(j1)).plus(g2);

        let far = Fixed::from_raw(FAR_RAW);
        let x2 = x0.plus(far);
        let y2 = y0.plus(far);

        let n0 = self.corner(i, j, x0, y0);
        let n1 = self.corner(i + i1, j + j1, x1, y1);
        let n2 = self.corner(i + 1, j + 1, x2, y2);

        Fixed::from_raw(SCALE_RAW).times(n0.plus(n1).plus(n2)).plus(Fixed::half())
    }
}

} // verus!
