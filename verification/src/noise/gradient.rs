//! Gradient noise: random unit vectors on the lattice, projected and interpolated.
use super::permutation::{lattice_hash, PermutationTable, TABLE_SIZE};
use super::Noise;
use crate::fixed::{fx_add, fx_div, fx_fract, fx_int_part, fx_mul, fx_sub, Fixed, HALF_RAW, ONE_RAW};
use crate::interpolation::{interpolate, Interpolation};
use crate::rng::draw_between;
use crate::trig::{cos_turn, sin_turn, unit_direction};
use rand::rngs::StdRng;
use vstd::prelude::*;

verus! {

/// Raw square root of two.
pub const SQRT_2_RAW: i64 = 0x1_6A09_E667;

/// A vector of the plane.
#[derive(Clone, Copy, Debug)]
pub struct Vector {
    pub x: Fixed,
    pub y: Fixed,
}

/// Raw dot product of `(ax, ay)` and `(bx, by)`.
pub open spec fn dot2(ax: int, ay: int, bx: int, by: int) -> int {
    fx_add(fx_mul(ax, bx), fx_mul(ay, by))
}

impl Vector {
    /// The vector `(x, y)`.
    pub fn new(x: Fixed, y: Fixed) -> (v: Vector)
        ensures
            v.x == x,
            v.y == y,
    {
        Vector { x, y }
    }

    /// The null vector.
    pub fn zero() -> (v: Vector)
        ensures
            v.x@ == 0,
            v.y@ == 0,
    {
        Vector::new(Fixed::zero(), Fixed::zero())
    }

    /// Dot product with `other`.
    pub fn dot(&self, other: Vector) -> (r: Fixed)
        ensures
            r@ == dot2(self.x@, self.y@, other.x@, other.y@),
    {
        self.x.times(other.x).plus(self.y.times(other.y))
    }
}

/// Value of the gradient-noise field with the tables `perm` and `gradients` at `(x, y)`.
///
/// Each of the four lattice corners around the point projects the offset from
/// that corner onto its gradient; the projections are blended along x, then
/// along y, divided by the square root of two and shifted by one half.
pub open spec fn gradient_noise(
    perm: Seq<u8>,
    gradients: Seq<Vector>,
    kernel: Interpolation,
    x: int,
    y: int,
) -> int {
    let xi = fx_int_part(x);
    let yi = fx_int_part(y);
    let xf = fx_fract(x);
    let yf = fx_fract(y);
    let xb = fx_sub(xf, ONE_RAW as int);
    let yb = fx_sub(yf, ONE_RAW as int);
    let gnw = gradients[lattice_hash(perm, xi, yi) as int];
    let gne = gradients[lattice_hash(perm, xi + 1, yi) as int];
    let gsw = gradients[lattice_hash(perm, xi, yi + 1) as int];
    let gse = gradients[lattice_hash(perm, xi + 1, yi + 1) as int];
    let nw = dot2(gnw.x@, gnw.y@, xf, yf);
    let ne = dot2(gne.x@, gne.y@, xb, yf);
    let sw = dot2(gsw.x@, gsw.y@, xf, yb);
    let se = dot2(gse.x@, gse.y@, xb, yb);
    let n = interpolate(kernel, nw, ne, xf);
    let s = interpolate(kernel, sw, se, xf);
    fx_add(fx_div(interpolate(kernel, n, s, yf), SQRT_2_RAW as int), HALF_RAW as int)
}

/// A gradient-noise field.
pub struct Gradient {
    permutation: PermutationTable,
    gradients: Vec<Vector>,
    interpolation: Interpolation,
}

impl Gradient {
    /// The permutation table.
    pub closed spec fn permutation(&self) -> Seq<u8> {
        self.permutation@
    }

    /// The lattice gradients.
    pub closed spec fn gradients(&self) -> Seq<Vector> {
        self.gradients@
    }

    /// The kernel bound at construction.
    pub closed spec fn kernel(&self) -> Interpolation {
        self.interpolation
    }

    /// Builds a field from `rng`: a shuffled permutation, then 256 directions,
    /// each the cosine and sine of an angle drawn from the full turn.
    pub fn new(rng: &mut StdRng, interpolation: Interpolation) -> (field: Gradient)
        ensures
            field.wf(),
            field.kernel() == interpolation,
    {
        let permutation = PermutationTable::shuffled(rng);
        let mut gradients: Vec<Vector> = Vec::new();
        let mut i: usize = 0;
        while i < TABLE_SIZE
            invariant
                i <= TABLE_SIZE,
                gradients@.len() == i,
                forall|k: int| 0 <= k < i ==> is_direction(#[trigger] gradients@[k]),
            decreases TABLE_SIZE - i,
        {
            let angle = draw_between(rng, 0, 0xFFFF_FFFF) as u32;
            let (c, s) = unit_direction(angle);
            gradients.push(Vector::new(c, s));
            i += 1;
        }
        Gradient { permutation, gradients, interpolation }
    }

    fn index(&self, x: usize, y: usize) -> (r: usize)
        requires
            self.wf(),
        ensures
            r == lattice_hash(self.permutation(), x as int, y as int),
            r < TABLE_SIZE,
    {
        self.permutation.index(x, y) as usize
    }
}

/// `v` is the direction of some angle: its cosine and its sine.
pub open spec fn is_direction(v: Vector) -> bool {
    exists|angle: u32| v.x@ == #[trigger] cos_turn(angle as int) && v.y@ == sin_turn(angle as int)
}

impl Noise for Gradient {
    closed spec fn wf(&self) -> bool {
        &&& self.permutation.wf()
        &&& self.gradients@.len() == TABLE_SIZE
        &&& forall|k: int| 0 <= k < TABLE_SIZE ==> is_direction(#[trigger] self.gradients@[k])
    }

    open spec fn sample(&self, x: int, y: int) -> int {
        gradient_noise(self.permutation(), self.gradients(), self.kernel(), x, y)
    }

    fn noise(&self, x: Fixed, y: Fixed) -> (r: Fixed) {
        let xint = x.int_part();
        let yint = y.int_part();

        let xf = x.fract();
        let yf = y.fract();
        let xb = xf.minus(Fixed::one());
        let yb = yf.minus(Fixed::one());

        let nw = self.gradients[self.index(xint, yint)].dot(Vector::new(xf, yf));
        let ne = self.gradients[self.index(xint + 1, yint)].dot(Vector::new(xb, yf));
        let sw = self.gradients[self.index(xint, yint + 1)].dot(Vector::new(xf, yb));
        let se = self.gradients[self.index(xint + 1, yint + 1)].dot(Vector::new(xb, yb));

        let n = self.interpolation.apply(nw, ne, xf);
        let s = self.interpolation.apply(sw, se, xf);

        self.interpolation.apply(n, s, yf).over(Fixed::from_raw(SQRT_2_RAW)).plus(Fixed::half())
    }
}

} // verus!
