//! Value noise: random scalars on the lattice, interpolated in between.
use super::permutation::{lattice_hash, PermutationTable, TABLE_SIZE};
use super::Noise;
use crate::fixed::{fx_fract, fx_int_part, Fixed, ONE_RAW};
use crate::interpolation::{interpolate, lemma_interpolate_between, Interpolation};
use crate::rng::draw_between;
use rand::rngs::StdRng;
use vstd::prelude::*;

verus! {

/// Value of the value-noise field with the tables `perm` and `values` at `(x, y)`.
///
/// The four lattice values around the point are blended along x, then along y.
pub open spec fn value_noise(
    perm: Seq<u8>,
    values: Seq<Fixed>,
    kernel: Interpolation,
    x: int,
    y: int,
) -> int {
    let xi = fx_int_part(x);
    let yi = fx_int_part(y);
    let nw = values[lattice_hash(perm, xi, yi) as int]@;
    let ne = values[lattice_hash(perm, xi + 1, yi) as int]@;
    let sw = values[lattice_hash(perm, xi, yi + 1) as int]@;
    let se = values[lattice_hash(perm, xi + 1, yi + 1) as int]@;
    let xf = fx_fract(x);
    let yf = fx_fract(y);
    let n = interpolate(kernel, nw, ne, xf);
    let s = interpolate(kernel, sw, se, xf);
    interpolate(kernel, n, s, yf)
}

/// At coordinates that are not negative, value noise over lattice values in
/// `[0, 1]` lies in `[0, 1]`.
pub proof fn lemma_value_noise_range(
    perm: Seq<u8>,
    values: Seq<Fixed>,
    kernel: Interpolation,
    x: int,
    y: int,
)
    requires
        values.len() == TABLE_SIZE,
        forall|k: int| 0 <= k < TABLE_SIZE ==> 0 <= (#[trigger] values[k])@ <= ONE_RAW,
        0 <= x <= i64::MAX,
        0 <= y <= i64::MAX,
    ensures
        0 <= value_noise(perm, values, kernel, x, y) <= ONE_RAW,
{
    let xi = fx_int_part(x);
    let yi = fx_int_part(y);
    let nw = values[lattice_hash(perm, xi, yi) as int]@;
    let ne = values[lattice_hash(perm, xi + 1, yi) as int]@;
    let sw = values[lattice_hash(perm, xi, yi + 1) as int]@;
    let se = values[lattice_hash(perm, xi + 1, yi + 1) as int]@;
    let xf = fx_fract(x);
    let yf = fx_fract(y);
    lemma_interpolate_between(kernel, nw, ne, xf, 0, ONE_RAW as int);
    lemma_interpolate_between(kernel, sw, se, xf, 0, ONE_RAW as int);
    lemma_interpolate_between(
        kernel,
        interpolate(kernel, nw, ne, xf),
        interpolate(kernel, sw, se, xf),
        yf,
        0,
        ONE_RAW as int,
    );
}

/// A value-noise field.
pub struct Value {
    permutation: PermutationTable,
    values: Vec<Fixed>,
    interpolation: Interpolation,
}

impl Value {
    /// The permutation table.
    pub closed spec fn permutation(&self) -> Seq<u8> {
        self.permutation@
    }

    /// The lattice values.
    pub closed spec fn values(&self) -> Seq<Fixed> {
        self.values@
    }

    /// The kernel bound at construction.
    pub closed spec fn kernel(&self) -> Interpolation {
        self.interpolation
    }

    /// Builds a field from `rng`: a shuffled permutation, then 256 values
    /// drawn from `[0, 1]`.
    pub fn new(rng: &mut StdRng, interpolation: Interpolation) -> (field: Value)
        ensures
            field.wf(),
            field.kernel() == interpolation,
    {
        let permutation = PermutationTable::shuffled(rng);
        let mut values: Vec<Fixed> = Vec::new();
        let mut i: usize = 0;
        while i < TABLE_SIZE
            invariant
                i <= TABLE_SIZE,
                values@.len() == i,
                forall|k: int| 0 <= k < i ==> 0 <= (#[trigger] values@[k])@ <= ONE_RAW,
            decreases TABLE_SIZE - i,
        {
            values.push(Fixed::from_raw(draw_between(rng, 0, ONE_RAW)));
            i += 1;
        }
        Value { permutation, values, interpolation }
    }

    fn index(&self, x: usize, y: usize) -> (r: usize)
        requires
            self.wf(),
        ensures
            r == lattice_hash(self.permutation(), x as int, y as int),
            r < TABLE_SIZE,
    {
        self.permutation.index(x, y) as usize
    }
}

impl Noise for Value {
    closed spec fn wf(&self) -> bool {
        &&& self.permutation.wf()
        &&& self.values@.len() == TABLE_SIZE
        &&& forall|k: int| 0 <= k < TABLE_SIZE ==> 0 <= (#[trigger] self.values@[k])@ <= ONE_RAW
    }

    open spec fn sample(&self, x: int, y: int) -> int {
        value_noise(self.permutation(), self.values(), self.kernel(), x, y)
    }

    fn noise(&self, x: Fixed, y: Fixed) -> (r: Fixed)
        ensures
            0 <= x@ && 0 <= y@ ==> 0 <= r@ <= ONE_RAW,
    {
        proof {
            if 0 <= x@ && 0 <= y@ {
                lemma_value_noise_range(
                    self.permutation@,
                    self.values@,
                    self.interpolation,
                    x@,
                    y@,
                );
            }
        }
        let xint = x.int_part();
        let yint = y.int_part();

        let nw = self.values[self.index(xint, yint)];
        let ne = self.values[self.index(xint + 1, yint)];
        let sw = self.values[self.index(xint, yint + 1)];
        let se = self.values[self.index(xint + 1, yint + 1)];

        let xf = x.fract();
        let yf = y.fract();

        let n = self.interpolation.apply(nw, ne, xf);
        let s = self.interpolation.apply(sw, se, xf);

        self.interpolation.apply(n, s, yf)
    }
}

} // verus!
