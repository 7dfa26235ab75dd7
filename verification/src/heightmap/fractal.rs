//! Fractal heightmaps: octaves of one noise field, summed.
use super::utils::{is_rescaling_of, normalize, valid_dimensions};
use super::Heightmap;
use crate::fixed::{fx_add, fx_div, fx_from_int, fx_mul, Fixed, ONE_RAW};
use crate::noise::{Noise, NoiseType};
use vstd::prelude::*;

verus! {

/// The sum of `remaining` more octaves on top of `value`, the next octave
/// having frequency `freq` and amplitude `amp`.
pub open spec fn fractal_sum(
    noise: NoiseType,
    x: int,
    y: int,
    lacunarity: int,
    persistance: int,
    remaining: nat,
    value: int,
    freq: int,
    amp: int,
) -> int
    decreases remaining,
{
    if remaining == 0 {
        value
    } else {
        fractal_sum(
            noise,
            x,
            y,
            lacunarity,
            persistance,
            (remaining - 1) as nat,
            fx_add(value, fx_mul(noise.sample(fx_mul(x, freq), fx_mul(y, freq)), amp)),
            fx_mul(freq, lacunarity),
            fx_mul(amp, persistance),
        )
    }
}

/// Sum over `i` in `0..octave` of `noise(x * lacunarity^i, y * lacunarity^i) * persistance^i`.
pub open spec fn fractal_value(
    noise: NoiseType,
    x: int,
    y: int,
    octave: nat,
    lacunarity: int,
    persistance: int,
) -> int {
    fractal_sum(
        noise,
        x,
        y,
        lacunarity,
        persistance,
        octave,
        0,
        ONE_RAW as int,
        ONE_RAW as int,
    )
}

/// Factor that stretches the axis of `extent` cells against the other axis
/// of `other` cells: `extent / other`, but at least one.
pub open spec fn axis_ratio(extent: int, other: int) -> int {
    let ratio = fx_div(fx_from_int(extent), fx_from_int(other));
    if ratio >= ONE_RAW {
        ratio
    } else {
        ONE_RAW as int
    }
}

/// Noise coordinate of the cell `i` on an axis of `extent` cells, the other
/// axis having `other` cells: `i / extent`, stretched by the axis ratio.
pub open spec fn fractal_coordinate(i: int, extent: int, other: int) -> int {
    fx_mul(fx_div(fx_from_int(i), fx_from_int(extent)), axis_ratio(extent, other))
}

/// Height of the cell `k` of the row-major `width` x `height` grid before normalization.
pub open spec fn fractal_height(
    noise: NoiseType,
    width: int,
    height: int,
    octave: nat,
    lacunarity: int,
    persistance: int,
    k: int,
) -> int {
    fractal_value(
        noise,
        fractal_coordinate(k % width, width, height),
        fractal_coordinate(k / width, height, width),
        octave,
        lacunarity,
        persistance,
    )
}

/// `grid` is the normalized `width` x `height` fractal grid of `noise`: each
/// cell is its fractal height, rescaled between the lowest and the highest
/// fractal height of the grid.
pub open spec fn is_fractal_grid(
    grid: Seq<Fixed>,
    noise: NoiseType,
    width: int,
    height: int,
    octave: nat,
    lacunarity: int,
    persistance: int,
) -> bool {
    exists|raw: Seq<Fixed>|
        {
            &&& raw.len() == width * height
            &&& grid.len() == width * height
            &&& forall|k: int|
                0 <= k < raw.len() ==> (#[trigger] raw[k])@ == fractal_height(
                    noise,
                    width,
                    height,
                    octave,
                    lacunarity,
                    persistance,
                    k,
                )
            &&& is_rescaling_of(grid, raw)
        }
}

/// A single octave is a single sample of the field at the coordinates
/// themselves: lacunarity and persistence do not enter.
pub proof fn lemma_single_octave(noise: NoiseType, x: int, y: int, lacunarity: int, persistance: int)
    requires
        i64::MIN <= x <= i64::MAX,
        i64::MIN <= y <= i64::MAX,
    ensures
        fractal_value(noise, x, y, 1, lacunarity, persistance) == noise.sample(x, y),
{
    let one = ONE_RAW as int;
    crate::fixed::lemma_mul_one(x);
    crate::fixed::lemma_mul_one(y);
    crate::noise::lemma_sample_is_raw(noise, x, y);
    crate::fixed::lemma_mul_one(noise.sample(x, y));
    let first = fx_add(0, fx_mul(noise.sample(fx_mul(x, one), fx_mul(y, one)), one));
    assert(fractal_sum(
        noise,
        x,
        y,
        lacunarity,
        persistance,
        0,
        first,
        fx_mul(one, lacunarity),
        fx_mul(one, persistance),
    ) == first);
    assert(fractal_value(noise, x, y, 1, lacunarity, persistance) == fractal_sum(
        noise,
        x,
        y,
        lacunarity,
        persistance,
        0,
        first,
        fx_mul(one, lacunarity),
        fx_mul(one, persistance),
    )) by {
        reveal_with_fuel(fractal_sum, 2);
    }
}

/// With a single octave the fractal grid does not depend on lacunarity or persistence.
pub proof fn lemma_single_octave_grid(
    noise: NoiseType,
    width: int,
    height: int,
    k: int,
    lacunarity: int,
    persistance: int,
    other_lacunarity: int,
    other_persistance: int,
)
    ensures
        fractal_height(noise, width, height, 1, lacunarity, persistance, k) == fractal_height(
            noise,
            width,
            height,
            1,
            other_lacunarity,
            other_persistance,
            k,
        ),
{
    let x = fractal_coordinate(k % width, width, height);
    let y = fractal_coordinate(k / width, height, width);
    lemma_single_octave(noise, x, y, lacunarity, persistance);
    lemma_single_octave(noise, x, y, other_lacunarity, other_persistance);
}

/// The fractal synthesizer: a noise field and the shape of its octaves.
pub struct Fractal<'a> {
    pub noise: &'a NoiseType,
    pub octave: u64,
    pub lacunarity: Fixed,
    pub persistance: Fixed,
}

impl<'a> Fractal<'a> {
    /// Fractal value at the noise coordinates `(x, y)`.
    pub fn get(&self, x: Fixed, y: Fixed) -> (r: Fixed)
        requires
            self.noise.wf(),
        ensures
            r@ == fractal_value(
                *self.noise,
                x@,
                y@,
                self.octave as nat,
                self.lacunarity@,
                self.persistance@,
            ),
    {
        let mut value = Fixed::zero();
        let mut frequency = Fixed::one();
        let mut amplitude = Fixed::one();

        let mut i: u64 = 0;
        while i < self.octave
            invariant
                i <= self.octave,
                self.noise.wf(),
                fractal_sum(
                    *self.noise,
                    x@,
                    y@,
                    self.lacunarity@,
                    self.persistance@,
                    (self.octave - i) as nat,
                    value@,
                    frequency@,
                    amplitude@,
                ) == fractal_value(
                    *self.noise,
                    x@,
                    y@,
                    self.octave as nat,
                    self.lacunarity@,
                    self.persistance@,
                ),
            decreases self.octave - i,
        {
            value = value.plus(
                self.noise.noise(x.times(frequency), y.times(frequency)).times(amplitude),
            );
            frequency = frequency.times(self.lacunarity);
            amplitude = amplitude.times(self.persistance);
            i += 1;
        }

        value
    }
}

impl<'a> Heightmap for Fractal<'a> {
    open spec fn wf(&self) -> bool {
        self.noise.wf()
    }

    fn generate(&mut self, width: usize, height: usize) -> (grid: Vec<Fixed>)
        ensures
            is_fractal_grid(
                grid@,
                *old(self).noise,
                width as int,
                height as int,
                old(self).octave as nat,
                old(self).lacunarity@,
                old(self).persistance@,
            ),
            *final(self) == *old(self),
    {
        let wf = Fixed::from_usize(width);
        let hf = Fixed::from_usize(height);
        assert(wf@ != 0 && hf@ != 0) by {
            assert(width * (ONE_RAW as int) >= ONE_RAW && height * (ONE_RAW as int) >= ONE_RAW)
                by (nonlinear_arith)
                requires
                    width >= 1,
                    height >= 1,
            ;
        }
        let x_ratio = wf.over(hf).max(Fixed::one());
        let y_ratio = hf.over(wf).max(Fixed::one());

        assert(width * height <= 0x1000_0000) by (nonlinear_arith)
            requires
                width <= 0x4000,
                height <= 0x4000,
        ;
        let mut raw: Vec<Fixed> = Vec::new();
        let mut y: usize = 0;
        while y < height
            invariant
                y <= height,
                valid_dimensions(width, height),
                self.noise.wf(),
                *self == *old(self),
                wf@ == fx_from_int(width as int),
                hf@ == fx_from_int(height as int),
                wf@ != 0,
                hf@ != 0,
                x_ratio@ == axis_ratio(width as int, height as int),
                y_ratio@ == axis_ratio(height as int, width as int),
                raw@.len() == y * width,
                forall|k: int|
                    0 <= k < raw@.len() ==> (#[trigger] raw@[k])@ == fractal_height(
                        *self.noise,
                        width as int,
                        height as int,
                        self.octave as nat,
                        self.lacunarity@,
                        self.persistance@,
                        k,
                    ),
            decreases height - y,
        {
            let mut x: usize = 0;
            proof {
                vstd::arithmetic::mul::lemma_mul_is_distributive_add_other_way(
                    width as int,
                    y as int,
                    1,
                );
            }
            while x < width
                invariant
                    x <= width,
                    y < height,
                    valid_dimensions(width, height),
                    self.noise.wf(),
                    *self == *old(self),
                    wf@ == fx_from_int(width as int),
                    hf@ == fx_from_int(height as int),
                    wf@ != 0,
                    hf@ != 0,
                    x_ratio@ == axis_ratio(width as int, height as int),
                    y_ratio@ == axis_ratio(height as int, width as int),
                    (y + 1) * width == y * width + width,
                    raw@.len() == y * width + x,
                    forall|k: int|
                        0 <= k < raw@.len() ==> (#[trigger] raw@[k])@ == fractal_height(
                            *self.noise,
                            width as int,
                            height as int,
                            self.octave as nat,
                            self.lacunarity@,
                            self.persistance@,
                            k,
                        ),
                decreases width - x,
            {
                proof {
                    let k = y * width + x;
                    vstd::arithmetic::mul::lemma_mul_is_commutative(y as int, width as int);
                    vstd::arithmetic::div_mod::lemma_fundamental_div_mod_converse(
                        k,
                        width as int,
                        y as int,
                        x as int,
                    );
                }
                let value = self.get(
                    Fixed::from_usize(x).over(wf).times(x_ratio),
                    Fixed::from_usize(y).over(hf).times(y_ratio),
                );
                raw.push(value);
                x += 1;
            }
            y += 1;
        }
        proof {
            vstd::arithmetic::mul::lemma_mul_is_commutative(height as int, width as int);
        }
        let ghost before = raw@;
        let grid = normalize(raw);
        proof {
            assert(is_fractal_grid(
                grid@,
                *self.noise,
                width as int,
                height as int,
                self.octave as nat,
                self.lacunarity@,
                self.persistance@,
            )) by {
                assert(before.len() == width * height);
            }
        }
        grid
    }
}

} // verus!
