//! From grids to pixels: the flatten transform and the three pixel renderings.
use crate::color::{ramp_color, Color, ColorRamp};
use crate::fixed::{
    fx_add, fx_channel, fx_div, fx_from_int, fx_mul, fx_sub, Fixed, HALF_RAW, ONE_RAW,
};
use crate::heightmap::utils::valid_dimensions;
use crate::noise::{Noise, NoiseType};
use crate::shader::{shade, shaded_color};
use crate::vec3::Vec3;
use vstd::prelude::*;

verus! {

/// Raw number of pixels per lattice step of a rendered noise field.
pub const NOISE_ZOOM_RAW: i64 = 32 * ONE_RAW;

/// The flatten transform: `1/2 - 2 (v - 1/2)^2` below one half and
/// `1/2 + 2 (v - 1/2)^2` from one half on.
pub open spec fn flatten_value(v: int) -> int {
    let offset = fx_sub(v, HALF_RAW as int);
    let factor = if v < HALF_RAW {
        -2 * ONE_RAW
    } else {
        2 * ONE_RAW
    };
    fx_add(fx_mul(fx_mul(offset, offset), factor), HALF_RAW as int)
}

/// `f` is the grid `h` after the flatten stage: flattened cell by cell where
/// `flatten` is set, unchanged elsewhere.
pub open spec fn is_flattening(f: Seq<Fixed>, h: Seq<Fixed>, flatten: bool) -> bool {
    &&& f.len() == h.len()
    &&& forall|i: int|
        0 <= i < f.len() ==> (#[trigger] f[i])@ == if flatten {
            flatten_value(h[i]@)
        } else {
            h[i]@
        }
}

/// Grey level of the pixel `cell` of a row-major window of `noise` of
/// `width` pixels per row, the pixel `(x, y)` sampling the field at `(x / 32, y / 32)`.
pub open spec fn noise_level(noise: NoiseType, width: int, cell: int) -> u8 {
    fx_channel(
        noise.sample(
            fx_div(fx_from_int(cell % width), NOISE_ZOOM_RAW as int),
            fx_div(fx_from_int(cell / width), NOISE_ZOOM_RAW as int),
        ),
    ) as u8
}

/// Grey rendering of a `width` x `height` window of `noise`: four equal bytes per pixel.
pub open spec fn noise_pixels(noise: NoiseType, width: int, height: int) -> Seq<u8> {
    Seq::new((width * height * 4) as nat, |k: int| noise_level(noise, width, k / 4))
}

/// Grey rendering of a grid: four equal bytes per cell.
pub open spec fn gray_pixels(map: Seq<Fixed>) -> Seq<u8> {
    Seq::new((map.len() * 4) as nat, |k: int| fx_channel(map[k / 4]@) as u8)
}

/// Colour of the cell `index` of a grid: its ramp colour, shaded where `use_shading` is set.
pub open spec fn cell_color(
    map: Seq<Fixed>,
    index: int,
    ramp: ColorRamp,
    use_shading: bool,
    width: int,
    light: Vec3,
    light_color: Color,
    dark_color: Color,
) -> Seq<u8> {
    let flat = ramp_color(ramp@, map[index]@);
    if use_shading {
        shaded_color(map, index, flat, width, light@, light_color@, dark_color@)
    } else {
        flat
    }
}

/// Colour rendering of a grid: the four channels of each cell's colour.
pub open spec fn colored_pixels(
    map: Seq<Fixed>,
    ramp: ColorRamp,
    use_shading: bool,
    width: int,
    light: Vec3,
    light_color: Color,
    dark_color: Color,
) -> Seq<u8> {
    Seq::new(
        (map.len() * 4) as nat,
        |k: int|
            cell_color(map, k / 4, ramp, use_shading, width, light, light_color, dark_color)[k % 4],
    )
}

/// One half is a fixed point of the flatten transform.
pub proof fn lemma_flatten_fixed_point()
    ensures
        flatten_value(HALF_RAW as int) == HALF_RAW,
{
    assert(fx_sub(HALF_RAW as int, HALF_RAW as int) == 0);
    assert(fx_mul(0, 0) == 0);
    assert(fx_mul(0, 2 * ONE_RAW) == 0);
}

/// The flatten transform keeps heights in `[0, 1]`, on their side of one half.
pub proof fn lemma_flatten_range(v: int)
    requires
        0 <= v <= ONE_RAW,
    ensures
        0 <= flatten_value(v) <= ONE_RAW,
        v < HALF_RAW ==> flatten_value(v) <= HALF_RAW,
        v >= HALF_RAW ==> flatten_value(v) >= HALF_RAW,
{
    let u = ONE_RAW as int;
    let h = HALF_RAW as int;
    let offset = v - h;
    let square = (offset * offset) / u;
    assert(0 <= offset * offset <= h * h) by (nonlinear_arith)
        requires
            -h <= offset <= h,
    ;
    assert(0 <= square && 4 * square <= u) by (nonlinear_arith)
        requires
            0 <= offset * offset <= h * h,
            square == (offset * offset) / u,
            u == 2 * h,
            h > 0,
    {
        assert(4 * (h * h) == u * u);
        assert(square * u <= offset * offset);
    }
    assert(fx_sub(v, h) == offset);
    assert(fx_mul(offset, offset) == square);
    assert((square * (2 * u)) / u == 2 * square && (square * (-2 * u)) / u == -2 * square)
        by (nonlinear_arith)
        requires
            u > 0,
    ;
}

/// The flatten transform of one height.
pub fn flatten(value: Fixed) -> (r: Fixed)
    ensures
        r@ == flatten_value(value@),
{
    let offset = value.minus(Fixed::half());
    let factor = if value.lt(Fixed::half()) {
        Fixed::from_raw(-2 * ONE_RAW)
    } else {
        Fixed::from_raw(2 * ONE_RAW)
    };
    offset.times(offset).times(factor).plus(Fixed::half())
}

/// The grid after the flatten stage.
pub fn flatten_grid(heightmap: &Vec<Fixed>, flatten_heights: bool) -> (r: Vec<Fixed>)
    ensures
        is_flattening(r@, heightmap@, flatten_heights),
{
    let n: usize = heightmap.len();
    let mut r: Vec<Fixed> = Vec::new();
    let mut i: usize = 0;
    while i < n
        invariant
            i <= n,
            n == heightmap@.len(),
            r@.len() == i,
            forall|j: int|
                0 <= j < i ==> (#[trigger] r@[j])@ == if flatten_heights {
                    flatten_value(heightmap@[j]@)
                } else {
                    heightmap@[j]@
                },
        decreases n - i,
    {
        let value = heightmap[i];
        r.push(
            if flatten_heights {
                flatten(value)
            } else {
                value
            },
        );
        i += 1;
    }
    r
}

/// Four equal bytes per grey level.
pub fn gray_bytes(levels: &Vec<u8>) -> (pixels: Vec<u8>)
    requires
        levels@.len() <= 0x1000_0000,
    ensures
        pixels@.len() == levels@.len() * 4,
        forall|k: int| 0 <= k < pixels@.len() ==> #[trigger] pixels@[k] == levels@[k / 4],
{
    let n: usize = levels.len();
    let mut pixels: Vec<u8> = Vec::new();
    let mut i: usize = 0;
    while i < n
        invariant
            i <= n,
            n == levels@.len(),
            n <= 0x1000_0000,
            pixels@.len() == i * 4,
            forall|k: int| 0 <= k < pixels@.len() ==> #[trigger] pixels@[k] == levels@[k / 4],
        decreases n - i,
    {
        let level = levels[i];
        pixels.push(level);
        pixels.push(level);
        pixels.push(level);
        pixels.push(level);
        i += 1;
    }
    pixels
}

/// The four channels of each colour.
pub fn color_bytes(colors: &Vec<Color>) -> (pixels: Vec<u8>)
    requires
        colors@.len() <= 0x1000_0000,
    ensures
        pixels@.len() == colors@.len() * 4,
        forall|k: int| 0 <= k < pixels@.len() ==> #[trigger] pixels@[k] == colors@[k / 4]@[k % 4],
{
    let n: usize = colors.len();
    let mut pixels: Vec<u8> = Vec::new();
    let mut i: usize = 0;
    while i < n
        invariant
            i <= n,
            n == colors@.len(),
            n <= 0x1000_0000,
            pixels@.len() == i * 4,
            forall|k: int|
                0 <= k < pixels@.len() ==> #[trigger] pixels@[k] == colors@[k / 4]@[k % 4],
        decreases n - i,
    {
        let color = colors[i];
        pixels.push(color.0[0]);
        pixels.push(color.0[1]);
        pixels.push(color.0[2]);
        pixels.push(color.0[3]);
        i += 1;
    }
    pixels
}

/// Renders a `width` x `height` window of a noise field in grey.
pub fn render_noise(noise: &NoiseType, width: usize, height: usize) -> (pixels: Vec<u8>)
    requires
        noise.wf(),
        valid_dimensions(width, height),
    ensures
        pixels@ == noise_pixels(*noise, width as int, height as int),
        pixels@.len() == width * height * 4,
{
    let zoom = Fixed::from_raw(NOISE_ZOOM_RAW);
    assert(width * height <= 0x1000_0000) by (nonlinear_arith)
        requires
            width <= 0x4000,
            height <= 0x4000,
    ;
    let mut levels: Vec<u8> = Vec::new();
    let mut y: usize = 0;
    while y < height
        invariant
            y <= height,
            noise.wf(),
            valid_dimensions(width, height),
            zoom@ == NOISE_ZOOM_RAW,
            levels@.len() == y * width,
            forall|c: int|
                0 <= c < levels@.len() ==> #[trigger] levels@[c] == noise_level(
                    *noise,
                    width as int,
                    c,
                ),
        decreases height - y,
    {
        let mut x: usize = 0;
        proof {
            vstd::arithmetic::mul::lemma_mul_is_distributive_add_other_way(
                width as int,
                y as int,
                1,
            );
        }
        while x < width
            invariant
                x <= width,
                y < height,
                noise.wf(),
                valid_dimensions(width, height),
                zoom@ == NOISE_ZOOM_RAW,
                (y + 1) * width == y * width + width,
                levels@.len() == y * width + x,
                forall|c: int|
                    0 <= c < levels@.len() ==> #[trigger] levels@[c] == noise_level(
                        *noise,
                        width as int,
                        c,
                    ),
            decreases width - x,
        {
            proof {
                let cell = y * width + x;
                vstd::arithmetic::mul::lemma_mul_is_commutative(y as int, width as int);
                vstd::arithmetic::div_mod::lemma_fundamental_div_mod_converse(
                    cell,
                    width as int,
                    y as int,
                    x as int,
                );
            }
            let value = noise.noise(Fixed::from_usize(x).over(zoom), Fixed::from_usize(y).over(zoom));
            levels.push(value.to_channel());
            x += 1;
        }
        y += 1;
    }
    proof {
        vstd::arithmetic::mul::lemma_mul_is_commutative(height as int, width as int);
    }
    let pixels = gray_bytes(&levels);
    assert(pixels@ =~= noise_pixels(*noise, width as int, height as int));
    pixels
}

/// Renders a grid in grey.
pub fn render_gray(map: &Vec<Fixed>) -> (pixels: Vec<u8>)
    requires
        map@.len() <= 0x1000_0000,
    ensures
        pixels@ == gray_pixels(map@),
        pixels@.len() == map@.len() * 4,
{
    let n: usize = map.len();
    let mut levels: Vec<u8> = Vec::new();
    let mut i: usize = 0;
    while i < n
        invariant
            i <= n,
            n == map@.len(),
            levels@.len() == i,
            forall|c: int|
                0 <= c < levels@.len() ==> #[trigger] levels@[c] == fx_channel(map@[c]@) as u8,
        decreases n - i,
    {
        levels.push(map[i].to_channel());
        i += 1;
    }
    let pixels = gray_bytes(&levels);
    assert(pixels@ =~= gray_pixels(map@));
    pixels
}

/// Renders a grid in colour: each height through the ramp and, where
/// `use_shading` is set, through the shader.
pub fn render_colored(
    map: &Vec<Fixed>,
    ramp: &ColorRamp,
    use_shading: bool,
    width: usize,
    light: &Vec3,
    light_color: Color,
    dark_color: Color,
) -> (pixels: Vec<u8>)
    requires
        map@.len() <= 0x1000_0000,
        ramp@.len() > 0,
        width >= 1,
        map@.len() as int % (width as int) == 0,
    ensures
        pixels@ == colored_pixels(
            map@,
            *ramp,
            use_shading,
            width as int,
            *light,
            light_color,
            dark_color,
        ),
        pixels@.len() == map@.len() * 4,
{
    let n: usize = map.len();
    let mut colors: Vec<Color> = Vec::new();
    let mut index: usize = 0;
    while index < n
        invariant
            index <= n,
            n == map@.len(),
            ramp@.len() > 0,
            width >= 1,
            map@.len() as int % (width as int) == 0,
            colors@.len() == index,
            forall|c: int|
                0 <= c < colors@.len() ==> (#[trigger] colors@[c])@ == cell_color(
                    map@,
                    c,
                    *ramp,
                    use_shading,
                    width as int,
                    *light,
                    light_color,
                    dark_color,
                ),
        decreases n - index,
    {
        let flat = ramp.get(map[index]);
        let color = if use_shading {
            shade(map.as_slice(), index, flat, width, light, light_color, dark_color)
        } else {
            flat
        };
        colors.push(color);
        index += 1;
    }
    let pixels = color_bytes(&colors);
    assert(pixels@ =~= colored_pixels(
        map@,
        *ramp,
        use_shading,
        width as int,
        *light,
        light_color,
        dark_color,
    ));
    pixels
}

} // verus!
