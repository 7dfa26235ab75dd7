//! Two-tone relief shading.
//!
//! Cells above one half are lit by their slope: the surface normal, from
//! differences of neighbouring heights, is held against the light direction.
//! Cells at or below one half keep their colour.
use crate::color::{color_lerp, lerp, Color};
use crate::fixed::{
    fx_add, fx_div, fx_mul, fx_neg, fx_sqrt, fx_sub, is_floor_sqrt, Fixed, HALF_RAW, ONE_RAW,
};
use crate::vec3::{dot3, Vec3};
use vstd::prelude::*;

verus! {

/// Raw factor that spreads the brightness around one half.
pub const CONTRAST_RAW: i64 = 25 * ONE_RAW;

/// Height difference across the cell `index` along one axis. `stride` is the
/// index distance of neighbours on the axis, `along` the cell's coordinate on
/// it and `count` the number of cells on it. Inner cells take the difference
/// of both neighbours; cells on an edge double the difference to their one
/// neighbour; an axis of a single cell has no slope.
pub open spec fn slope(h: Seq<Fixed>, index: int, stride: int, along: int, count: int) -> int {
    if count <= 1 {
        0
    } else if along == 0 {
        fx_mul(fx_sub(h[index + stride]@, h[index]@), 2 * ONE_RAW)
    } else if along == count - 1 {
        fx_mul(fx_sub(h[index]@, h[index - stride]@), 2 * ONE_RAW)
    } else {
        fx_sub(h[index + stride]@, h[index - stride]@)
    }
}

/// The unit normal of the surface with the slopes `nx` and `ny`:
/// `(-nx, -ny, 2)`, divided by its length.
pub open spec fn surface_normal(nx: int, ny: int) -> Seq<Fixed> {
    let n = fx_sqrt(fx_add(fx_add(fx_mul(nx, nx), fx_mul(ny, ny)), 4 * ONE_RAW));
    seq![
        Fixed { raw: fx_div(fx_neg(nx), n) as i64 },
        Fixed { raw: fx_div(fx_neg(ny), n) as i64 },
        Fixed { raw: fx_div(2 * ONE_RAW, n) as i64 },
    ]
}

/// Brightness of the cell `index`: `dot(light, normal) * 25 + 1/2`.
pub open spec fn brightness(h: Seq<Fixed>, index: int, width: int, light: Seq<Fixed>) -> int {
    let nx = slope(h, index, 1, index % width, width);
    let ny = slope(h, index, width, index / width, h.len() as int / width);
    fx_add(fx_mul(dot3(light, surface_normal(nx, ny)), CONTRAST_RAW as int), HALF_RAW as int)
}

/// The colour that the brightness `d` makes of `color`: dark below zero,
/// light above one, and in between a blend from dark over `color` at one
/// half to light.
pub open spec fn lit_color(d: int, color: Seq<u8>, light_color: Seq<u8>, dark_color: Seq<u8>) -> Seq<
    u8,
> {
    if d < 0 {
        dark_color
    } else if d > ONE_RAW {
        light_color
    } else if d < HALF_RAW {
        color_lerp(dark_color, color, fx_mul(2 * ONE_RAW, d))
    } else {
        color_lerp(color, light_color, fx_sub(fx_mul(2 * ONE_RAW, d), ONE_RAW as int))
    }
}

/// Shaded colour of the cell `index` of the row-major grid `h` of `width` cells per row.
pub open spec fn shaded_color(
    h: Seq<Fixed>,
    index: int,
    color: Seq<u8>,
    width: int,
    light: Seq<Fixed>,
    light_color: Seq<u8>,
    dark_color: Seq<u8>,
) -> Seq<u8> {
    if h[index]@ > HALF_RAW {
        lit_color(brightness(h, index, width, light), color, light_color, dark_color)
    } else {
        color
    }
}

/// A square root of a number of at least four is at least two.
proof fn lemma_normal_length(v: int, n: int)
    requires
        v >= 4 * ONE_RAW,
        is_floor_sqrt(n, v * ONE_RAW),
    ensures
        n >= 2 * ONE_RAW,
{
    assert(n >= 2 * ONE_RAW) by (nonlinear_arith)
        requires
            v >= 4 * ONE_RAW,
            n >= 0,
            v * ONE_RAW < (n + 1) * (n + 1),
            ONE_RAW == 0x1_0000_0000,
    {
        if n < 2 * ONE_RAW {
            assert((n + 1) * (n + 1) <= (2 * ONE_RAW) * (2 * ONE_RAW));
            assert(v * ONE_RAW >= (4 * ONE_RAW) * ONE_RAW);
        }
    }
}

/// A grid cell lies in a row, and its row lies in the grid.
proof fn lemma_cell_position(index: int, width: int, len: int)
    requires
        0 <= index < len,
        width >= 1,
        len % width == 0,
    ensures
        0 <= index % width < width,
        0 <= index / width < len / width,
        index == (index / width) * width + index % width,
        len == (len / width) * width,
        index / width < len / width - 1 ==> index + width < len,
        index / width > 0 ==> index >= width,
        index - index % width + width <= len,
{
    vstd::arithmetic::div_mod::lemma_fundamental_div_mod(index, width);
    vstd::arithmetic::div_mod::lemma_fundamental_div_mod(len, width);
    let y = index / width;
    let rows = len / width;
    assert(y >= 0 && y < rows && (y < rows - 1 ==> y * width + width <= (rows - 1) * width) && (y
        > 0 ==> y * width >= width) && (rows - 1) * width == rows * width - width && y * width
        + width <= rows * width)
        by (nonlinear_arith)
        requires
            index == width * y + index % width,
            len == width * rows,
            0 <= index % width < width,
            0 <= index < len,
            width >= 1,
    ;
    assert(width * y == y * width && width * rows == rows * width) by (nonlinear_arith);
}

/// Shades the colour `color` of the cell `index` of a row-major grid of
/// `width` cells per row, lit from the direction `light`.
pub fn shade(
    heightmap: &[Fixed],
    index: usize,
    color: Color,
    width: usize,
    light: &Vec3,
    light_color: Color,
    dark_color: Color,
) -> (r: Color)
    requires
        index < heightmap@.len(),
        width >= 1,
        heightmap@.len() as int % (width as int) == 0,
    ensures
        r@ == shaded_color(
            heightmap@,
            index as int,
            color@,
            width as int,
            light@,
            light_color@,
            dark_color@,
        ),
{
    if heightmap[index].gt(Fixed::half()) {
        let len: usize = heightmap.len();
        proof {
            lemma_cell_position(index as int, width as int, len as int);
        }
        let x: usize = index % width;
        let y: usize = index / width;
        let rows: usize = len / width;
        let two = Fixed::from_raw(2 * ONE_RAW);

        let nx = if width <= 1 {
            Fixed::zero()
        } else if x == 0 {
            heightmap[index + 1].minus(heightmap[index]).times(two)
        } else if x == width - 1 {
            heightmap[index].minus(heightmap[index - 1]).times(two)
        } else {
            heightmap[index + 1].minus(heightmap[index - 1])
        };

        let ny = if rows <= 1 {
            Fixed::zero()
        } else if y == 0 {
            heightmap[index + width].minus(heightmap[index]).times(two)
        } else if y == rows - 1 {
            heightmap[index].minus(heightmap[index - width]).times(two)
        } else {
            heightmap[index + width].minus(heightmap[index - width])
        };

        let squares = nx.times(nx).plus(ny.times(ny)).plus(Fixed::from_raw(4 * ONE_RAW));
        assert(squares@ >= 4 * ONE_RAW) by {
            assert(nx@ * nx@ >= 0 && ny@ * ny@ >= 0) by (nonlinear_arith);
            assert((nx@ * nx@) / (ONE_RAW as int) >= 0 && (ny@ * ny@) / (ONE_RAW as int) >= 0);
        }
        let n = squares.sqrt();
        proof {
            lemma_normal_length(squares@, n@);
        }
        let normal = Vec3([nx.negated().over(n), ny.negated().over(n), two.over(n)]);
        assert(normal@ =~= surface_normal(nx@, ny@));

        let d = light.dot(&normal).times(Fixed::from_raw(CONTRAST_RAW)).plus(Fixed::half());

        if d.lt(Fixed::zero()) {
            dark_color
        } else if d.gt(Fixed::one()) {
            light_color
        } else if d.lt(Fixed::half()) {
            lerp(dark_color, color, two.times(d))
        } else {
            lerp(color, light_color, two.times(d).minus(Fixed::one()))
        }
    } else {
        color
    }
}

} // verus!
