//! Diamond-square subdivision.
//!
//! Each pass halves the step: a square step sets every cell centre from its
//! four diagonal neighbours, then a diamond step sets every edge midpoint from
//! the axis neighbours that lie inside the grid.
use super::utils::{
    are_corners, cell, cropped, height_at, is_rescaling_of, is_working_side, normalize,
    pass_delta, seeded_grid, seeded_working_grid, set_height_at, submap, working_size,
};
use super::Heightmap;
use crate::fixed::{fx_add, fx_div, Fixed, HALF_RAW, ONE_RAW};
use crate::rng::displacement;
use rand::rngs::StdRng;
use vstd::arithmetic::power2::pow2;
use vstd::prelude::*;

verus! {

/// Height that the square step gives the cell `(x, y)`: the mean of the four
/// cells at diagonal distance `d`, plus `noise`.
pub open spec fn square_value(
    data: Seq<Fixed>,
    size: int,
    x: int,
    y: int,
    d: int,
    noise: int,
) -> int {
    let tl = data[cell(size, x - d, y - d)]@;
    let tr = data[cell(size, x - d, y + d)]@;
    let bl = data[cell(size, x + d, y - d)]@;
    let br = data[cell(size, x + d, y + d)]@;
    fx_add(fx_div(fx_add(fx_add(fx_add(tl, tr), bl), br), 4 * ONE_RAW), noise)
}

/// Sum of the axis neighbours of `(x, y)` at distance `d` that lie inside the grid.
pub open spec fn diamond_sum(data: Seq<Fixed>, size: int, x: int, y: int, d: int) -> int {
    let s0 = if x > 0 {
        fx_add(0, data[cell(size, x - d, y)]@)
    } else {
        0
    };
    let s1 = if x < size - 1 {
        fx_add(s0, data[cell(size, x + d, y)]@)
    } else {
        s0
    };
    let s2 = if y > 0 {
        fx_add(s1, data[cell(size, x, y - d)]@)
    } else {
        s1
    };
    if y < size - 1 {
        fx_add(s2, data[cell(size, x, y + d)]@)
    } else {
        s2
    }
}

/// Number of axis neighbours of `(x, y)` that lie inside the grid.
pub open spec fn diamond_count(size: int, x: int, y: int) -> int {
    (if x > 0 { 1int } else { 0 }) + (if x < size - 1 { 1int } else { 0 })
        + (if y > 0 { 1int } else { 0 }) + (if y < size - 1 { 1int } else { 0 })
}

/// Height that the diamond step gives the cell `(x, y)`: the mean of its
/// axis neighbours inside the grid, plus `noise`.
pub open spec fn diamond_value(
    data: Seq<Fixed>,
    size: int,
    x: int,
    y: int,
    d: int,
    noise: int,
) -> int {
    fx_add(fx_div(diamond_sum(data, size, x, y, d), diamond_count(size, x, y) * ONE_RAW), noise)
}

/// The grid after the square step at `(x, y)` with the displacement `noise`.
pub open spec fn square_applied(
    data: Seq<Fixed>,
    size: int,
    x: int,
    y: int,
    d: int,
    noise: int,
) -> Seq<Fixed> {
    data.update(cell(size, x, y), Fixed { raw: square_value(data, size, x, y, d, noise) as i64 })
}

/// The grid after the diamond step at `(x, y)` with the displacement `noise`.
pub open spec fn diamond_applied(
    data: Seq<Fixed>,
    size: int,
    x: int,
    y: int,
    d: int,
    noise: int,
) -> Seq<Fixed> {
    data.update(cell(size, x, y), Fixed { raw: diamond_value(data, size, x, y, d, noise) as i64 })
}

/// `(x, y)` is a cell whose four diagonal neighbours at distance `d` lie inside the grid.
pub open spec fn square_fits(size: int, x: int, y: int, d: int) -> bool {
    &&& 0 <= d <= x
    &&& x + d < size
    &&& d <= y
    &&& y + d < size
}

/// `(x, y)` is a cell of a grid of at least two rows, and each of its axis
/// neighbours at distance `d` lies inside the grid unless `(x, y)` lies on
/// the edge that the neighbour would cross.
pub open spec fn diamond_fits(size: int, x: int, y: int, d: int) -> bool {
    &&& 2 <= size
    &&& 0 <= d
    &&& 0 <= x < size
    &&& 0 <= y < size
    &&& (x > 0 ==> x >= d)
    &&& (x < size - 1 ==> x + d < size)
    &&& (y > 0 ==> y >= d)
    &&& (y < size - 1 ==> y + d < size)
}

/// The square step at `(x, y)` with the displacement `noise`.
pub fn square_step(data: &mut Vec<Fixed>, x: usize, y: usize, size: usize, d: usize, noise: Fixed)
    requires
        old(data)@.len() == size * size,
        square_fits(size as int, x as int, y as int, d as int),
    ensures
        final(data)@.len() == size * size,
        final(data)@ == square_applied(
            old(data)@,
            size as int,
            x as int,
            y as int,
            d as int,
            noise@,
        ),
        final(data)@[cell(size as int, x as int, y as int)]@ == square_value(
            old(data)@,
            size as int,
            x as int,
            y as int,
            d as int,
            noise@,
        ),
{
    let tl = height_at(data, size, x - d, y - d);
    let tr = height_at(data, size, x - d, y + d);
    let bl = height_at(data, size, x + d, y - d);
    let br = height_at(data, size, x + d, y + d);

    let four = Fixed::from_raw(4 * ONE_RAW);
    let value = tl.plus(tr).plus(bl).plus(br).over(four).plus(noise);
    proof {
        crate::heightmap::utils::lemma_cell_in_grid(size as int, x as int, y as int);
    }
    set_height_at(data, size, x, y, value);
}

/// The diamond step at `(x, y)` with the displacement `noise`.
pub fn diamond_step(data: &mut Vec<Fixed>, x: usize, y: usize, size: usize, d: usize, noise: Fixed)
    requires
        old(data)@.len() == size * size,
        diamond_fits(size as int, x as int, y as int, d as int),
    ensures
        final(data)@.len() == size * size,
        final(data)@ == diamond_applied(
            old(data)@,
            size as int,
            x as int,
            y as int,
            d as int,
            noise@,
        ),
        final(data)@[cell(size as int, x as int, y as int)]@ == diamond_value(
            old(data)@,
            size as int,
            x as int,
            y as int,
            d as int,
            noise@,
        ),
{
    let mut sum = Fixed::zero();
    let mut count: i64 = 0;

    if x > 0 {
        sum = sum.plus(height_at(data, size, x - d, y));
        count += 1;
    }
    if x < size - 1 {
        sum = sum.plus(height_at(data, size, x + d, y));
        count += 1;
    }
    if y > 0 {
        sum = sum.plus(height_at(data, size, x, y - d));
        count += 1;
    }
    if y < size - 1 {
        sum = sum.plus(height_at(data, size, x, y + d));
        count += 1;
    }

    let value = sum.over(Fixed::from_raw(count * ONE_RAW)).plus(noise);
    proof {
        crate::heightmap::utils::lemma_cell_in_grid(size as int, x as int, y as int);
    }
    set_height_at(data, size, x, y, value);
}

/// Centre, along one axis, of the cell `c` of a pass with step `d`.
pub open spec fn cell_centre(c: int, d: int) -> int {
    d / 2 + c * d
}

/// Every displacement of `noise` lies in `[-delta, delta]`.
pub open spec fn all_within(noise: Seq<Fixed>, delta: int) -> bool {
    forall|i: int| 0 <= i < noise.len() ==> -delta <= (#[trigger] noise[i])@ <= delta
}

/// The grid after the first `n` square steps of a pass with step `d` over
/// `q` x `q` cells. The step `k` sets the centre of the cell `(k / q, k % q)`
/// with the displacement `noise[k]`.
pub open spec fn squares_done(
    data: Seq<Fixed>,
    size: int,
    d: int,
    q: int,
    noise: Seq<Fixed>,
    n: nat,
) -> Seq<Fixed>
    decreases n,
{
    if n == 0 {
        data
    } else {
        let k = n - 1;
        square_applied(
            squares_done(data, size, d, q, noise, k as nat),
            size,
            cell_centre(k / q, d),
            cell_centre(k % q, d),
            d / 2,
            noise[k]@,
        )
    }
}

/// Column of the edge midpoint that the diamond step `m` of a pass sets. The
/// steps `4 k .. 4 k + 4` set the midpoints of the cell `k` toward lower x,
/// higher x, lower y and higher y.
pub open spec fn edge_x(m: int, q: int, d: int) -> int {
    let x = cell_centre((m / 4) / q, d);
    if m % 4 == 0 {
        x - d / 2
    } else if m % 4 == 1 {
        x + d / 2
    } else {
        x
    }
}

/// Row of the edge midpoint that the diamond step `m` of a pass sets.
pub open spec fn edge_y(m: int, q: int, d: int) -> int {
    let y = cell_centre((m / 4) % q, d);
    if m % 4 == 2 {
        y - d / 2
    } else if m % 4 == 3 {
        y + d / 2
    } else {
        y
    }
}

/// The grid after the first `n` diamond steps of a pass with step `d` over
/// `q` x `q` cells, the step `m` taking the displacement `noise[m]`.
pub open spec fn diamonds_done(
    data: Seq<Fixed>,
    size: int,
    d: int,
    q: int,
    noise: Seq<Fixed>,
    n: nat,
) -> Seq<Fixed>
    decreases n,
{
    if n == 0 {
        data
    } else {
        let m = n - 1;
        diamond_applied(
            diamonds_done(data, size, d, q, noise, m as nat),
            size,
            edge_x(m, q, d),
            edge_y(m, q, d),
            d / 2,
            noise[m]@,
        )
    }
}

/// The first `n` square steps read the first `n` displacements alone.
pub proof fn lemma_squares_done_prefix(
    data: Seq<Fixed>,
    size: int,
    d: int,
    q: int,
    a: Seq<Fixed>,
    b: Seq<Fixed>,
    n: nat,
)
    requires
        n <= a.len(),
        n <= b.len(),
        forall|i: int| 0 <= i < n ==> a[i] == b[i],
    ensures
        squares_done(data, size, d, q, a, n) == squares_done(data, size, d, q, b, n),
    decreases n,
{
    if n > 0 {
        lemma_squares_done_prefix(data, size, d, q, a, b, (n - 1) as nat);
    }
}

/// The first `n` diamond steps read the first `n` displacements alone.
pub proof fn lemma_diamonds_done_prefix(
    data: Seq<Fixed>,
    size: int,
    d: int,
    q: int,
    a: Seq<Fixed>,
    b: Seq<Fixed>,
    n: nat,
)
    requires
        n <= a.len(),
        n <= b.len(),
        forall|i: int| 0 <= i < n ==> a[i] == b[i],
    ensures
        diamonds_done(data, size, d, q, a, n) == diamonds_done(data, size, d, q, b, n),
    decreases n,
{
    if n > 0 {
        lemma_diamonds_done_prefix(data, size, d, q, a, b, (n - 1) as nat);
    }
}

/// One more square step with the displacement `noise` extends a run of `k` steps.
proof fn lemma_square_step_extends(
    start: Seq<Fixed>,
    size: int,
    d: int,
    q: int,
    drawn: Seq<Fixed>,
    noise: Fixed,
    cx: int,
    cy: int,
)
    requires
        q > 0,
        0 <= cx,
        0 <= cy < q,
        drawn.len() == cx * q + cy,
    ensures
        squares_done(start, size, d, q, drawn.push(noise), (cx * q + cy + 1) as nat)
            == square_applied(
            squares_done(start, size, d, q, drawn, (cx * q + cy) as nat),
            size,
            cell_centre(cx, d),
            cell_centre(cy, d),
            d / 2,
            noise@,
        ),
{
    let k = cx * q + cy;
    assert(k >= 0) by (nonlinear_arith)
        requires
            k == cx * q + cy,
            cx >= 0,
            q > 0,
            cy >= 0,
    ;
    vstd::arithmetic::mul::lemma_mul_is_commutative(cx, q);
    vstd::arithmetic::div_mod::lemma_fundamental_div_mod_converse(k, q, cx, cy);
    lemma_squares_done_prefix(start, size, d, q, drawn.push(noise), drawn, k as nat);
}

/// One more diamond step with the displacement `noise` extends a run of `m` steps.
proof fn lemma_diamond_step_extends(
    start: Seq<Fixed>,
    size: int,
    d: int,
    q: int,
    drawn: Seq<Fixed>,
    noise: Fixed,
    cx: int,
    cy: int,
    e: int,
)
    requires
        q > 0,
        0 <= cx,
        0 <= cy < q,
        0 <= e < 4,
        drawn.len() == 4 * (cx * q + cy) + e,
    ensures
        diamonds_done(start, size, d, q, drawn.push(noise), (4 * (cx * q + cy) + e + 1) as nat)
            == diamond_applied(
            diamonds_done(start, size, d, q, drawn, (4 * (cx * q + cy) + e) as nat),
            size,
            if e == 0 {
                cell_centre(cx, d) - d / 2
            } else if e == 1 {
                cell_centre(cx, d) + d / 2
            } else {
                cell_centre(cx, d)
            },
            if e == 2 {
                cell_centre(cy, d) - d / 2
            } else if e == 3 {
                cell_centre(cy, d) + d / 2
            } else {
                cell_centre(cy, d)
            },
            d / 2,
            noise@,
        ),
{
    let k = cx * q + cy;
    assert(k >= 0) by (nonlinear_arith)
        requires
            k == cx * q + cy,
            cx >= 0,
            q > 0,
            cy >= 0,
    ;
    let m = 4 * k + e;
    assert(m / 4 == k && m % 4 == e);
    vstd::arithmetic::mul::lemma_mul_is_commutative(cx, q);
    vstd::arithmetic::div_mod::lemma_fundamental_div_mod_converse(k, q, cx, cy);
    lemma_diamonds_done_prefix(start, size, d, q, drawn.push(noise), drawn, m as nat);
}

/// The displacements that one pass draws: one for every square step, then
/// one for every diamond step.
pub struct PassDraws {
    pub squares: Seq<Fixed>,
    pub diamonds: Seq<Fixed>,
}

/// The grid after a whole pass with step `d` over `q` x `q` cells: all its
/// square steps, then all its diamond steps.
pub open spec fn pass_done(data: Seq<Fixed>, size: int, d: int, q: int, draws: PassDraws) -> Seq<
    Fixed,
> {
    diamonds_done(
        squares_done(data, size, d, q, draws.squares, (q * q) as nat),
        size,
        d,
        q,
        draws.diamonds,
        (4 * (q * q)) as nat,
    )
}

/// The grid after the first `p` passes. The pass `i` divides each axis into
/// `2^i` cells.
pub open spec fn passes_done(data: Seq<Fixed>, size: int, draws: Seq<PassDraws>, p: nat) -> Seq<
    Fixed,
>
    decreases p,
{
    if p == 0 {
        data
    } else {
        let i = (p - 1) as nat;
        pass_done(
            passes_done(data, size, draws, i),
            size,
            (size - 1) / (pow2(i) as int),
            pow2(i) as int,
            draws[i as int],
        )
    }
}

/// `draws` holds the displacements of `passes` passes: for the pass `i`, one
/// for each of its `4^i` square steps and one for each of its `4 * 4^i`
/// diamond steps, all within the largest displacement of the pass.
pub open spec fn draws_fit(draws: Seq<PassDraws>, passes: nat) -> bool {
    &&& draws.len() == passes
    &&& forall|i: int|
        0 <= i < passes ==> {
            &&& (#[trigger] draws[i]).squares.len() == pow2(i as nat) * pow2(i as nat)
            &&& draws[i].diamonds.len() == 4 * (pow2(i as nat) * pow2(i as nat))
            &&& all_within(draws[i].squares, pass_delta(i as nat))
            &&& all_within(draws[i].diamonds, pass_delta(i as nat))
        }
}

/// `working` is a diamond-square grid of `size` cells per row: the grid of
/// four corners from `[0, 1]` after all the passes that halve the step from
/// `size - 1` down to one, for some displacements within the bounds of their passes.
pub open spec fn is_diamond_square(working: Seq<Fixed>, size: int) -> bool {
    exists|passes: nat, corners: Seq<Fixed>, draws: Seq<PassDraws>|
        {
            &&& size - 1 == pow2(passes)
            &&& are_corners(corners)
            &&& draws_fit(draws, passes)
            &&& working == #[trigger] passes_done(seeded_grid(size, corners), size, draws, passes)
        }
}

/// `grid` is a `width` x `height` diamond-square heightmap: the top-left part
/// of a diamond-square grid of the working size, rescaled between its lowest
/// and its highest height.
pub open spec fn is_diamond_square_map(grid: Seq<Fixed>, width: int, height: int) -> bool {
    exists|size: int, working: Seq<Fixed>|
        {
            &&& is_working_side(
                size - 1,
                if width >= height {
                    width
                } else {
                    height
                },
            )
            &&& is_diamond_square(working, size)
            &&& #[trigger] is_rescaling_of(grid, cropped(working, size, width, height))
        }
}

/// The first `p` passes read the first `p` sets of displacements alone.
pub proof fn lemma_passes_done_prefix(
    data: Seq<Fixed>,
    size: int,
    a: Seq<PassDraws>,
    b: Seq<PassDraws>,
    p: nat,
)
    requires
        p <= a.len(),
        p <= b.len(),
        forall|i: int| 0 <= i < p ==> a[i] == b[i],
    ensures
        passes_done(data, size, a, p) == passes_done(data, size, b, p),
    decreases p,
{
    if p > 0 {
        lemma_passes_done_prefix(data, size, a, b, (p - 1) as nat);
    }
}

/// Cells along one axis that a pass with step `d = 2 * half` visits: the
/// centre `half + c * d` of the `c`-th cell and its two edges lie inside the grid.
pub proof fn lemma_pass_geometry(c: int, q: int, d: int, half: int, side: int)
    requires
        0 <= c < q,
        d == 2 * half,
        half >= 1,
        d * q == side,
    ensures
        0 <= c * d,
        c * d + d <= side,
        c == 0 ==> c * d == 0,
        c > 0 ==> c * d >= d,
        c * d + d == side || c * d + 2 * d <= side,
{
    assert(0 <= c * d && c * d + d <= d * q && (c > 0 ==> c * d >= d) && (c * d + d == d * q || c
        * d + 2 * d <= d * q)) by (nonlinear_arith)
        requires
            0 <= c < q,
            d >= 2,
    {
        if c + 1 < q {
            assert((c + 2) * d <= q * d);
        } else {
            assert((c + 1) * d == q * d);
        }
    }
}

/// The diamond-square synthesizer and its random source.
pub struct Diamond {
    pub rng: StdRng,
}

impl Diamond {
    /// The square step at `(x, y)` with a displacement drawn from `[-delta, delta]`.
    pub fn square(
        &mut self,
        data: &mut Vec<Fixed>,
        x: usize,
        y: usize,
        size: usize,
        d: usize,
        delta: Fixed,
    )
        requires
            old(data)@.len() == size * size,
            square_fits(size as int, x as int, y as int, d as int),
            0 <= delta@,
        ensures
            final(data)@.len() == size * size,
            exists|noise: Fixed|
                -delta@ <= noise@ <= delta@ && final(data)@ == #[trigger] square_applied(
                    old(data)@,
                    size as int,
                    x as int,
                    y as int,
                    d as int,
                    noise@,
                ),
    {
        let noise = displacement(&mut self.rng, delta);
        square_step(data, x, y, size, d, noise);
    }

    /// The diamond step at `(x, y)` with a displacement drawn from `[-delta, delta]`.
    pub fn diamond(
        &mut self,
        data: &mut Vec<Fixed>,
        x: usize,
        y: usize,
        size: usize,
        d: usize,
        delta: Fixed,
    )
        requires
            old(data)@.len() == size * size,
            diamond_fits(size as int, x as int, y as int, d as int),
            0 <= delta@,
        ensures
            final(data)@.len() == size * size,
            exists|noise: Fixed|
                -delta@ <= noise@ <= delta@ && final(data)@ == #[trigger] diamond_applied(
                    old(data)@,
                    size as int,
                    x as int,
                    y as int,
                    d as int,
                    noise@,
                ),
    {
        let noise = displacement(&mut self.rng, delta);
        diamond_step(data, x, y, size, d, noise);
    }

    /// The square steps of one pass, cell by cell, each with a displacement
    /// drawn from `[-delta, delta]`. Returns the displacements drawn.
    fn square_pass(
        &mut self,
        data: &mut Vec<Fixed>,
        size: usize,
        d: usize,
        q: usize,
        delta: Fixed,
    ) -> (drawn: Ghost<Seq<Fixed>>)
        requires
            old(data)@.len() == size * size,
            d >= 2,
            d % 2 == 0,
            q >= 1,
            d * q == size - 1,
            0 <= delta@,
        ensures
            final(data)@.len() == size * size,
            drawn@.len() == q * q,
            all_within(drawn@, delta@),
            final(data)@ == squares_done(
                old(data)@,
                size as int,
                d as int,
                q as int,
                drawn@,
                (q * q) as nat,
            ),
    {
        let half: usize = d / 2;
        let last: usize = size - 1;
        let ghost start = data@;
        let ghost mut drawn: Seq<Fixed> = Seq::empty();
        let mut cx: usize = 0;
        while cx < q
            invariant
                cx <= q,
                size == last + 1,
                data@.len() == size * size,
                d == 2 * half,
                half >= 1,
                q >= 1,
                d * q == last,
                0 <= delta@,
                drawn.len() == cx * q,
                all_within(drawn, delta@),
                data@ == squares_done(
                    start,
                    size as int,
                    d as int,
                    q as int,
                    drawn,
                    (cx * q) as nat,
                ),
            decreases q - cx,
        {
            proof {
                lemma_pass_geometry(cx as int, q as int, d as int, half as int, last as int);
                vstd::arithmetic::mul::lemma_mul_is_distributive_add_other_way(
                    q as int,
                    cx as int,
                    1,
                );
            }
            let x: usize = half + cx * d;
            let mut cy: usize = 0;
            while cy < q
                invariant
                    cy <= q,
                    cx < q,
                    size == last + 1,
                    data@.len() == size * size,
                    d == 2 * half,
                    half >= 1,
                    q >= 1,
                    d * q == last,
                    x == cell_centre(cx as int, d as int),
                    half <= x,
                    x + half <= last,
                    0 <= delta@,
                    (cx + 1) * q == cx * q + q,
                    drawn.len() == cx * q + cy,
                    all_within(drawn, delta@),
                    data@ == squares_done(
                        start,
                        size as int,
                        d as int,
                        q as int,
                        drawn,
                        (cx * q + cy) as nat,
                    ),
                decreases q - cy,
            {
                proof {
                    lemma_pass_geometry(cy as int, q as int, d as int, half as int, last as int);
                }
                let y: usize = half + cy * d;
                let ghost before = data@;
                self.square(data, x, y, size, half, delta);
                proof {
                    let noise = choose|noise: Fixed|
                        -delta@ <= noise@ <= delta@ && data@ == #[trigger] square_applied(
                            before,
                            size as int,
                            x as int,
                            y as int,
                            half as int,
                            noise@,
                        );
                    lemma_square_step_extends(
                        start,
                        size as int,
                        d as int,
                        q as int,
                        drawn,
                        noise,
                        cx as int,
                        cy as int,
                    );
                    drawn = drawn.push(noise);
                }
                cy += 1;
            }
            cx += 1;
        }
        Ghost(drawn)
    }

    /// The diamond steps of one pass, cell by cell and edge by edge, each
    /// with a displacement drawn from `[-delta, delta]`. Returns the
    /// displacements drawn.
    fn diamond_pass(
        &mut self,
        data: &mut Vec<Fixed>,
        size: usize,
        d: usize,
        q: usize,
        delta: Fixed,
    ) -> (drawn: Ghost<Seq<Fixed>>)
        requires
            old(data)@.len() == size * size,
            d >= 2,
            d % 2 == 0,
            q >= 1,
            d * q == size - 1,
            0 <= delta@,
        ensures
            final(data)@.len() == size * size,
            drawn@.len() == 4 * (q * q),
            all_within(drawn@, delta@),
            final(data)@ == diamonds_done(
                old(data)@,
                size as int,
                d as int,
                q as int,
                drawn@,
                (4 * (q * q)) as nat,
            ),
    {
        let half: usize = d / 2;
        let last: usize = size - 1;
        assert(d * q >= 2) by (nonlinear_arith)
            requires
                d >= 2,
                q >= 1,
        ;
        let ghost start = data@;
        let ghost mut drawn: Seq<Fixed> = Seq::empty();
        let mut cx: usize = 0;
        while cx < q
            invariant
                cx <= q,
                size == last + 1,
                2 <= size,
                data@.len() == size * size,
                d == 2 * half,
                half >= 1,
                q >= 1,
                d * q == last,
                0 <= delta@,
                drawn.len() == 4 * (cx * q),
                all_within(drawn, delta@),
                data@ == diamonds_done(
                    start,
                    size as int,
                    d as int,
                    q as int,
                    drawn,
                    (4 * (cx * q)) as nat,
                ),
            decreases q - cx,
        {
            proof {
                lemma_pass_geometry(cx as int, q as int, d as int, half as int, last as int);
                vstd::arithmetic::mul::lemma_mul_is_distributive_add_other_way(
                    q as int,
                    cx as int,
                    1,
                );
            }
            let x: usize = half + cx * d;
            let mut cy: usize = 0;
            while cy < q
                invariant
                    cy <= q,
                    cx < q,
                    size == last + 1,
                    2 <= size,
                    data@.len() == size * size,
                    d == 2 * half,
                    half >= 1,
                    q >= 1,
                    d * q == last,
                    x == cell_centre(cx as int, d as int),
                    half <= x,
                    x + half <= last,
                    x == half || x - half >= d,
                    x + half == last || x + half + d <= last,
                    0 <= delta@,
                    (cx + 1) * q == cx * q + q,
                    drawn.len() == 4 * (cx * q + cy),
                    all_within(drawn, delta@),
                    data@ == diamonds_done(
                        start,
                        size as int,
                        d as int,
                        q as int,
                        drawn,
                        (4 * (cx * q + cy)) as nat,
                    ),
                decreases q - cy,
            {
                proof {
                    lemma_pass_geometry(cy as int, q as int, d as int, half as int, last as int);
                }
                let y: usize = half + cy * d;

                let ghost before = data@;
                self.diamond(data, x - half, y, size, half, delta);
                proof {
                    let noise = choose|noise: Fixed|
                        -delta@ <= noise@ <= delta@ && data@ == #[trigger] diamond_applied(
                            before,
                            size as int,
                            x - half,
                            y as int,
                            half as int,
                            noise@,
                        );
                    lemma_diamond_step_extends(
                        start,
                        size as int,
                        d as int,
                        q as int,
                        drawn,
                        noise,
                        cx as int,
                        cy as int,
                        0,
                    );
                    drawn = drawn.push(noise);
                }

                let ghost before = data@;
                self.diamond(data, x + half, y, size, half, delta);
                proof {
                    let noise = choose|noise: Fixed|
                        -delta@ <= noise@ <= delta@ && data@ == #[trigger] diamond_applied(
                            before,
                            size as int,
                            x + half,
                            y as int,
                            half as int,
                            noise@,
                        );
                    lemma_diamond_step_extends(
                        start,
                        size as int,
                        d as int,
                        q as int,
                        drawn,
                        noise,
                        cx as int,
                        cy as int,
                        1,
                    );
                    drawn = drawn.push(noise);
                }

                let ghost before = data@;
                self.diamond(data, x, y - half, size, half, delta);
                proof {
                    let noise = choose|noise: Fixed|
                        -delta@ <= noise@ <= delta@ && data@ == #[trigger] diamond_applied(
                            before,
                            size as int,
                            x as int,
                            y - half,
                            half as int,
                            noise@,
                        );
                    lemma_diamond_step_extends(
                        start,
                        size as int,
                        d as int,
                        q as int,
                        drawn,
                        noise,
                        cx as int,
                        cy as int,
                        2,
                    );
                    drawn = drawn.push(noise);
                }

                let ghost before = data@;
                self.diamond(data, x, y + half, size, half, delta);
                proof {
                    let noise = choose|noise: Fixed|
                        -delta@ <= noise@ <= delta@ && data@ == #[trigger] diamond_applied(
                            before,
                            size as int,
                            x as int,
                            y + half,
                            half as int,
                            noise@,
                        );
                    lemma_diamond_step_extends(
                        start,
                        size as int,
                        d as int,
                        q as int,
                        drawn,
                        noise,
                        cx as int,
                        cy as int,
                        3,
                    );
                    drawn = drawn.push(noise);
                }
                cy += 1;
            }
            cx += 1;
        }
        Ghost(drawn)
    }
}

impl Heightmap for Diamond {
    open spec fn wf(&self) -> bool {
        true
    }

    fn generate(&mut self, width: usize, height: usize) -> (grid: Vec<Fixed>)
        ensures
            is_diamond_square_map(grid@, width as int, height as int),
    {
        let size = working_size(width, height);
        let last: usize = size - 1;
        let (mut data, Ghost(corners)) = seeded_working_grid(&mut self.rng, size);
        let ghost start = data@;

        let mut d: usize = last;
        let mut q: usize = 1;
        let mut delta = Fixed::from_raw(HALF_RAW);
        let ghost passes: nat = choose|k: nat| last == pow2(k);
        let ghost mut k: nat = passes;
        let ghost mut p: nat = 0;
        let ghost mut draws: Seq<PassDraws> = Seq::empty();
        proof {
            vstd::arithmetic::power2::lemma2_to64();
        }

        while d > 1
            invariant
                size == last + 1,
                2 <= size <= 0x8000,
                size * size <= 0x4000_0000,
                data@.len() == size * size,
                d == pow2(k),
                q == pow2(p),
                p + k == passes,
                d * q == last,
                1 <= d,
                1 <= q <= last,
                delta@ == pass_delta(p),
                0 <= delta@,
                draws_fit(draws, p),
                data@ == passes_done(start, size as int, draws, p),
            decreases d,
        {
            let half: usize = d / 2;
            proof {
                if k == 0 {
                    vstd::arithmetic::power2::lemma2_to64();
                }
                vstd::arithmetic::power2::lemma_pow2_unfold(k);
                vstd::arithmetic::power2::lemma_pow2_pos((k - 1) as nat);
                vstd::arithmetic::power2::lemma_pow2_unfold(p + 1);
            }
            assert(d == 2 * half);

            let squares = self.square_pass(&mut data, size, d, q, delta);
            let diamonds = self.diamond_pass(&mut data, size, d, q, delta);

            proof {
                let pass = PassDraws { squares: squares@, diamonds: diamonds@ };
                let next = draws.push(pass);
                lemma_passes_done_prefix(start, size as int, next, draws, p);
                vstd::arithmetic::mul::lemma_mul_is_commutative(q as int, d as int);
                vstd::arithmetic::div_mod::lemma_fundamental_div_mod_converse(
                    last as int,
                    q as int,
                    d as int,
                    0,
                );
                assert(data@ == passes_done(start, size as int, next, p + 1));
                assert(draws_fit(next, p + 1)) by {
                    assert forall|i: int| 0 <= i < p + 1 implies {
                        &&& (#[trigger] next[i]).squares.len() == pow2(i as nat) * pow2(i as nat)
                        &&& next[i].diamonds.len() == 4 * (pow2(i as nat) * pow2(i as nat))
                        &&& all_within(next[i].squares, pass_delta(i as nat))
                        &&& all_within(next[i].diamonds, pass_delta(i as nat))
                    } by {
                        if i < p {
                            assert(next[i] == draws[i]);
                        }
                    }
                }
                assert(half * (2 * q) == d * q && 2 * q <= half * (2 * q)) by (nonlinear_arith)
                    requires
                        d == 2 * half,
                        half >= 1,
                        q >= 1,
                ;
                vstd::arithmetic::div_mod::lemma_div_denominator(
                    HALF_RAW as int,
                    pow2(p) as int,
                    2,
                );
                vstd::arithmetic::mul::lemma_mul_is_commutative(pow2(p) as int, 2);
                draws = next;
                p = p + 1;
                k = (k - 1) as nat;
            }
            d = half;
            q = 2 * q;
            delta = Fixed::from_raw(delta.raw() / 2);
        }
        proof {
            if k > 0 {
                vstd::arithmetic::power2::lemma_pow2_strictly_increases(0, k);
            }
            assert(p == passes);
            assert(is_diamond_square(data@, size as int)) by {
                assert(data@ == passes_done(
                    seeded_grid(size as int, corners),
                    size as int,
                    draws,
                    passes,
                ));
            }
        }
        let ghost working = data@;
        let grid = normalize(submap(size, size, width, height, data));
        assert(is_rescaling_of(grid@, cropped(working, size as int, width as int, height as int)));
        grid
    }
}

} // verus!
