//! Midpoint displacement.
//!
//! Each pass halves the step and sets, cell by cell, the centre and the four
//! edge midpoints of the cell from its four corners alone.
use super::diamond::{all_within, cell_centre, lemma_pass_geometry, square_fits};
use super::utils::{
    are_corners, cell, cropped, height_at, is_rescaling_of, is_working_side, normalize,
    pass_delta, seeded_grid, seeded_working_grid, set_height_at, submap, working_size,
};
use super::Heightmap;
use crate::fixed::{fx_add, fx_div, Fixed, HALF_RAW, ONE_RAW};
use crate::rng::displacement;
use rand::rngs::StdRng;
use vstd::arithmetic::power2::pow2;
use vstd::prelude::*;

verus! {

/// Mean of four heights plus `noise`.
pub open spec fn mean4(a: int, b: int, c: int, d: int, noise: int) -> int {
    fx_add(fx_div(fx_add(fx_add(fx_add(a, b), c), d), 4 * ONE_RAW), noise)
}

/// Mean of two heights plus `noise`.
pub open spec fn mean2(a: int, b: int, noise: int) -> int {
    fx_add(fx_div(fx_add(a, b), 2 * ONE_RAW), noise)
}

/// The grid after the cell centred at `(x, y)` with half-width `half` has
/// been displaced with the five displacements `noise`: the centre, then the
/// midpoints of the edges toward lower x, higher x, lower y and higher y.
pub open spec fn displaced(
    data: Seq<Fixed>,
    size: int,
    x: int,
    y: int,
    half: int,
    noise: Seq<Fixed>,
) -> Seq<Fixed> {
    let tl = data[cell(size, x - half, y - half)]@;
    let tr = data[cell(size, x - half, y + half)]@;
    let bl = data[cell(size, x + half, y - half)]@;
    let br = data[cell(size, x + half, y + half)]@;
    data.update(cell(size, x, y), Fixed { raw: mean4(tl, tr, bl, br, noise[0]@) as i64 }).update(
        cell(size, x - half, y),
        Fixed { raw: mean2(tl, tr, noise[1]@) as i64 },
    ).update(cell(size, x + half, y), Fixed { raw: mean2(bl, br, noise[2]@) as i64 }).update(
        cell(size, x, y - half),
        Fixed { raw: mean2(tl, bl, noise[3]@) as i64 },
    ).update(cell(size, x, y + half), Fixed { raw: mean2(tr, br, noise[4]@) as i64 })
}

/// Displaces the cell centred at `(x, y)` with the five displacements `noise`.
pub fn midpoint_step(
    data: &mut Vec<Fixed>,
    x: usize,
    y: usize,
    size: usize,
    half: usize,
    noise: [Fixed; 5],
)
    requires
        old(data)@.len() == size * size,
        square_fits(size as int, x as int, y as int, half as int),
    ensures
        final(data)@.len() == size * size,
        final(data)@ == displaced(
            old(data)@,
            size as int,
            x as int,
            y as int,
            half as int,
            noise@,
        ),
{
    let tl = height_at(data, size, x - half, y - half);
    let tr = height_at(data, size, x - half, y + half);
    let bl = height_at(data, size, x + half, y - half);
    let br = height_at(data, size, x + half, y + half);

    let four = Fixed::from_raw(4 * ONE_RAW);
    let two = Fixed::from_raw(2 * ONE_RAW);

    set_height_at(data, size, x, y, tl.plus(tr).plus(bl).plus(br).over(four).plus(noise[0]));
    set_height_at(data, size, x - half, y, tl.plus(tr).over(two).plus(noise[1]));
    set_height_at(data, size, x + half, y, bl.plus(br).over(two).plus(noise[2]));
    set_height_at(data, size, x, y - half, tl.plus(bl).over(two).plus(noise[3]));
    set_height_at(data, size, x, y + half, tr.plus(br).over(two).plus(noise[4]));
}

/// The grid after the first `n` cells of a pass with step `d` over `q` x `q`
/// cells. The step `k` displaces the cell `(k / q, k % q)` with the five
/// displacements `noise[5 k .. 5 k + 5]`.
pub open spec fn cells_done(
    data: Seq<Fixed>,
    size: int,
    d: int,
    q: int,
    noise: Seq<Fixed>,
    n: nat,
) -> Seq<Fixed>
    decreases n,
{
    if n == 0 {
        data
    } else {
        let k = n - 1;
        displaced(
            cells_done(data, size, d, q, noise, k as nat),
            size,
            cell_centre(k / q, d),
            cell_centre(k % q, d),
            d / 2,
            noise.subrange(5 * k, 5 * k + 5),
        )
    }
}

/// The grid after the first `p` passes. The pass `i` divides each axis into
/// `2^i` cells and takes the displacements `draws[i]`.
pub open spec fn passes_done(data: Seq<Fixed>, size: int, draws: Seq<Seq<Fixed>>, p: nat) -> Seq<
    Fixed,
>
    decreases p,
{
    if p == 0 {
        data
    } else {
        let i = (p - 1) as nat;
        cells_done(
            passes_done(data, size, draws, i),
            size,
            (size - 1) / (pow2(i) as int),
            pow2(i) as int,
            draws[i as int],
            (pow2(i) * pow2(i)) as nat,
        )
    }
}

/// `draws` holds the displacements of `passes` passes: for the pass `i`,
/// five for each of its `4^i` cells, all within the largest displacement of
/// the pass.
pub open spec fn draws_fit(draws: Seq<Seq<Fixed>>, passes: nat) -> bool {
    &&& draws.len() == passes
    &&& forall|i: int|
        0 <= i < passes ==> {
            &&& (#[trigger] draws[i]).len() == 5 * (pow2(i as nat) * pow2(i as nat))
            &&& all_within(draws[i], pass_delta(i as nat))
        }
}

/// `working` is a midpoint-displacement grid of `size` cells per row: the
/// grid of four corners from `[0, 1]` after all the passes that halve the
/// step from `size - 1` down to one, for some displacements within the
/// bounds of their passes.
pub open spec fn is_midpoint_displacement(working: Seq<Fixed>, size: int) -> bool {
    exists|passes: nat, corners: Seq<Fixed>, draws: Seq<Seq<Fixed>>|
        {
            &&& size - 1 == pow2(passes)
            &&& are_corners(corners)
            &&& draws_fit(draws, passes)
            &&& working == #[trigger] passes_done(seeded_grid(size, corners), size, draws, passes)
        }
}

/// `grid` is a `width` x `height` midpoint-displacement heightmap: the
/// top-left part of a midpoint-displacement grid of the working size,
/// rescaled between its lowest and its highest height.
pub open spec fn is_midpoint_map(grid: Seq<Fixed>, width: int, height: int) -> bool {
    exists|size: int, working: Seq<Fixed>|
        {
            &&& is_working_side(
                size - 1,
                if width >= height {
                    width
                } else {
                    height
                },
            )
            &&& is_midpoint_displacement(working, size)
            &&& #[trigger] is_rescaling_of(grid, cropped(working, size, width, height))
        }
}

/// The first `n` cells read the first `5 n` displacements alone.
pub proof fn lemma_cells_done_prefix(
    data: Seq<Fixed>,
    size: int,
    d: int,
    q: int,
    a: Seq<Fixed>,
    b: Seq<Fixed>,
    n: nat,
)
    requires
        5 * n <= a.len(),
        5 * n <= b.len(),
        forall|i: int| 0 <= i < 5 * n ==> a[i] == b[i],
    ensures
        cells_done(data, size, d, q, a, n) == cells_done(data, size, d, q, b, n),
    decreases n,
{
    if n > 0 {
        lemma_cells_done_prefix(data, size, d, q, a, b, (n - 1) as nat);
        let k = n - 1;
        assert(a.subrange(5 * k, 5 * k + 5) =~= b.subrange(5 * k, 5 * k + 5));
    }
}

/// The first `p` passes read the first `p` sets of displacements alone.
pub proof fn lemma_passes_done_prefix(
    data: Seq<Fixed>,
    size: int,
    a: Seq<Seq<Fixed>>,
    b: Seq<Seq<Fixed>>,
    p: nat,
)
    requires
        p <= a.len(),
        p <= b.len(),
        forall|i: int| 0 <= i < p ==> a[i] == b[i],
    ensures
        passes_done(data, size, a, p) == passes_done(data, size, b, p),
    decreases p,
{
    if p > 0 {
        lemma_passes_done_prefix(data, size, a, b, (p - 1) as nat);
    }
}

/// One more cell with the displacements `noise` extends a run of `k` cells.
proof fn lemma_cell_extends(
    start: Seq<Fixed>,
    size: int,
    d: int,
    q: int,
    drawn: Seq<Fixed>,
    noise: Seq<Fixed>,
    cx: int,
    cy: int,
)
    requires
        q > 0,
        0 <= cx,
        0 <= cy < q,
        drawn.len() == 5 * (cx * q + cy),
        noise.len() == 5,
    ensures
        cells_done(start, size, d, q, drawn + noise, (cx * q + cy + 1) as nat) == displaced(
            cells_done(start, size, d, q, drawn, (cx * q + cy) as nat),
            size,
            cell_centre(cx, d),
            cell_centre(cy, d),
            d / 2,
            noise,
        ),
{
    let k = cx * q + cy;
    assert(k >= 0) by (nonlinear_arith)
        requires
            k == cx * q + cy,
            cx >= 0,
            q > 0,
            cy >= 0,
    ;
    vstd::arithmetic::mul::lemma_mul_is_commutative(cx, q);
    vstd::arithmetic::div_mod::lemma_fundamental_div_mod_converse(k, q, cx, cy);
    lemma_cells_done_prefix(start, size, d, q, drawn + noise, drawn, k as nat);
    assert((drawn + noise).subrange(5 * k, 5 * k + 5) =~= noise);
}

/// The midpoint-displacement synthesizer and its random source.
pub struct Midpoint {
    pub rng: StdRng,
}

impl Midpoint {
    /// One pass, cell by cell, each cell with five displacements drawn from
    /// `[-delta, delta]`. Returns the displacements drawn.
    fn cell_pass(
        &mut self,
        data: &mut Vec<Fixed>,
        size: usize,
        d: usize,
        q: usize,
        delta: Fixed,
    ) -> (drawn: Ghost<Seq<Fixed>>)
        requires
            old(data)@.len() == size * size,
            d >= 2,
            d % 2 == 0,
            q >= 1,
            d * q == size - 1,
            0 <= delta@,
        ensures
            final(data)@.len() == size * size,
            drawn@.len() == 5 * (q * q),
            all_within(drawn@, delta@),
            final(data)@ == cells_done(
                old(data)@,
                size as int,
                d as int,
                q as int,
                drawn@,
                (q * q) as nat,
            ),
    {
        let half: usize = d / 2;
        let last: usize = size - 1;
        let ghost start = data@;
        let ghost mut drawn: Seq<Fixed> = Seq::empty();
        let mut cx: usize = 0;
        while cx < q
            invariant
                cx <= q,
                size == last + 1,
                data@.len() == size * size,
                d == 2 * half,
                half >= 1,
                q >= 1,
                d * q == last,
                0 <= delta@,
                drawn.len() == 5 * (cx * q),
                all_within(drawn, delta@),
                data@ == cells_done(start, size as int, d as int, q as int, drawn, (cx * q) as nat),
            decreases q - cx,
        {
            proof {
                lemma_pass_geometry(cx as int, q as int, d as int, half as int, last as int);
                vstd::arithmetic::mul::lemma_mul_is_distributive_add_other_way(
                    q as int,
                    cx as int,
                    1,
                );
            }
            let x: usize = half + cx * d;
            let mut cy: usize = 0;
            while cy < q
                invariant
                    cy <= q,
                    cx < q,
                    size == last + 1,
                    data@.len() == size * size,
                    d == 2 * half,
                    half >= 1,
                    q >= 1,
                    d * q == last,
                    x == cell_centre(cx as int, d as int),
                    half <= x,
                    x + half <= last,
                    0 <= delta@,
                    (cx + 1) * q == cx * q + q,
                    drawn.len() == 5 * (cx * q + cy),
                    all_within(drawn, delta@),
                    data@ == cells_done(
                        start,
                        size as int,
                        d as int,
                        q as int,
                        drawn,
                        (cx * q + cy) as nat,
                    ),
                decreases q - cy,
            {
                proof {
                    lemma_pass_geometry(cy as int, q as int, d as int, half as int, last as int);
                }
                let y: usize = half + cy * d;
                let n0 = displacement(&mut self.rng, delta);
                let n1 = displacement(&mut self.rng, delta);
                let n2 = displacement(&mut self.rng, delta);
                let n3 = displacement(&mut self.rng, delta);
                let n4 = displacement(&mut self.rng, delta);
                let noise = [n0, n1, n2, n3, n4];
                midpoint_step(data, x, y, size, half, noise);
                proof {
                    lemma_cell_extends(
                        start,
                        size as int,
                        d as int,
                        q as int,
                        drawn,
                        noise@,
                        cx as int,
                        cy as int,
                    );
                    drawn = drawn + noise@;
                }
                cy += 1;
            }
            cx += 1;
        }
        Ghost(drawn)
    }
}

impl Heightmap for Midpoint {
    open spec fn wf(&self) -> bool {
        true
    }

    fn generate(&mut self, width: usize, height: usize) -> (grid: Vec<Fixed>)
        ensures
            is_midpoint_map(grid@, width as int, height as int),
    {
        let size = working_size(width, height);
        let last: usize = size - 1;
        let (mut data, Ghost(corners)) = seeded_working_grid(&mut self.rng, size);
        let ghost start = data@;

        let mut d: usize = last;
        let mut q: usize = 1;
        let mut delta = Fixed::from_raw(HALF_RAW);
        let ghost passes: nat = choose|k: nat| last == pow2(k);
        let ghost mut k: nat = passes;
        let ghost mut p: nat = 0;
        let ghost mut draws: Seq<Seq<Fixed>> = Seq::empty();
        proof {
            vstd::arithmetic::power2::lemma2_to64();
        }

        while d > 1
            invariant
                size == last + 1,
                2 <= size <= 0x8000,
                size * size <= 0x4000_0000,
                data@.len() == size * size,
                d == pow2(k),
                q == pow2(p),
                p + k == passes,
                d * q == last,
                1 <= d,
                1 <= q <= last,
                delta@ == pass_delta(p),
                0 <= delta@,
                draws_fit(draws, p),
                data@ == passes_done(start, size as int, draws, p),
            decreases d,
        {
            let half: usize = d / 2;
            proof {
                if k == 0 {
                    vstd::arithmetic::power2::lemma2_to64();
                }
                vstd::arithmetic::power2::lemma_pow2_unfold(k);
                vstd::arithmetic::power2::lemma_pow2_pos((k - 1) as nat);
                vstd::arithmetic::power2::lemma_pow2_unfold(p + 1);
            }
            assert(d == 2 * half);

            let drawn = self.cell_pass(&mut data, size, d, q, delta);

            proof {
                let next = draws.push(drawn@);
                lemma_passes_done_prefix(start, size as int, next, draws, p);
                vstd::arithmetic::mul::lemma_mul_is_commutative(q as int, d as int);
                vstd::arithmetic::div_mod::lemma_fundamental_div_mod_converse(
                    last as int,
                    q as int,
                    d as int,
                    0,
                );
                assert(data@ == passes_done(start, size as int, next, p + 1));
                assert(draws_fit(next, p + 1)) by {
                    assert forall|i: int| 0 <= i < p + 1 implies {
                        &&& (#[trigger] next[i]).len() == 5 * (pow2(i as nat) * pow2(i as nat))
                        &&& all_within(next[i], pass_delta(i as nat))
                    } by {
                        if i < p {
                            assert(next[i] == draws[i]);
                        }
                    }
                }
                assert(half * (2 * q) == d * q && 2 * q <= half * (2 * q)) by (nonlinear_arith)
                    requires
                        d == 2 * half,
                        half >= 1,
                        q >= 1,
                ;
                vstd::arithmetic::div_mod::lemma_div_denominator(
                    HALF_RAW as int,
                    pow2(p) as int,
                    2,
                );
                vstd::arithmetic::mul::lemma_mul_is_commutative(pow2(p) as int, 2);
                draws = next;
                p = p + 1;
                k = (k - 1) as nat;
            }
            d = half;
            q = 2 * q;
            delta = Fixed::from_raw(delta.raw() / 2);
        }
        proof {
            if k > 0 {
                vstd::arithmetic::power2::lemma_pow2_strictly_increases(0, k);
            }
            assert(p == passes);
            assert(is_midpoint_displacement(data@, size as int)) by {
                assert(data@ == passes_done(
                    seeded_grid(size as int, corners),
                    size as int,
                    draws,
                    passes,
                ));
            }
        }
        let ghost working = data@;
        let grid = normalize(submap(size, size, width, height, data));
        assert(is_rescaling_of(grid@, cropped(working, size as int, width as int, height as int)));
        grid
    }
}

} // verus!
