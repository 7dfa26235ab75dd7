//! Grid geometry, cropping and rescaling of height grids.
use crate::fixed::{fx_div, fx_sub, lemma_div_unit_range, Fixed, HALF_RAW, ONE_RAW};
use crate::rng::uniform;
use rand::rngs::StdRng;
use vstd::arithmetic::power2::pow2;
use vstd::prelude::*;

verus! {

/// Largest width and height of a grid. It keeps the cell count of a grid, of
/// the square working grid around it and of the pixel buffer within `usize`
/// on every platform.
pub const MAX_DIMENSION: usize = 0x4000;

/// `width` and `height` are dimensions that a heightmap can have.
pub open spec fn valid_dimensions(width: usize, height: usize) -> bool {
    1 <= width <= MAX_DIMENSION && 1 <= height <= MAX_DIMENSION
}

/// `side` is the edge length, in steps, of the working grid for a map whose
/// longer edge has `extent` cells: the smallest power of two that is at
/// least `extent - 1`.
pub open spec fn is_working_side(side: int, extent: int) -> bool {
    &&& exists|k: nat| side == pow2(k)
    &&& side >= extent - 1
    &&& (side == 1 || side / 2 < extent - 1)
}

/// Index of the cell `(x, y)` in a row-major square grid of `size` cells per row.
pub open spec fn cell(size: int, x: int, y: int) -> int {
    x + y * size
}

/// Cells of a square grid lie within its storage.
pub proof fn lemma_cell_in_grid(size: int, x: int, y: int)
    requires
        0 <= x < size,
        0 <= y < size,
    ensures
        0 <= cell(size, x, y) < size * size,
        y * size >= 0,
{
    assert(0 <= y * size && x + y * size < size * size) by (nonlinear_arith)
        requires
            0 <= x < size,
            0 <= y < size,
    ;
}

/// The top-left `target_width` x `target_height` part of a row-major grid
/// whose rows are `current_width` long.
pub open spec fn cropped(
    data: Seq<Fixed>,
    current_width: int,
    target_width: int,
    target_height: int,
) -> Seq<Fixed> {
    Seq::new(
        (target_width * target_height) as nat,
        |k: int| data[(k / target_width) * current_width + k % target_width],
    )
}

/// Smallest raw value of a non-empty sequence.
pub open spec fn lowest(s: Seq<Fixed>) -> int
    decreases s.len(),
{
    if s.len() <= 1 {
        s[0]@
    } else {
        let rest = lowest(s.drop_last());
        if s.last()@ < rest {
            s.last()@
        } else {
            rest
        }
    }
}

/// Largest raw value of a non-empty sequence.
pub open spec fn highest(s: Seq<Fixed>) -> int
    decreases s.len(),
{
    if s.len() <= 1 {
        s[0]@
    } else {
        let rest = highest(s.drop_last());
        if s.last()@ > rest {
            s.last()@
        } else {
            rest
        }
    }
}

/// The height `v` on the scale that maps `lo` to zero and `hi` to one; on a
/// scale without extent every height is one half.
pub open spec fn rescaled(v: int, lo: int, hi: int) -> int {
    if hi == lo {
        HALF_RAW as int
    } else {
        fx_div(fx_sub(v, lo), fx_sub(hi, lo))
    }
}

/// `out` is `raw` rescaled between its lowest and its highest height.
pub open spec fn is_rescaling_of(out: Seq<Fixed>, raw: Seq<Fixed>) -> bool {
    &&& out.len() == raw.len()
    &&& forall|i: int|
        0 <= i < out.len() ==> (#[trigger] out[i])@ == rescaled(raw[i]@, lowest(raw), highest(raw))
}

/// The square working grid of `size` cells per row before subdivision: zero
/// but for its four corners, which hold `corners` in the order `(0, 0)`,
/// `(size - 1, 0)`, `(0, size - 1)`, `(size - 1, size - 1)`.
pub open spec fn seeded_grid(size: int, corners: Seq<Fixed>) -> Seq<Fixed> {
    Seq::new((size * size) as nat, |k: int| Fixed { raw: 0 }).update(
        cell(size, 0, 0),
        corners[0],
    ).update(cell(size, size - 1, 0), corners[1]).update(cell(size, 0, size - 1), corners[2]).update(
        cell(size, size - 1, size - 1),
        corners[3],
    )
}

/// `corners` are four heights in `[0, 1]`.
pub open spec fn are_corners(corners: Seq<Fixed>) -> bool {
    &&& corners.len() == 4
    &&& forall|c: int| 0 <= c < 4 ==> 0 <= (#[trigger] corners[c])@ <= ONE_RAW
}

/// Largest displacement of the pass `i`: one half, halved `i` times.
pub open spec fn pass_delta(i: nat) -> int {
    (HALF_RAW as int) / (pow2(i) as int)
}

/// A grid as `normalize` leaves it: empty, or uniformly one half, or within
/// `[0, 1]` with both ends reached.
pub open spec fn is_normalized(s: Seq<Fixed>) -> bool {
    s.len() > 0 ==> {
        ||| forall|i: int| 0 <= i < s.len() ==> (#[trigger] s[i])@ == HALF_RAW
        ||| (lowest(s) == 0 && highest(s) == ONE_RAW)
    }
}

/// `lowest` is the minimum: it bounds every element and is one of them.
pub proof fn lemma_lowest_is_minimum(s: Seq<Fixed>)
    requires
        s.len() > 0,
    ensures
        forall|i: int| 0 <= i < s.len() ==> lowest(s) <= (#[trigger] s[i])@,
        exists|i: int| 0 <= i < s.len() && (#[trigger] s[i])@ == lowest(s),
    decreases s.len(),
{
    if s.len() > 1 {
        let front = s.drop_last();
        lemma_lowest_is_minimum(front);
        let w = choose|i: int| 0 <= i < front.len() && (#[trigger] front[i])@ == lowest(front);
        assert(front[w] == s[w]);
        assert forall|i: int| 0 <= i < s.len() implies lowest(s) <= (#[trigger] s[i])@ by {
            if i < front.len() {
                assert(front[i] == s[i]);
            }
        }
        if s.last()@ < lowest(front) {
            assert(s[s.len() - 1]@ == lowest(s));
        } else {
            assert(s[w]@ == lowest(s));
        }
    } else {
        assert(s[0]@ == lowest(s));
    }
}

/// `highest` is the maximum: it bounds every element and is one of them.
pub proof fn lemma_highest_is_maximum(s: Seq<Fixed>)
    requires
        s.len() > 0,
    ensures
        forall|i: int| 0 <= i < s.len() ==> highest(s) >= (#[trigger] s[i])@,
        exists|i: int| 0 <= i < s.len() && (#[trigger] s[i])@ == highest(s),
    decreases s.len(),
{
    if s.len() > 1 {
        let front = s.drop_last();
        lemma_highest_is_maximum(front);
        let w = choose|i: int| 0 <= i < front.len() && (#[trigger] front[i])@ == highest(front);
        assert(front[w] == s[w]);
        assert forall|i: int| 0 <= i < s.len() implies highest(s) >= (#[trigger] s[i])@ by {
            if i < front.len() {
                assert(front[i] == s[i]);
            }
        }
        if s.last()@ > highest(front) {
            assert(s[s.len() - 1]@ == highest(s));
        } else {
            assert(s[w]@ == highest(s));
        }
    } else {
        assert(s[0]@ == highest(s));
    }
}

/// A lower bound that is reached is the minimum.
pub proof fn lemma_lowest_unique(s: Seq<Fixed>, m: int, at: int)
    requires
        0 <= at < s.len(),
        s[at]@ == m,
        forall|i: int| 0 <= i < s.len() ==> m <= (#[trigger] s[i])@,
    ensures
        lowest(s) == m,
{
    lemma_lowest_is_minimum(s);
}

/// An upper bound that is reached is the maximum.
pub proof fn lemma_highest_unique(s: Seq<Fixed>, m: int, at: int)
    requires
        0 <= at < s.len(),
        s[at]@ == m,
        forall|i: int| 0 <= i < s.len() ==> m >= (#[trigger] s[i])@,
    ensures
        highest(s) == m,
{
    lemma_highest_is_maximum(s);
}

/// Rescaling between the bounds `lo < hi` of a value lands in `[0, 1]`, sends
/// `lo` to zero and `hi` to one.
pub proof fn lemma_rescaled_range(v: int, lo: int, hi: int)
    requires
        i64::MIN <= lo <= v <= hi <= i64::MAX,
        lo < hi,
    ensures
        0 <= rescaled(v, lo, hi) <= ONE_RAW,
        v == lo ==> rescaled(v, lo, hi) == 0,
        v == hi ==> rescaled(v, lo, hi) == ONE_RAW,
{
    lemma_div_unit_range(fx_sub(v, lo), fx_sub(hi, lo));
}

/// Whether `width` and `height` are dimensions that a heightmap can have.
pub fn dimensions_are_valid(width: usize, height: usize) -> (r: bool)
    ensures
        r == valid_dimensions(width, height),
{
    1 <= width && width <= MAX_DIMENSION && 1 <= height && height <= MAX_DIMENSION
}

/// Normalizing is idempotent: a normalized grid is its own rescaling.
pub proof fn lemma_normalized_is_fixed(s: Seq<Fixed>)
    requires
        is_normalized(s),
    ensures
        is_rescaling_of(s, s),
{
    if s.len() > 0 {
        lemma_lowest_is_minimum(s);
        lemma_highest_is_maximum(s);
        if lowest(s) == 0 && highest(s) == ONE_RAW {
            assert forall|i: int| 0 <= i < s.len() implies (#[trigger] s[i])@ == rescaled(
                s[i]@,
                lowest(s),
                highest(s),
            ) by {
                let v = s[i]@;
                assert((v * (ONE_RAW as int)) / (ONE_RAW as int) == v) by (nonlinear_arith);
            }
        } else {
            assert(s[0]@ == HALF_RAW);
            assert(forall|i: int| 0 <= i < s.len() ==> (#[trigger] s[i])@ == HALF_RAW);
            assert(lowest(s) == HALF_RAW && highest(s) == HALF_RAW);
        }
    }
}

/// Number of cells per row of the square working grid for a `width` x `height` map.
pub fn working_size(width: usize, height: usize) -> (size: usize)
    requires
        valid_dimensions(width, height),
    ensures
        is_working_side(size - 1, if width >= height { width as int } else { height as int }),
        2 <= size <= 2 * MAX_DIMENSION,
        width <= size,
        height <= size,
        size * size <= 0x4000_0000,
{
    let extent: usize = if width >= height { width } else { height };
    let target: usize = extent - 1;
    let mut side: usize = 1;
    let ghost mut k: nat = 0;
    proof {
        vstd::arithmetic::power2::lemma2_to64();
    }
    while side < target
        invariant
            target < MAX_DIMENSION,
            side == pow2(k),
            1 <= side,
            side == 1 || side / 2 < target,
        decreases 2 * target - side,
    {
        side = side * 2;
        proof {
            k = k + 1;
            vstd::arithmetic::power2::lemma_pow2_unfold(k);
        }
    }
    assert((side + 1) * (side + 1) <= 0x4000_0000) by (nonlinear_arith)
        requires
            1 <= side < 2 * MAX_DIMENSION,
            MAX_DIMENSION == 0x4000,
    ;
    side + 1
}

/// The working grid with its four corners drawn from `[0, 1]`. Returns the corners drawn.
pub(crate) fn seeded_working_grid(rng: &mut StdRng, size: usize) -> (r: (Vec<Fixed>, Ghost<Seq<Fixed>>))
    requires
        2 <= size,
        size * size <= 0x4000_0000,
    ensures
        are_corners(r.1@),
        r.0@ == seeded_grid(size as int, r.1@),
        r.0@.len() == size * size,
{
    let last: usize = size - 1;
    let mut data = blank_grid(size * size);
    assert(data@ =~= Seq::new((size * size) as nat, |k: int| Fixed { raw: 0 }));
    let c0 = uniform(rng, Fixed::zero(), Fixed::one());
    set_height_at(&mut data, size, 0, 0, c0);
    let c1 = uniform(rng, Fixed::zero(), Fixed::one());
    set_height_at(&mut data, size, last, 0, c1);
    let c2 = uniform(rng, Fixed::zero(), Fixed::one());
    set_height_at(&mut data, size, 0, last, c2);
    let c3 = uniform(rng, Fixed::zero(), Fixed::one());
    set_height_at(&mut data, size, last, last, c3);
    let ghost corners = Seq::empty().push(c0).push(c1).push(c2).push(c3);
    (data, Ghost(corners))
}

/// A grid of `cells` zero heights.
pub fn blank_grid(cells: usize) -> (data: Vec<Fixed>)
    ensures
        data@.len() == cells,
        forall|i: int| 0 <= i < cells ==> (#[trigger] data@[i])@ == 0,
{
    let mut data: Vec<Fixed> = Vec::new();
    let mut i: usize = 0;
    while i < cells
        invariant
            i <= cells,
            data@.len() == i,
            forall|j: int| 0 <= j < i ==> (#[trigger] data@[j])@ == 0,
        decreases cells - i,
    {
        data.push(Fixed::zero());
        i += 1;
    }
    data
}

/// Height of the cell `(x, y)` of a square grid.
pub fn height_at(data: &Vec<Fixed>, size: usize, x: usize, y: usize) -> (r: Fixed)
    requires
        data@.len() == size * size,
        x < size,
        y < size,
    ensures
        r == data@[cell(size as int, x as int, y as int)],
{
    let cells: usize = data.len();
    proof {
        lemma_cell_in_grid(size as int, x as int, y as int);
    }
    data[x + y * size]
}

/// Sets the height of the cell `(x, y)` of a square grid.
pub fn set_height_at(data: &mut Vec<Fixed>, size: usize, x: usize, y: usize, value: Fixed)
    requires
        old(data)@.len() == size * size,
        x < size,
        y < size,
    ensures
        final(data)@ == old(data)@.update(cell(size as int, x as int, y as int), value),
        final(data)@.len() == size * size,
{
    let cells: usize = data.len();
    proof {
        lemma_cell_in_grid(size as int, x as int, y as int);
    }
    data.set(x + y * size, value);
}

/// Crops a row-major grid of `current_width` x `current_height` cells to its
/// top-left `target_width` x `target_height` cells.
pub fn submap(
    current_width: usize,
    current_height: usize,
    target_width: usize,
    target_height: usize,
    data: Vec<Fixed>,
) -> (r: Vec<Fixed>)
    requires
        data@.len() == current_width * current_height,
        target_width <= current_width,
        target_height <= current_height,
    ensures
        r@ == cropped(data@, current_width as int, target_width as int, target_height as int),
        r@.len() == target_width * target_height,
{
    if current_width == target_width && current_height == target_height {
        proof {
            assert forall|k: int| 0 <= k < data@.len() implies #[trigger] data@[k] == data@[(k / (
            target_width as int)) * current_width + k % (target_width as int)] by {
                assert(target_width > 0) by {
                    if target_width == 0 {
                        assert(current_width * current_height == 0);
                    }
                }
                vstd::arithmetic::div_mod::lemma_fundamental_div_mod(k, target_width as int);
                vstd::arithmetic::mul::lemma_mul_is_commutative(
                    target_width as int,
                    k / (target_width as int),
                );
            }
            assert(data@ =~= cropped(
                data@,
                current_width as int,
                target_width as int,
                target_height as int,
            ));
        }
        return data;
    }
    proof {
        vstd::arithmetic::mul::lemma_mul_inequality(
            target_height as int,
            current_height as int,
            current_width as int,
        );
        vstd::arithmetic::mul::lemma_mul_inequality(
            target_width as int,
            current_width as int,
            target_height as int,
        );
        vstd::arithmetic::mul::lemma_mul_is_commutative(
            current_width as int,
            current_height as int,
        );
        vstd::arithmetic::mul::lemma_mul_is_commutative(
            current_width as int,
            target_height as int,
        );
    }
    let total: usize = data.len();
    let mut r: Vec<Fixed> = Vec::new();
    let mut y: usize = 0;
    while y < target_height
        invariant
            total == data@.len(),
            y <= target_height,
            target_width <= current_width,
            target_height <= current_height,
            data@.len() == current_width * current_height,
            target_height * current_width <= current_width * current_height,
            target_width * target_height <= current_width * target_height,
            r@.len() == y * target_width,
            forall|k: int|
                0 <= k < r@.len() ==> #[trigger] r@[k] == data@[(k / (target_width as int))
                    * current_width + k % (target_width as int)],
        decreases target_height - y,
    {
        let mut x: usize = 0;
        proof {
            vstd::arithmetic::mul::lemma_mul_inequality(
                y as int + 1,
                target_height as int,
                current_width as int,
            );
            vstd::arithmetic::mul::lemma_mul_is_distributive_add_other_way(
                current_width as int,
                y as int,
                1,
            );
            vstd::arithmetic::mul::lemma_mul_is_distributive_add_other_way(
                target_width as int,
                y as int,
                1,
            );
        }
        while x < target_width
            invariant
                total == data@.len(),
                x <= target_width,
                y < target_height,
                target_width <= current_width,
                data@.len() == current_width * current_height,
                target_height * current_width <= current_width * current_height,
                (y + 1) * current_width <= target_height * current_width,
                (y + 1) * current_width == y * current_width + current_width,
                (y + 1) * target_width == y * target_width + target_width,
                r@.len() == y * target_width + x,
                forall|k: int|
                    0 <= k < r@.len() ==> #[trigger] r@[k] == data@[(k / (target_width as int))
                        * current_width + k % (target_width as int)],
            decreases target_width - x,
        {
            proof {
                let k = y * target_width + x;
                vstd::arithmetic::mul::lemma_mul_is_commutative(y as int, target_width as int);
                vstd::arithmetic::div_mod::lemma_fundamental_div_mod_converse(
                    k,
                    target_width as int,
                    y as int,
                    x as int,
                );
            }
            let cell = data[y * current_width + x];
            r.push(cell);
            x += 1;
        }
        y += 1;
    }
    proof {
        vstd::arithmetic::mul::lemma_mul_is_commutative(target_width as int, target_height as int);
        assert(r@ =~= cropped(
            data@,
            current_width as int,
            target_width as int,
            target_height as int,
        ));
    }
    r
}

/// Rescales a grid so that its smallest height becomes zero and its largest
/// one; a grid of equal heights becomes uniformly one half.
pub fn normalize(heightmap: Vec<Fixed>) -> (r: Vec<Fixed>)
    ensures
        is_rescaling_of(r@, heightmap@),
        forall|i: int| 0 <= i < r@.len() ==> 0 <= (#[trigger] r@[i])@ <= ONE_RAW,
        is_normalized(r@),
        r@.len() > 0 && lowest(heightmap@) != highest(heightmap@) ==> lowest(r@) == 0 && highest(
            r@,
        ) == ONE_RAW,
{
    let mut heightmap = heightmap;
    let n: usize = heightmap.len();
    if n == 0 {
        return heightmap;
    }
    let ghost input = heightmap@;
    let mut min = heightmap[0];
    let mut max = heightmap[0];
    let mut i: usize = 1;
    assert(input.subrange(0, 1) =~= seq![input[0]]);
    while i < n
        invariant
            1 <= i <= n,
            n == heightmap@.len(),
            heightmap@ == input,
            min@ == lowest(input.subrange(0, i as int)),
            max@ == highest(input.subrange(0, i as int)),
        decreases n - i,
    {
        let val = heightmap[i];
        proof {
            let next = input.subrange(0, i as int + 1);
            assert(next.drop_last() =~= input.subrange(0, i as int));
            assert(next.last() == val);
        }
        min = min.min(val);
        max = max.max(val);
        i += 1;
    }
    proof {
        assert(input.subrange(0, n as int) =~= input);
        lemma_lowest_is_minimum(input);
        lemma_highest_is_maximum(input);
        assert(lowest(input) <= input[0]@ <= highest(input));
    }
    let span = max.minus(min);
    let mut k: usize = 0;
    while k < n
        invariant
            k <= n,
            n == heightmap@.len(),
            n == input.len(),
            min@ == lowest(input),
            max@ == highest(input),
            span@ == fx_sub(max@, min@),
            min@ <= max@,
            forall|j: int| 0 <= j < n ==> min@ <= (#[trigger] input[j])@ <= max@,
            forall|j: int| k <= j < n ==> #[trigger] heightmap@[j] == input[j],
            forall|j: int|
                0 <= j < k ==> (#[trigger] heightmap@[j])@ == rescaled(input[j]@, min@, max@),
            forall|j: int| 0 <= j < k ==> 0 <= (#[trigger] heightmap@[j])@ <= ONE_RAW,
        decreases n - k,
    {
        let val = heightmap[k];
        assert(val == input[k as int]);
        let scaled = if span.raw() == 0 {
            Fixed::half()
        } else {
            proof {
                lemma_rescaled_range(val@, min@, max@);
            }
            val.minus(min).over(span)
        };
        heightmap.set(k, scaled);
        k += 1;
    }
    proof {
        let out = heightmap@;
        if min@ != max@ {
            let lo_at = choose|j: int| 0 <= j < n && (#[trigger] input[j])@ == lowest(input);
            let hi_at = choose|j: int| 0 <= j < n && (#[trigger] input[j])@ == highest(input);
            lemma_rescaled_range(input[lo_at]@, min@, max@);
            lemma_rescaled_range(input[hi_at]@, min@, max@);
            assert(out[lo_at]@ == 0);
            assert(out[hi_at]@ == ONE_RAW);
            lemma_lowest_unique(out, 0, lo_at);
            lemma_highest_unique(out, ONE_RAW as int, hi_at);
        } else {
            assert forall|j: int| 0 <= j < out.len() implies (#[trigger] out[j])@ == HALF_RAW by {}
        }
    }
    heightmap
}

} // verus!
