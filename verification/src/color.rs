//! Colours and the colour ramp.
use crate::fixed::{fx_div, fx_from_int, fx_int_part, fx_sub, Fixed, ONE_RAW};
use crate::interpolation::blend;
use vstd::prelude::*;

verus! {

/// An RGBA colour, one byte per channel.
#[derive(Debug, Clone, Copy, PartialEq, Eq)]
pub struct Color(pub [u8; 4]);

impl View for Color {
    type V = Seq<u8>;

    open spec fn view(&self) -> Seq<u8> {
        self.0@
    }
}

/// The channel between the channels `a` and `b` at the weight `t`:
/// `a + (b - a) * t`, rounded down.
pub open spec fn lerp_channel(a: u8, b: u8, t: int) -> int {
    let v = fx_int_part(blend(fx_from_int(a as int), fx_from_int(b as int), t));
    if v > 255 {
        255
    } else {
        v
    }
}

/// The colour between `a` and `b` at the weight `t`: `a` up to weight zero,
/// `b` from weight one on, and channel by channel in between.
pub open spec fn color_lerp(a: Seq<u8>, b: Seq<u8>, t: int) -> Seq<u8> {
    if t <= 0 {
        a
    } else if t >= ONE_RAW {
        b
    } else {
        seq![
            lerp_channel(a[0], b[0], t) as u8,
            lerp_channel(a[1], b[1], t) as u8,
            lerp_channel(a[2], b[2], t) as u8,
            lerp_channel(a[3], b[3], t) as u8,
        ]
    }
}

/// A channel between two channels lies between them.
pub proof fn lemma_lerp_channel_between(a: u8, b: u8, t: int)
    requires
        0 <= t <= ONE_RAW,
    ensures
        a <= b ==> a <= lerp_channel(a, b, t) <= b,
        b <= a ==> b <= lerp_channel(a, b, t) <= a,
{
    let u = ONE_RAW as int;
    let fa = a as int * u;
    let fb = b as int * u;
    assert(fx_from_int(a as int) == fa && fx_from_int(b as int) == fb);
    crate::interpolation::lemma_blend_between(fa, fb, t);
    let v = blend(fa, fb, t);
    assert((a <= b ==> a <= v / u <= b) && (b <= a ==> b <= v / u <= a)) by (nonlinear_arith)
        requires
            fa == a * u,
            fb == b * u,
            (fa <= fb ==> fa <= v <= fb),
            (fb <= fa ==> fb <= v <= fa),
            u > 0,
    ;
}

impl Color {
    /// The red channel as a number.
    pub fn r(&self) -> (v: Fixed)
        ensures
            v@ == fx_from_int(self@[0] as int),
    {
        Fixed::from_int(self.0[0] as i64)
    }

    /// The green channel as a number.
    pub fn g(&self) -> (v: Fixed)
        ensures
            v@ == fx_from_int(self@[1] as int),
    {
        Fixed::from_int(self.0[1] as i64)
    }

    /// The blue channel as a number.
    pub fn b(&self) -> (v: Fixed)
        ensures
            v@ == fx_from_int(self@[2] as int),
    {
        Fixed::from_int(self.0[2] as i64)
    }

    /// The alpha channel as a number.
    pub fn a(&self) -> (v: Fixed)
        ensures
            v@ == fx_from_int(self@[3] as int),
    {
        Fixed::from_int(self.0[3] as i64)
    }
}

fn channel_between(a: Fixed, b: Fixed, t: Fixed) -> (r: u8)
    ensures
        r as int == {
            let v = fx_int_part(blend(a@, b@, t@));
            if v > 255 {
                255
            } else {
                v
            }
        },
{
    let v = a.plus(b.minus(a).times(t)).int_part();
    if v > 255 {
        255
    } else {
        v as u8
    }
}

/// Linear interpolation between two colours, all four channels alike.
pub fn lerp(a: Color, b: Color, t: Fixed) -> (r: Color)
    ensures
        r@ == color_lerp(a@, b@, t@),
{
    if t.le(Fixed::zero()) {
        a
    } else if t.ge(Fixed::one()) {
        b
    } else {
        let r = Color(
            [
                channel_between(a.r(), b.r(), t),
                channel_between(a.g(), b.g(), t),
                channel_between(a.b(), b.b(), t),
                channel_between(a.a(), b.a(), t),
            ],
        );
        assert(r@ =~= color_lerp(a@, b@, t@));
        r
    }
}

/// A breakpoint of a colour ramp.
#[derive(Debug, Clone, Copy)]
pub struct ColorRampStep {
    pub color: Color,
    pub position: Fixed,
}

/// `s` with `e` inserted behind the last step that does not lie above it.
pub open spec fn insert_step(s: Seq<ColorRampStep>, e: ColorRampStep) -> Seq<ColorRampStep>
    decreases s.len(),
{
    if s.len() == 0 || s.last().position@ <= e.position@ {
        s.push(e)
    } else {
        insert_step(s.drop_last(), e).push(s.last())
    }
}

/// The steps of `s` in ascending order of position; steps at one position
/// keep the order they had in `s`.
pub open spec fn sorted_steps(s: Seq<ColorRampStep>) -> Seq<ColorRampStep>
    decreases s.len(),
{
    if s.len() == 0 {
        s
    } else {
        insert_step(sorted_steps(s.drop_last()), s.last())
    }
}

/// The positions of `s` never decrease.
pub open spec fn is_ascending(s: Seq<ColorRampStep>) -> bool {
    forall|i: int, j: int| 0 <= i <= j < s.len() ==> s[i].position@ <= s[j].position@
}

/// `i` is the index of the first step of `s` at or above `position`, or the
/// length of `s` where every step lies below.
pub open spec fn is_first_match(s: Seq<ColorRampStep>, position: int, i: int) -> bool {
    &&& 0 <= i <= s.len()
    &&& forall|j: int| 0 <= j < i ==> (#[trigger] s[j]).position@ < position
    &&& (i < s.len() ==> s[i].position@ >= position)
}

/// Index of the first step of `s` at or above `position`.
pub open spec fn first_match(s: Seq<ColorRampStep>, position: int) -> int {
    choose|i: int| is_first_match(s, position, i)
}

/// Weight of `position` between the steps `a` and `b`.
pub open spec fn ramp_weight(a: ColorRampStep, b: ColorRampStep, position: int) -> int {
    fx_div(fx_sub(position, a.position@), fx_sub(b.position@, a.position@))
}

/// Colour of a non-empty ramp at `position`, the first step at or above it being `i`.
pub open spec fn color_at(s: Seq<ColorRampStep>, position: int, i: int) -> Seq<u8> {
    if i >= s.len() {
        s.last().color@
    } else if i == 0 {
        s[0].color@
    } else {
        color_lerp(s[i - 1].color@, s[i].color@, ramp_weight(s[i - 1], s[i], position))
    }
}

/// Colour of a non-empty ramp at `position`.
pub open spec fn ramp_color(s: Seq<ColorRampStep>, position: int) -> Seq<u8> {
    color_at(s, position, first_match(s, position))
}

/// The first match is unique.
pub proof fn lemma_first_match_unique(s: Seq<ColorRampStep>, position: int, i: int)
    requires
        is_first_match(s, position, i),
    ensures
        first_match(s, position) == i,
{
    let k = first_match(s, position);
    assert(is_first_match(s, position, k));
    if k < i {
        assert(s[k].position@ < position);
    }
    if i < k {
        assert(s[i].position@ < position);
    }
}

/// Inserting behind the last step that does not lie above `e` is inserting at
/// the index `p` whose steps from `p` on all lie above `e`.
pub proof fn lemma_insert_step_at(s: Seq<ColorRampStep>, e: ColorRampStep, p: int)
    requires
        0 <= p <= s.len(),
        forall|j: int| p <= j < s.len() ==> (#[trigger] s[j]).position@ > e.position@,
        p > 0 ==> s[p - 1].position@ <= e.position@,
    ensures
        insert_step(s, e) == s.insert(p, e),
    decreases s.len(),
{
    if p == s.len() {
        assert(s.push(e) =~= s.insert(p, e));
    } else {
        let front = s.drop_last();
        assert(s[s.len() - 1].position@ > e.position@);
        assert forall|j: int| p <= j < front.len() implies (#[trigger] front[j]).position@
            > e.position@ by {
            assert(front[j] == s[j]);
        }
        if p > 0 {
            assert(front[p - 1] == s[p - 1]);
        }
        lemma_insert_step_at(front, e, p);
        assert(front.insert(p, e).push(s.last()) =~= s.insert(p, e));
    }
}

/// An ascending ramp stays ascending when a step is inserted between the
/// steps that do not lie above it and the steps that do.
pub proof fn lemma_insert_keeps_ascending(s: Seq<ColorRampStep>, e: ColorRampStep, p: int)
    requires
        is_ascending(s),
        0 <= p <= s.len(),
        forall|j: int| p <= j < s.len() ==> (#[trigger] s[j]).position@ > e.position@,
        p > 0 ==> s[p - 1].position@ <= e.position@,
    ensures
        is_ascending(s.insert(p, e)),
{
    let t = s.insert(p, e);
    assert forall|i: int, j: int| 0 <= i <= j < t.len() implies t[i].position@
        <= t[j].position@ by {
        if i < p && j == p {
            assert(s[i].position@ <= s[p - 1].position@);
        } else if i < p && j > p {
            assert(t[j] == s[j - 1]);
        } else if i == p && j > p {
            assert(t[j] == s[j - 1]);
        } else if i > p {
            assert(t[i] == s[i - 1]);
            assert(t[j] == s[j - 1]);
        }
    }
}

/// Sorting yields an ascending ramp that holds the same steps.
pub proof fn lemma_sorted_steps(s: Seq<ColorRampStep>)
    ensures
        is_ascending(sorted_steps(s)),
        sorted_steps(s).len() == s.len(),
        sorted_steps(s).to_multiset() == s.to_multiset(),
    decreases s.len(),
{
    if s.len() > 0 {
        let front = sorted_steps(s.drop_last());
        let e = s.last();
        lemma_sorted_steps(s.drop_last());
        let p = insertion_index(front, e);
        lemma_insertion_index(front, e);
        lemma_insert_step_at(front, e, p);
        lemma_insert_keeps_ascending(front, e, p);
        vstd::seq_lib::to_multiset_insert(front, p, e);
        vstd::seq_lib::to_multiset_build(s.drop_last(), e);
        assert(s.drop_last().push(e) =~= s);
    } else {
        assert(sorted_steps(s) =~= s);
    }
}

/// Number of leading steps of `s` that do not lie above `e`, `s` being ascending.
pub open spec fn insertion_index(s: Seq<ColorRampStep>, e: ColorRampStep) -> int
    decreases s.len(),
{
    if s.len() == 0 || s.last().position@ <= e.position@ {
        s.len() as int
    } else {
        insertion_index(s.drop_last(), e)
    }
}

/// The insertion index splits an ascending ramp into the steps that do not
/// lie above `e` and the steps that do.
pub proof fn lemma_insertion_index(s: Seq<ColorRampStep>, e: ColorRampStep)
    requires
        is_ascending(s),
    ensures
        0 <= insertion_index(s, e) <= s.len(),
        forall|j: int|
            insertion_index(s, e) <= j < s.len() ==> (#[trigger] s[j]).position@ > e.position@,
        insertion_index(s, e) > 0 ==> s[insertion_index(s, e) - 1].position@ <= e.position@,
    decreases s.len(),
{
    if !(s.len() == 0 || s.last().position@ <= e.position@) {
        let front = s.drop_last();
        assert forall|i: int, j: int| 0 <= i <= j < front.len() implies front[i].position@
            <= front[j].position@ by {
            assert(front[i] == s[i]);
            assert(front[j] == s[j]);
        }
        lemma_insertion_index(front, e);
        let p = insertion_index(front, e);
        assert forall|j: int| p <= j < s.len() implies (#[trigger] s[j]).position@
            > e.position@ by {
            if j < front.len() {
                assert(front[j] == s[j]);
            }
        }
        if p > 0 {
            assert(front[p - 1] == s[p - 1]);
        }
    }
}

/// A colour ramp: breakpoints in ascending order of position.
#[derive(Debug, Clone)]
pub struct ColorRamp {
    steps: Vec<ColorRampStep>,
}

impl View for ColorRamp {
    type V = Seq<ColorRampStep>;

    closed spec fn view(&self) -> Seq<ColorRampStep> {
        self.steps@
    }
}

impl ColorRamp {
    /// The ramp of the given steps, sorted by position; steps at one position
    /// keep their order.
    pub fn from(steps: Vec<ColorRampStep>) -> (ramp: ColorRamp)
        ensures
            ramp@ == sorted_steps(steps@),
            is_ascending(ramp@),
            ramp@.len() == steps@.len(),
            ramp@.to_multiset() == steps@.to_multiset(),
    {
        let mut sorted: Vec<ColorRampStep> = Vec::new();
        let n: usize = steps.len();
        let mut i: usize = 0;
        assert(steps@.subrange(0, 0) =~= Seq::<ColorRampStep>::empty());
        while i < n
            invariant
                i <= n,
                n == steps@.len(),
                sorted@ == sorted_steps(steps@.subrange(0, i as int)),
                sorted@.len() == i,
                is_ascending(sorted@),
            decreases n - i,
        {
            let e = steps[i];
            let mut p: usize = sorted.len();
            while p > 0 && sorted[p - 1].position.gt(e.position)
                invariant
                    p <= sorted@.len(),
                    forall|j: int|
                        p <= j < sorted@.len() ==> (#[trigger] sorted@[j]).position@
                            > e.position@,
                decreases p,
            {
                p -= 1;
            }
            proof {
                let next = steps@.subrange(0, i as int + 1);
                assert(next.drop_last() =~= steps@.subrange(0, i as int));
                assert(next.last() == e);
                lemma_insert_step_at(sorted@, e, p as int);
                lemma_insert_keeps_ascending(sorted@, e, p as int);
            }
            sorted.insert(p, e);
            i += 1;
        }
        proof {
            assert(steps@.subrange(0, n as int) =~= steps@);
            lemma_sorted_steps(steps@);
        }
        ColorRamp { steps: sorted }
    }

    /// Number of steps.
    pub fn len(&self) -> (n: usize)
        ensures
            n == self@.len(),
    {
        self.steps.len()
    }

    /// Colour at `position`: the colour of the first step where `position`
    /// lies at or below the first step, the colour of the last step where it
    /// lies above every step, and otherwise the colour between the first step
    /// at or above `position` and the step before it.
    pub fn get(&self, position: Fixed) -> (c: Color)
        requires
            self@.len() > 0,
        ensures
            c@ == ramp_color(self@, position@),
    {
        let n: usize = self.steps.len();
        let mut i: usize = 0;
        while i < n && self.steps[i].position.lt(position)
            invariant
                i <= n,
                n == self.steps@.len(),
                forall|j: int| 0 <= j < i ==> (#[trigger] self.steps@[j]).position@ < position@,
            decreases n - i,
        {
            i += 1;
        }
        proof {
            lemma_first_match_unique(self@, position@, i as int);
        }
        if i == n {
            self.steps[n - 1].color
        } else if i == 0 {
            self.steps[0].color
        } else {
            let a = self.steps[i - 1];
            let b = self.steps[i];
            let t = position.minus(a.position).over(b.position.minus(a.position));
            lerp(a.color, b.color, t)
        }
    }
}

/// A ramp as the generator needs it: not empty, ascending, every position in `[0, 1]`.
pub open spec fn is_ramp(s: Seq<ColorRampStep>) -> bool {
    &&& s.len() > 0
    &&& is_ascending(s)
    &&& forall|i: int| 0 <= i < s.len() ==> 0 <= (#[trigger] s[i]).position@ <= ONE_RAW
}

/// At position zero a ramp has the colour of its first step.
pub proof fn lemma_ramp_starts_with_first(s: Seq<ColorRampStep>)
    requires
        is_ramp(s),
    ensures
        ramp_color(s, 0) == s[0].color@,
{
    assert(s[0].position@ >= 0);
    lemma_first_match_unique(s, 0, 0);
}

/// At position one a ramp that reaches one has the colour of its last step,
/// provided that every step at position one has that colour.
pub proof fn lemma_ramp_ends_with_last(s: Seq<ColorRampStep>)
    requires
        is_ramp(s),
        s.last().position@ == ONE_RAW,
        forall|i: int|
            0 <= i < s.len() && (#[trigger] s[i]).position@ == ONE_RAW ==> s[i].color@
                == s.last().color@,
    ensures
        ramp_color(s, ONE_RAW as int) == s.last().color@,
{
    let one = ONE_RAW as int;
    lemma_first_match_exists(s, one, 0);
    let i = first_match(s, one);
    if i >= s.len() {
        assert(s[s.len() - 1].position@ < one);
    }
    assert(s[i].position@ == one);
    if i > 0 {
        let below = s[i - 1].position@;
        assert(below < one);
        crate::fixed::lemma_div_unit_range(fx_sub(one, below), fx_sub(one, below));
    }
}

/// The matched step never moves back as the position grows.
pub proof fn lemma_first_match_monotonic(s: Seq<ColorRampStep>, low: int, high: int)
    requires
        low <= high,
    ensures
        first_match(s, low) <= first_match(s, high),
{
    lemma_first_match_exists(s, low, 0);
    lemma_first_match_exists(s, high, 0);
    let i = first_match(s, low);
    let k = first_match(s, high);
    if k < i {
        assert(s[k].position@ < low);
    }
}

/// Every position has a first match in every ramp.
pub proof fn lemma_first_match_exists(s: Seq<ColorRampStep>, position: int, from: int)
    requires
        0 <= from <= s.len(),
        forall|j: int| 0 <= j < from ==> (#[trigger] s[j]).position@ < position,
    ensures
        is_first_match(s, position, first_match(s, position)),
    decreases s.len() - from,
{
    if from < s.len() && s[from].position@ < position {
        lemma_first_match_exists(s, position, from + 1);
    } else {
        assert(is_first_match(s, position, from));
    }
}

} // verus!
