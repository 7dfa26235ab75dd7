//! Heightmap synthesizers: grids of heights normalized to `[0, 1]`.
pub mod diamond;
pub mod fractal;
pub mod midpoint;
pub mod utils;

use crate::fixed::{Fixed, ONE_RAW};
use crate::noise::{Noise, NoiseType};
use diamond::{is_diamond_square_map, Diamond};
use fractal::{is_fractal_grid, Fractal};
use midpoint::{is_midpoint_map, Midpoint};
use rand::rngs::StdRng;
use utils::{is_normalized, valid_dimensions};
use vstd::prelude::*;

verus! {

/// A synthesizer of height grids.
pub trait Heightmap {
    /// The synthesizer has all it needs to generate.
    spec fn wf(&self) -> bool;

    /// A row-major `width` x `height` grid of heights, normalized to `[0, 1]`.
    fn generate(&mut self, width: usize, height: usize) -> (grid: Vec<Fixed>)
        requires
            old(self).wf(),
            valid_dimensions(width, height),
        ensures
            grid@.len() == width * height,
            is_normalized(grid@),
            forall|i: int| 0 <= i < grid@.len() ==> 0 <= (#[trigger] grid@[i])@ <= ONE_RAW,
    ;
}

/// A constructed synthesizer of one of the three kinds.
pub enum HeightmapType<'a> {
    Midpoint(Midpoint),
    Diamond(Diamond),
    Fractal(Fractal<'a>),
}

/// Choice of heightmap kind.
#[derive(Clone, Copy, Debug, PartialEq, Eq, Structural)]
pub enum HeightmapKind {
    Midpoint,
    Diamond,
    Fractal,
}

impl Default for HeightmapKind {
    fn default() -> (r: HeightmapKind)
        ensures
            r == HeightmapKind::Midpoint,
    {
        HeightmapKind::Midpoint
    }
}

impl<'a> HeightmapType<'a> {
    /// The kind of this synthesizer.
    pub open spec fn kind(&self) -> HeightmapKind {
        match self {
            HeightmapType::Midpoint(_) => HeightmapKind::Midpoint,
            HeightmapType::Diamond(_) => HeightmapKind::Diamond,
            HeightmapType::Fractal(_) => HeightmapKind::Fractal,
        }
    }
}

impl<'a> Heightmap for HeightmapType<'a> {
    open spec fn wf(&self) -> bool {
        match self {
            HeightmapType::Midpoint(m) => m.wf(),
            HeightmapType::Diamond(d) => d.wf(),
            HeightmapType::Fractal(f) => f.wf(),
        }
    }

    fn generate(&mut self, width: usize, height: usize) -> (grid: Vec<Fixed>)
        ensures
            old(self).kind() == HeightmapKind::Midpoint ==> is_midpoint_map(
                grid@,
                width as int,
                height as int,
            ),
            old(self).kind() == HeightmapKind::Diamond ==> is_diamond_square_map(
                grid@,
                width as int,
                height as int,
            ),
            *old(self) matches HeightmapType::Fractal(f) ==> is_fractal_grid(
                grid@,
                *f.noise,
                width as int,
                height as int,
                f.octave as nat,
                f.lacunarity@,
                f.persistance@,
            ),
    {
        match self {
            HeightmapType::Midpoint(m) => m.generate(width, height),
            HeightmapType::Diamond(d) => d.generate(width, height),
            HeightmapType::Fractal(f) => f.generate(width, height),
        }
    }
}

impl HeightmapKind {
    /// Builds the synthesizer of this kind. The fractal kind reads `noise`
    /// and the octave parameters; the two displacement kinds draw from `rng`.
    pub fn into<'a>(
        self,
        noise: Option<&'a NoiseType>,
        octave: u64,
        lacunarity: Fixed,
        persistance: Fixed,
        rng: StdRng,
    ) -> (synthesizer: HeightmapType<'a>)
        requires
            self == HeightmapKind::Fractal ==> (noise matches Some(field) && field.wf()),
        ensures
            synthesizer.kind() == self,
            synthesizer.wf(),
            synthesizer matches HeightmapType::Midpoint(m) ==> m.rng == rng,
            synthesizer matches HeightmapType::Diamond(d) ==> d.rng == rng,
            synthesizer matches HeightmapType::Fractal(f) ==> {
                &&& Some(f.noise) == noise
                &&& f.octave == octave
                &&& f.lacunarity == lacunarity
                &&& f.persistance == persistance
            },
    {
        match self {
            HeightmapKind::Midpoint => HeightmapType::Midpoint(Midpoint { rng }),
            HeightmapKind::Diamond => HeightmapType::Diamond(Diamond { rng }),
            HeightmapKind::Fractal => HeightmapType::Fractal(
                Fractal { noise: noise.unwrap(), octave, lacunarity, persistance },
            ),
        }
    }
}

} // verus!
