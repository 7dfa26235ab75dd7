//! The generator: a configuration and the three stages it caches.
//!
//! A noise field, a normalized heightmap and its flattened form are each
//! built when a rendering first needs them and kept until a change of the
//! configuration makes them stale. Every setter discards exactly the stages
//! that depend on what it changes.
use crate::color::{Color, ColorRamp};
use crate::fixed::{Fixed, ONE_RAW};
use crate::heightmap::diamond::is_diamond_square_map;
use crate::heightmap::fractal::is_fractal_grid;
use crate::heightmap::midpoint::is_midpoint_map;
use crate::heightmap::utils::{dimensions_are_valid, is_normalized, valid_dimensions};
use crate::heightmap::{Heightmap, HeightmapKind};
use crate::interpolation::Interpolation;
use crate::noise::{Noise, NoiseKind, NoiseType};
use crate::render::{
    colored_pixels, flatten_grid, gray_pixels, is_flattening, noise_pixels, render_colored,
    render_gray, render_noise,
};
use crate::rng::seeded;
use crate::vec3::Vec3;
use vstd::prelude::*;

verus! {

/// What a rendering shows.
#[derive(Clone, Copy, Debug, PartialEq, Eq, Structural)]
pub enum GeneratorType {
    Noise,
    Heightmap,
    ColoredMap,
}

impl Default for GeneratorType {
    fn default() -> (r: GeneratorType)
        ensures
            r == GeneratorType::Noise,
    {
        GeneratorType::Noise
    }
}

/// A field of the configuration that a setter changes.
#[derive(Clone, Copy, Debug, PartialEq, Eq, Structural)]
pub enum Setting {
    Seed,
    Interpolation,
    Noise,
    Width,
    Height,
    Heightmap,
    Octave,
    Lacunarity,
    Persistence,
    Flatten,
    UseShading,
}

/// A selection of the three cached stages.
#[derive(Clone, Copy, Debug, PartialEq, Eq, Structural)]
pub struct Stages {
    pub noise: bool,
    pub heightmap: bool,
    pub flattened: bool,
}

/// The stages that a change of `setting` makes stale, the noise kind being
/// `noise` and the heightmap kind `heightmap` when the change is made.
///
/// | setting | stale stages |
/// |---|---|
/// | seed | noise, heightmap, flattened |
/// | interpolation | noise, heightmap, flattened, unless the noise kind is simplex |
/// | noise kind | noise, heightmap, flattened |
/// | width, height, heightmap kind | heightmap, flattened |
/// | octave, lacunarity, persistence | heightmap, flattened, if the heightmap kind is fractal |
/// | flatten | flattened |
/// | use shading | none |
pub open spec fn stale_after(setting: Setting, noise: NoiseKind, heightmap: HeightmapKind) -> Stages {
    match setting {
        Setting::Seed | Setting::Noise => Stages { noise: true, heightmap: true, flattened: true },
        Setting::Interpolation => {
            let stale = noise != NoiseKind::Simplex;
            Stages { noise: stale, heightmap: stale, flattened: stale }
        },
        Setting::Width | Setting::Height | Setting::Heightmap => Stages {
            noise: false,
            heightmap: true,
            flattened: true,
        },
        Setting::Octave | Setting::Lacunarity | Setting::Persistence => {
            let stale = heightmap == HeightmapKind::Fractal;
            Stages { noise: false, heightmap: stale, flattened: stale }
        },
        Setting::Flatten => Stages { noise: false, heightmap: false, flattened: true },
        Setting::UseShading => Stages { noise: false, heightmap: false, flattened: false },
    }
}

/// The stages that a change of `setting` makes stale.
pub fn invalidated_by(setting: Setting, noise: NoiseKind, heightmap: HeightmapKind) -> (stages:
    Stages)
    ensures
        stages == stale_after(setting, noise, heightmap),
{
    match setting {
        Setting::Seed | Setting::Noise => Stages { noise: true, heightmap: true, flattened: true },
        Setting::Interpolation => {
            let stale = noise != NoiseKind::Simplex;
            Stages { noise: stale, heightmap: stale, flattened: stale }
        },
        Setting::Width | Setting::Height | Setting::Heightmap => Stages {
            noise: false,
            heightmap: true,
            flattened: true,
        },
        Setting::Octave | Setting::Lacunarity | Setting::Persistence => {
            let stale = heightmap == HeightmapKind::Fractal;
            Stages { noise: false, heightmap: stale, flattened: stale }
        },
        Setting::Flatten => Stages { noise: false, heightmap: false, flattened: true },
        Setting::UseShading => Stages { noise: false, heightmap: false, flattened: false },
    }
}

/// Everything that determines a rendering.
pub struct GeneratorConfig {
    pub seed: u64,
    pub interpolation: Interpolation,
    pub noise: NoiseKind,
    pub width: usize,
    pub height: usize,
    pub heightmap: HeightmapKind,
    pub octave: u64,
    pub lacunarity: Fixed,
    pub persistence: Fixed,
    pub color_ramp: ColorRamp,
    pub flatten: bool,
    pub use_shading: bool,
    pub light_color: Color,
    pub dark_color: Color,
    pub light_position: Vec3,
}

impl GeneratorConfig {
    /// The dimensions are at least one and within the largest dimension, and
    /// the colour ramp has a step.
    pub open spec fn valid(&self) -> bool {
        &&& valid_dimensions(self.width, self.height)
        &&& self.color_ramp@.len() > 0
    }

    /// Whether a generator can take this configuration.
    pub fn is_valid(&self) -> (r: bool)
        ensures
            r == self.valid(),
    {
        dimensions_are_valid(self.width, self.height) && self.color_ramp.len() > 0
    }
}

/// A configuration and the stages built from it so far.
pub struct Generator {
    config: GeneratorConfig,
    current_noise: Option<NoiseType>,
    current_heightmap: Option<Vec<Fixed>>,
    current_flattened_map: Option<Vec<Fixed>>,
}

/// `h` is a heightmap for `config`: a normalized grid of the configured
/// dimensions, synthesized in the configured way, the fractal kind from the
/// noise cache `noise`.
pub open spec fn is_heightmap_for(
    h: Seq<Fixed>,
    config: GeneratorConfig,
    noise: Option<NoiseType>,
) -> bool {
    &&& h.len() == config.width * config.height
    &&& is_normalized(h)
    &&& forall|i: int| 0 <= i < h.len() ==> 0 <= (#[trigger] h[i])@ <= ONE_RAW
    &&& config.heightmap == HeightmapKind::Midpoint ==> is_midpoint_map(
        h,
        config.width as int,
        config.height as int,
    )
    &&& config.heightmap == HeightmapKind::Diamond ==> is_diamond_square_map(
        h,
        config.width as int,
        config.height as int,
    )
    &&& config.heightmap == HeightmapKind::Fractal ==> (noise matches Some(field)
        && is_fractal_grid(
        h,
        field,
        config.width as int,
        config.height as int,
        config.octave as nat,
        config.lacunarity@,
        config.persistence@,
    ))
}

impl Generator {
    /// The configuration.
    pub closed spec fn config(&self) -> GeneratorConfig {
        self.config
    }

    /// The cached noise field, if any.
    pub closed spec fn noise_cache(&self) -> Option<NoiseType> {
        self.current_noise
    }

    /// The cached heightmap, if any.
    pub closed spec fn heightmap_cache(&self) -> Option<Seq<Fixed>> {
        match self.current_heightmap {
            Some(h) => Some(h@),
            None => None,
        }
    }

    /// The cached flattened heightmap, if any.
    pub closed spec fn flattened_cache(&self) -> Option<Seq<Fixed>> {
        match self.current_flattened_map {
            Some(f) => Some(f@),
            None => None,
        }
    }

    /// The configuration is valid and every cached stage is the stage of the
    /// current configuration.
    pub open spec fn wf(&self) -> bool {
        &&& self.config().valid()
        &&& self.noise_cache() matches Some(field) ==> field.wf() && field.built_for(
            self.config().noise,
            self.config().interpolation,
        )
        &&& self.heightmap_cache() matches Some(h) ==> is_heightmap_for(
            h,
            self.config(),
            self.noise_cache(),
        )
        &&& self.flattened_cache() matches Some(f) ==> (self.heightmap_cache() matches Some(h)
            && is_flattening(f, h, self.config().flatten))
    }

    /// Every stage that a rendering of `generator_type` reads is cached.
    pub open spec fn is_ready(&self, generator_type: GeneratorType) -> bool {
        match generator_type {
            GeneratorType::Noise => self.noise_cache() is Some,
            _ => self.heightmap_cache() is Some && self.flattened_cache() is Some,
        }
    }

    /// The pixels that a rendering of `generator_type` shows, every stage
    /// that it reads being cached.
    pub open spec fn rendered(&self, generator_type: GeneratorType) -> Seq<u8> {
        match generator_type {
            GeneratorType::Noise => noise_pixels(
                self.noise_cache().unwrap(),
                self.config().width as int,
                self.config().height as int,
            ),
            GeneratorType::Heightmap => gray_pixels(self.flattened_cache().unwrap()),
            GeneratorType::ColoredMap => colored_pixels(
                self.flattened_cache().unwrap(),
                self.config().color_ramp,
                self.config().use_shading,
                self.config().width as int,
                self.config().light_position,
                self.config().light_color,
                self.config().dark_color,
            ),
        }
    }

    /// The cached stages are those of `before` without the `stale` ones.
    pub open spec fn has_discarded(&self, before: Generator, stale: Stages) -> bool {
        &&& self.noise_cache() == if stale.noise {
            None
        } else {
            before.noise_cache()
        }
        &&& self.heightmap_cache() == if stale.heightmap {
            None
        } else {
            before.heightmap_cache()
        }
        &&& self.flattened_cache() == if stale.flattened {
            None
        } else {
            before.flattened_cache()
        }
    }

    /// Discards the `stale` stages.
    fn discard(&mut self, stale: Stages)
        ensures
            final(self).config() == old(self).config(),
            final(self).has_discarded(*old(self), stale),
    {
        if stale.noise {
            self.current_noise = None;
        }
        if stale.heightmap {
            self.current_heightmap = None;
        }
        if stale.flattened {
            self.current_flattened_map = None;
        }
    }

    /// A generator for `config` with no stage built.
    pub fn new(config: GeneratorConfig) -> (generator: Generator)
        requires
            config.valid(),
        ensures
            generator.wf(),
            generator.config() == config,
            generator.noise_cache() is None,
            generator.heightmap_cache() is None,
            generator.flattened_cache() is None,
    {
        Generator {
            config,
            current_noise: None,
            current_heightmap: None,
            current_flattened_map: None,
        }
    }

    /// The configuration.
    pub fn configuration(&self) -> (config: &GeneratorConfig)
        ensures
            *config == self.config(),
    {
        &self.config
    }

    /// The cached noise field, if any.
    pub fn cached_noise(&self) -> (field: Option<&NoiseType>)
        ensures
            field is Some == self.noise_cache() is Some,
            field matches Some(f) ==> Some(*f) == self.noise_cache(),
    {
        self.current_noise.as_ref()
    }

    /// The cached heightmap, if any.
    pub fn cached_heightmap(&self) -> (grid: Option<&Vec<Fixed>>)
        ensures
            grid is Some == self.heightmap_cache() is Some,
            grid matches Some(h) ==> Some(h@) == self.heightmap_cache(),
    {
        self.current_heightmap.as_ref()
    }

    /// The cached flattened heightmap, if any.
    pub fn cached_flattened_map(&self) -> (grid: Option<&Vec<Fixed>>)
        ensures
            grid is Some == self.flattened_cache() is Some,
            grid matches Some(f) ==> Some(f@) == self.flattened_cache(),
    {
        self.current_flattened_map.as_ref()
    }

    /// Sets the seed.
    pub fn set_seed(&mut self, seed: u64)
        requires
            old(self).wf(),
        ensures
            final(self).wf(),
            final(self).config() == (GeneratorConfig { seed, ..old(self).config() }),
            final(self).has_discarded(
                *old(self),
                stale_after(Setting::Seed, old(self).config().noise, old(self).config().heightmap),
            ),
    {
        let stale = invalidated_by(Setting::Seed, self.config.noise, self.config.heightmap);
        self.config.seed = seed;
        self.discard(stale);
    }

    /// Sets the interpolation kernel.
    pub fn set_interpolation(&mut self, interpolation: Interpolation)
        requires
            old(self).wf(),
        ensures
            final(self).wf(),
            final(self).config() == (GeneratorConfig { interpolation, ..old(self).config() }),
            final(self).has_discarded(
                *old(self),
                stale_after(
                    Setting::Interpolation,
                    old(self).config().noise,
                    old(self).config().heightmap,
                ),
            ),
    {
        let stale = invalidated_by(Setting::Interpolation, self.config.noise, self.config.heightmap);
        self.config.interpolation = interpolation;
        self.discard(stale);
    }

    /// Sets the noise kind.
    pub fn set_noise(&mut self, noise: NoiseKind)
        requires
            old(self).wf(),
        ensures
            final(self).wf(),
            final(self).config() == (GeneratorConfig { noise, ..old(self).config() }),
            final(self).has_discarded(
                *old(self),
                stale_after(Setting::Noise, old(self).config().noise, old(self).config().heightmap),
            ),
    {
        let stale = invalidated_by(Setting::Noise, self.config.noise, self.config.heightmap);
        self.config.noise = noise;
        self.discard(stale);
    }

    /// Sets the width.
    pub fn set_width(&mut self, width: usize)
        requires
            old(self).wf(),
            valid_dimensions(width, old(self).config().height),
        ensures
            final(self).wf(),
            final(self).config() == (GeneratorConfig { width, ..old(self).config() }),
            final(self).has_discarded(
                *old(self),
                stale_after(Setting::Width, old(self).config().noise, old(self).config().heightmap),
            ),
    {
        let stale = invalidated_by(Setting::Width, self.config.noise, self.config.heightmap);
        self.config.width = width;
        self.discard(stale);
    }

    /// Sets the height.
    pub fn set_height(&mut self, height: usize)
        requires
            old(self).wf(),
            valid_dimensions(old(self).config().width, height),
        ensures
            final(self).wf(),
            final(self).config() == (GeneratorConfig { height, ..old(self).config() }),
            final(self).has_discarded(
                *old(self),
                stale_after(Setting::Height, old(self).config().noise, old(self).config().heightmap),
            ),
    {
        let stale = invalidated_by(Setting::Height, self.config.noise, self.config.heightmap);
        self.config.height = height;
        self.discard(stale);
    }

    /// Sets the heightmap kind.
    pub fn set_heightmap(&mut self, heightmap: HeightmapKind)
        requires
            old(self).wf(),
        ensures
            final(self).wf(),
            final(self).config() == (GeneratorConfig { heightmap, ..old(self).config() }),
            final(self).has_discarded(
                *old(self),
                stale_after(
                    Setting::Heightmap,
                    old(self).config().noise,
                    old(self).config().heightmap,
                ),
            ),
    {
        let stale = invalidated_by(Setting::Heightmap, self.config.noise, self.config.heightmap);
        self.config.heightmap = heightmap;
        self.discard(stale);
    }

    /// Sets the number of octaves.
    pub fn set_octave(&mut self, octave: u64)
        requires
            old(self).wf(),
        ensures
            final(self).wf(),
            final(self).config() == (GeneratorConfig { octave, ..old(self).config() }),
            final(self).has_discarded(
                *old(self),
                stale_after(Setting::Octave, old(self).config().noise, old(self).config().heightmap),
            ),
    {
        let stale = invalidated_by(Setting::Octave, self.config.noise, self.config.heightmap);
        self.config.octave = octave;
        self.discard(stale);
    }

    /// Sets the lacunarity.
    pub fn set_lacunarity(&mut self, lacunarity: Fixed)
        requires
            old(self).wf(),
        ensures
            final(self).wf(),
            final(self).config() == (GeneratorConfig { lacunarity, ..old(self).config() }),
            final(self).has_discarded(
                *old(self),
                stale_after(
                    Setting::Lacunarity,
                    old(self).config().noise,
                    old(self).config().heightmap,
                ),
            ),
    {
        let stale = invalidated_by(Setting::Lacunarity, self.config.noise, self.config.heightmap);
        self.config.lacunarity = lacunarity;
        self.discard(stale);
    }

    /// Sets the persistence.
    pub fn set_persistence(&mut self, persistence: Fixed)
        requires
            old(self).wf(),
        ensures
            final(self).wf(),
            final(self).config() == (GeneratorConfig { persistence, ..old(self).config() }),
            final(self).has_discarded(
                *old(self),
                stale_after(
                    Setting::Persistence,
                    old(self).config().noise,
                    old(self).config().heightmap,
                ),
            ),
    {
        let stale = invalidated_by(Setting::Persistence, self.config.noise, self.config.heightmap);
        self.config.persistence = persistence;
        self.discard(stale);
    }

    /// Sets the flatten flag.
    pub fn set_flatten(&mut self, flatten: bool)
        requires
            old(self).wf(),
        ensures
            final(self).wf(),
            final(self).config() == (GeneratorConfig { flatten, ..old(self).config() }),
            final(self).has_discarded(
                *old(self),
                stale_after(Setting::Flatten, old(self).config().noise, old(self).config().heightmap),
            ),
    {
        let stale = invalidated_by(Setting::Flatten, self.config.noise, self.config.heightmap);
        self.config.flatten = flatten;
        self.discard(stale);
    }

    /// Sets the shading flag. No stage depends on it: shading is applied
    /// when a coloured map is rendered.
    pub fn set_use_shading(&mut self, use_shading: bool)
        requires
            old(self).wf(),
        ensures
            final(self).wf(),
            final(self).config() == (GeneratorConfig { use_shading, ..old(self).config() }),
            final(self).has_discarded(
                *old(self),
                stale_after(
                    Setting::UseShading,
                    old(self).config().noise,
                    old(self).config().heightmap,
                ),
            ),
            final(self).noise_cache() == old(self).noise_cache(),
            final(self).heightmap_cache() == old(self).heightmap_cache(),
            final(self).flattened_cache() == old(self).flattened_cache(),
    {
        let stale = invalidated_by(Setting::UseShading, self.config.noise, self.config.heightmap);
        self.config.use_shading = use_shading;
        self.discard(stale);
    }

    /// Renders `generator_type` as RGBA bytes, row by row from the top left.
    ///
    /// Stages that the rendering reads and that are not cached are built
    /// first, from a random source freshly seeded with the configured seed,
    /// and cached; stages that are cached are read as they are, and stages
    /// that the rendering does not read are left as they are.
    pub fn generate(&mut self, generator_type: GeneratorType) -> (pixels: Vec<u8>)
        requires
            old(self).wf(),
        ensures
            final(self).wf(),
            final(self).config() == old(self).config(),
            final(self).is_ready(generator_type),
            pixels@ == final(self).rendered(generator_type),
            pixels@.len() == old(self).config().width * old(self).config().height * 4,
            old(self).is_ready(generator_type) ==> {
                &&& pixels@ == old(self).rendered(generator_type)
                &&& final(self).noise_cache() == old(self).noise_cache()
                &&& final(self).heightmap_cache() == old(self).heightmap_cache()
                &&& final(self).flattened_cache() == old(self).flattened_cache()
            },
            old(self).noise_cache() is Some ==> final(self).noise_cache() == old(self).noise_cache(),
            old(self).heightmap_cache() is Some ==> final(self).heightmap_cache() == old(self).heightmap_cache(),
            old(self).flattened_cache() is Some ==> final(self).flattened_cache() == old(self).flattened_cache(),
            generator_type == GeneratorType::Noise ==> {
                &&& final(self).heightmap_cache() == old(self).heightmap_cache()
                &&& final(self).flattened_cache() == old(self).flattened_cache()
            },
            generator_type != GeneratorType::Noise && (old(self).heightmap_cache() is Some
                || old(self).config().heightmap != HeightmapKind::Fractal) ==> final(self).noise_cache() == old(self).noise_cache(),
    {
        let mut rng = seeded(self.config.seed);
        let width = self.config.width;
        let height = self.config.height;
        assert(width * height <= 0x1000_0000) by (nonlinear_arith)
            requires
                width <= 0x4000,
                height <= 0x4000,
        ;

        if generator_type == GeneratorType::Noise {
            if self.current_noise.is_none() {
                let field = self.config.noise.into(&mut rng, self.config.interpolation);
                self.current_noise = Some(field);
            }
            render_noise(self.current_noise.as_ref().unwrap(), width, height)
        } else {
            if self.current_heightmap.is_none() {
                if self.config.heightmap == HeightmapKind::Fractal && self.current_noise.is_none() {
                    let field = self.config.noise.into(&mut rng, self.config.interpolation);
                    self.current_noise = Some(field);
                }
                let mut synthesizer = self.config.heightmap.into(
                    self.current_noise.as_ref(),
                    self.config.octave,
                    self.config.lacunarity,
                    self.config.persistence,
                    rng,
                );
                let grid = synthesizer.generate(width, height);
                self.current_heightmap = Some(grid);
            }
            if self.current_flattened_map.is_none() {
                let flattened = flatten_grid(
                    self.current_heightmap.as_ref().unwrap(),
                    self.config.flatten,
                );
                self.current_flattened_map = Some(flattened);
            }
            let flattened_map = self.current_flattened_map.as_ref().unwrap();
            proof {
                vstd::arithmetic::div_mod::lemma_mod_multiples_basic(height as int, width as int);
                vstd::arithmetic::mul::lemma_mul_is_commutative(height as int, width as int);
            }

            if generator_type == GeneratorType::Heightmap {
                render_gray(flattened_map)
            } else {
                render_colored(
                    flattened_map,
                    &self.config.color_ramp,
                    self.config.use_shading,
                    width,
                    &self.config.light_position,
                    self.config.light_color,
                    self.config.dark_color,
                )
            }
        }
    }
}

/// The shading flag shows in coloured maps alone: two generators that differ
/// in nothing else render the same noise and the same grey heightmap.
pub proof fn lemma_shading_shows_in_color_only(a: Generator, b: Generator)
    requires
        b.config() == (GeneratorConfig { use_shading: b.config().use_shading, ..a.config() }),
        a.noise_cache() == b.noise_cache(),
        a.heightmap_cache() == b.heightmap_cache(),
        a.flattened_cache() == b.flattened_cache(),
    ensures
        a.rendered(GeneratorType::Noise) == b.rendered(GeneratorType::Noise),
        a.rendered(GeneratorType::Heightmap) == b.rendered(GeneratorType::Heightmap),
{
}

/// A rendering is a function of the configuration and the cached stages:
/// generators that agree on them render every type alike.
pub proof fn lemma_rendering_is_determined(a: Generator, b: Generator, generator_type: GeneratorType)
    requires
        a.config() == b.config(),
        a.noise_cache() == b.noise_cache(),
        a.heightmap_cache() == b.heightmap_cache(),
        a.flattened_cache() == b.flattened_cache(),
    ensures
        a.rendered(generator_type) == b.rendered(generator_type),
{
}

} // verus!
