use map_generator::heightmap::utils::{dimensions_are_valid, normalize, MAX_DIMENSION};
use map_generator::noise::Noise;
use map_generator::render::{
    color_bytes, flatten, flatten_grid, gray_bytes, render_colored, render_gray, render_noise,
};
use map_generator::generator::invalidated_by;
use map_generator::{
    shade, Color, ColorRamp, ColorRampStep, Fixed, Generator, GeneratorConfig, GeneratorType,
    HeightmapKind, Interpolation, NoiseKind, Setting, Stages, Vec3,
};
use rand::rngs::StdRng;
use rand::SeedableRng;

fn fx(num: i64, den: i64) -> Fixed {
    Fixed::from_ratio(num, den)
}

fn step(color: [u8; 4], num: i64, den: i64) -> ColorRampStep {
    ColorRampStep { color: Color(color), position: fx(num, den) }
}

fn terrain_ramp() -> ColorRamp {
    ColorRamp::from(vec![
        step([2, 43, 68, 255], 0, 1),
        step([9, 62, 92, 255], 1, 4),
        step([17, 82, 112, 255], 49, 100),
        step([69, 108, 118, 255], 1, 2),
        step([42, 102, 41, 255], 51, 100),
        step([115, 128, 77, 255], 3, 4),
        step([153, 143, 92, 255], 85, 100),
        step([179, 179, 179, 255], 95, 100),
        step([255, 255, 255, 255], 1, 1),
    ])
}

fn config(width: usize, height: usize) -> GeneratorConfig {
    GeneratorConfig {
        seed: 5,
        interpolation: Interpolation::Cubic,
        noise: NoiseKind::Gradient,
        width,
        height,
        heightmap: HeightmapKind::Fractal,
        octave: 8,
        lacunarity: Fixed::from_int(2),
        persistence: fx(1, 2),
        color_ramp: terrain_ramp(),
        flatten: true,
        use_shading: true,
        light_color: Color([255, 255, 204, 255]),
        dark_color: Color([51, 17, 51, 255]),
        light_position: Vec3([Fixed::from_int(-1), Fixed::from_int(-1), Fixed::zero()]),
    }
}

fn generator(width: usize, height: usize) -> Generator {
    Generator::new(config(width, height))
}

fn cached(g: &Generator) -> (bool, bool, bool) {
    (
        g.cached_noise().is_some(),
        g.cached_heightmap().is_some(),
        g.cached_flattened_map().is_some(),
    )
}

fn warm(g: &mut Generator) {
    g.generate(GeneratorType::ColoredMap);
    g.generate(GeneratorType::Noise);
    assert_eq!(cached(g), (true, true, true));
}

const TYPES: [GeneratorType; 3] =
    [GeneratorType::Noise, GeneratorType::Heightmap, GeneratorType::ColoredMap];

#[test]
fn flatten_has_a_fixed_point_at_one_half() {
    assert_eq!(flatten(Fixed::half()), Fixed::half());
}

#[test]
fn flatten_follows_its_two_parabolas() {
    assert_eq!(flatten(Fixed::zero()), Fixed::zero());
    assert_eq!(flatten(Fixed::one()), Fixed::one());
    assert_eq!(flatten(fx(1, 4)), fx(3, 8));
    assert_eq!(flatten(fx(3, 4)), fx(5, 8));
    assert_eq!(flatten(fx(1, 8)), fx(7, 32));
}

#[test]
fn flatten_grid_flattens_every_cell_or_none() {
    let grid = vec![Fixed::zero(), fx(1, 4), fx(1, 2), fx(3, 4), Fixed::one()];
    assert_eq!(
        flatten_grid(&grid, true),
        vec![Fixed::zero(), fx(3, 8), fx(1, 2), fx(5, 8), Fixed::one()]
    );
    assert_eq!(flatten_grid(&grid, false), grid);
}

#[test]
fn grey_and_colour_bytes_take_four_bytes_a_cell() {
    assert_eq!(gray_bytes(&vec![1, 2]), vec![1, 1, 1, 1, 2, 2, 2, 2]);
    assert_eq!(
        color_bytes(&vec![Color([1, 2, 3, 4]), Color([5, 6, 7, 8])]),
        vec![1, 2, 3, 4, 5, 6, 7, 8]
    );
    assert!(gray_bytes(&Vec::new()).is_empty());
}

#[test]
fn grey_rendering_scales_heights_to_bytes() {
    let grid = vec![Fixed::zero(), fx(1, 2), Fixed::one(), fx(1, 255)];
    assert_eq!(
        render_gray(&grid),
        vec![0, 0, 0, 0, 127, 127, 127, 127, 255, 255, 255, 255, 0, 0, 0, 0]
    );
}

#[test]
fn noise_rendering_samples_every_thirty_second() {
    let mut rng = StdRng::seed_from_u64(5);
    let field = NoiseKind::Value.into(&mut rng, Interpolation::Linear);
    let pixels = render_noise(&field, 40, 3);
    assert_eq!(pixels.len(), 40 * 3 * 4);
    for y in 0..3usize {
        for x in 0..40usize {
            let level = field.noise(fx(x as i64, 32), fx(y as i64, 32)).to_channel();
            let at = (y * 40 + x) * 4;
            assert_eq!(&pixels[at..at + 4], &[level; 4]);
        }
    }
}

#[test]
fn colour_rendering_goes_through_the_ramp_and_the_shader() {
    let ramp = terrain_ramp();
    let grid: Vec<Fixed> = [600, 610, 600, 600, 600, 605, 600, 590, 200, 100, 450, 1000]
        .iter()
        .map(|&n| fx(n, 1000))
        .collect();
    let light = Vec3([Fixed::from_int(-1), Fixed::from_int(-1), Fixed::zero()]);
    let light_color = Color([255, 255, 204, 255]);
    let dark_color = Color([51, 17, 51, 255]);

    let plain = render_colored(&grid, &ramp, false, 4, &light, light_color, dark_color);
    let shaded = render_colored(&grid, &ramp, true, 4, &light, light_color, dark_color);
    assert_eq!(plain.len(), 48);
    assert_eq!(shaded.len(), 48);
    for (index, height) in grid.iter().enumerate() {
        let flat = ramp.get(*height);
        assert_eq!(&plain[index * 4..index * 4 + 4], &flat.0);
        let lit = shade(&grid, index, flat, 4, &light, light_color, dark_color);
        assert_eq!(&shaded[index * 4..index * 4 + 4], &lit.0);
    }
    assert_ne!(plain, shaded);
}

#[test]
fn a_new_generator_has_built_nothing() {
    let g = generator(16, 8);
    assert_eq!(cached(&g), (false, false, false));
    assert_eq!(g.configuration().seed, 5);
    assert_eq!(g.configuration().width, 16);
    assert_eq!(g.configuration().height, 8);
    assert_eq!(GeneratorType::default(), GeneratorType::Noise);
}

#[test]
fn the_buffer_has_four_bytes_a_pixel() {
    for (width, height) in [(1usize, 1usize), (7, 3), (16, 16), (3, 20)] {
        for kind in [HeightmapKind::Midpoint, HeightmapKind::Diamond, HeightmapKind::Fractal] {
            let mut g = generator(width, height);
            g.set_heightmap(kind);
            for generator_type in TYPES {
                assert_eq!(g.generate(generator_type).len(), width * height * 4);
            }
        }
    }
}

#[test]
fn noise_mode_builds_the_noise_alone() {
    let mut g = generator(16, 8);
    g.generate(GeneratorType::Noise);
    assert_eq!(cached(&g), (true, false, false));
}

#[test]
fn heightmap_modes_build_the_noise_for_fractals_alone() {
    for generator_type in [GeneratorType::Heightmap, GeneratorType::ColoredMap] {
        let mut g = generator(16, 8);
        g.generate(generator_type);
        assert_eq!(cached(&g), (true, true, true));

        for kind in [HeightmapKind::Midpoint, HeightmapKind::Diamond] {
            let mut g = generator(16, 8);
            g.set_heightmap(kind);
            g.generate(generator_type);
            assert_eq!(cached(&g), (false, true, true));
        }
    }
}

#[test]
fn noise_mode_is_grey_and_samples_the_cached_field() {
    let mut g = generator(40, 5);
    let pixels = g.generate(GeneratorType::Noise);
    let field = g.cached_noise().unwrap();
    assert_eq!(pixels, render_noise(field, 40, 5));
    let mut rng = StdRng::seed_from_u64(5);
    let fresh = NoiseKind::Gradient.into(&mut rng, Interpolation::Cubic);
    assert_eq!(pixels, render_noise(&fresh, 40, 5));
    for pixel in pixels.chunks(4) {
        assert!(pixel.iter().all(|&b| b == pixel[0]));
    }
}

#[test]
fn heightmap_mode_renders_the_flattened_heightmap() {
    let mut g = generator(12, 9);
    let pixels = g.generate(GeneratorType::Heightmap);
    let heights = g.cached_heightmap().unwrap();
    let flattened = g.cached_flattened_map().unwrap();
    assert_eq!(heights.len(), 12 * 9);
    assert_eq!(*flattened, flatten_grid(heights, true));
    assert_eq!(pixels, render_gray(flattened));

    g.set_flatten(false);
    let pixels = g.generate(GeneratorType::Heightmap);
    let heights = g.cached_heightmap().unwrap();
    assert_eq!(g.cached_flattened_map().unwrap(), heights);
    assert_eq!(pixels, render_gray(heights));
}

#[test]
fn coloured_mode_renders_through_ramp_and_shader() {
    let mut g = generator(12, 9);
    let pixels = g.generate(GeneratorType::ColoredMap);
    let c = config(12, 9);
    let expected = render_colored(
        g.cached_flattened_map().unwrap(),
        &c.color_ramp,
        true,
        12,
        &c.light_position,
        c.light_color,
        c.dark_color,
    );
    assert_eq!(pixels, expected);
    for pixel in pixels.chunks(4) {
        assert_eq!(pixel[3], 255);
    }
}

#[test]
fn generated_heightmaps_are_normalized() {
    for kind in [HeightmapKind::Midpoint, HeightmapKind::Diamond, HeightmapKind::Fractal] {
        let mut g = generator(20, 14);
        g.set_heightmap(kind);
        g.generate(GeneratorType::Heightmap);
        let heights = g.cached_heightmap().unwrap();
        assert_eq!(heights.iter().map(|v| v.raw()).min(), Some(0));
        assert_eq!(heights.iter().map(|v| v.raw()).max(), Some(Fixed::one().raw()));
        assert_eq!(normalize(heights.clone()), *heights);
    }
}

#[test]
fn repeated_generation_gives_the_same_bytes() {
    for kind in [HeightmapKind::Midpoint, HeightmapKind::Diamond, HeightmapKind::Fractal] {
        let mut g = generator(24, 10);
        g.set_heightmap(kind);
        for generator_type in TYPES {
            let first = g.generate(generator_type);
            let second = g.generate(generator_type);
            assert_eq!(first, second);
        }
    }
}

#[test]
fn fresh_generators_of_one_configuration_give_the_same_bytes() {
    for kind in [HeightmapKind::Midpoint, HeightmapKind::Diamond, HeightmapKind::Fractal] {
        for noise in [NoiseKind::Value, NoiseKind::Gradient, NoiseKind::Simplex] {
            for generator_type in TYPES {
                let mut a = generator(24, 10);
                a.set_heightmap(kind);
                a.set_noise(noise);
                let mut b = generator(24, 10);
                b.set_heightmap(kind);
                b.set_noise(noise);
                assert_eq!(a.generate(generator_type), b.generate(generator_type));
            }
        }
    }
}

#[test]
fn the_order_of_renderings_does_not_matter() {
    let mut a = generator(24, 10);
    let noise_first = a.generate(GeneratorType::Noise);
    let map_second = a.generate(GeneratorType::ColoredMap);
    let mut b = generator(24, 10);
    let map_first = b.generate(GeneratorType::ColoredMap);
    let noise_second = b.generate(GeneratorType::Noise);
    assert_eq!(noise_first, noise_second);
    assert_eq!(map_first, map_second);
}

#[test]
fn regenerating_twice_from_fresh_generators_is_identical() {
    let mut first = generator(512, 512);
    let mut second = generator(512, 512);
    let a = first.generate(GeneratorType::ColoredMap);
    let b = second.generate(GeneratorType::ColoredMap);
    assert_eq!(a.len(), 512 * 512 * 4);
    assert_eq!(a, b);
}

#[test]
fn another_seed_gives_other_bytes() {
    for kind in [HeightmapKind::Midpoint, HeightmapKind::Diamond, HeightmapKind::Fractal] {
        let mut a = generator(24, 10);
        a.set_heightmap(kind);
        let mut b = generator(24, 10);
        b.set_heightmap(kind);
        b.set_seed(6);
        assert_ne!(a.generate(GeneratorType::Heightmap), b.generate(GeneratorType::Heightmap));
    }
}

#[test]
fn set_seed_discards_every_stage() {
    let mut g = generator(16, 8);
    warm(&mut g);
    g.set_seed(9);
    assert_eq!(cached(&g), (false, false, false));
    assert_eq!(g.configuration().seed, 9);
}

#[test]
fn set_interpolation_discards_every_stage_unless_simplex() {
    let mut g = generator(16, 8);
    warm(&mut g);
    g.set_interpolation(Interpolation::Quintic);
    assert_eq!(cached(&g), (false, false, false));
    assert_eq!(g.configuration().interpolation, Interpolation::Quintic);

    g.set_noise(NoiseKind::Simplex);
    warm(&mut g);
    g.set_interpolation(Interpolation::Linear);
    assert_eq!(cached(&g), (true, true, true));
    assert_eq!(g.configuration().interpolation, Interpolation::Linear);
}

#[test]
fn set_noise_discards_every_stage() {
    let mut g = generator(16, 8);
    warm(&mut g);
    g.set_noise(NoiseKind::Value);
    assert_eq!(cached(&g), (false, false, false));
    assert_eq!(g.configuration().noise, NoiseKind::Value);
}

#[test]
fn a_changed_noise_kind_shows_in_noise_mode() {
    let mut g = generator(40, 5);
    g.generate(GeneratorType::Noise);
    g.set_noise(NoiseKind::Simplex);
    let pixels = g.generate(GeneratorType::Noise);
    let mut fresh = Generator::new(GeneratorConfig { noise: NoiseKind::Simplex, ..config(40, 5) });
    assert_eq!(pixels, fresh.generate(GeneratorType::Noise));
}

#[test]
fn set_width_height_and_heightmap_keep_the_noise() {
    let mut g = generator(16, 8);
    warm(&mut g);
    g.set_width(20);
    assert_eq!(cached(&g), (true, false, false));
    assert_eq!(g.configuration().width, 20);

    warm(&mut g);
    g.set_height(6);
    assert_eq!(cached(&g), (true, false, false));
    assert_eq!(g.configuration().height, 6);

    warm(&mut g);
    g.set_heightmap(HeightmapKind::Diamond);
    assert_eq!(cached(&g), (true, false, false));
    assert_eq!(g.configuration().heightmap, HeightmapKind::Diamond);
    assert_eq!(g.generate(GeneratorType::ColoredMap).len(), 20 * 6 * 4);
}

#[test]
fn octave_parameters_count_for_fractals_alone() {
    let mut g = generator(16, 8);
    warm(&mut g);
    g.set_octave(3);
    assert_eq!(cached(&g), (true, false, false));
    warm(&mut g);
    g.set_lacunarity(fx(5, 2));
    assert_eq!(cached(&g), (true, false, false));
    warm(&mut g);
    g.set_persistence(fx(1, 4));
    assert_eq!(cached(&g), (true, false, false));
    assert_eq!(g.configuration().octave, 3);
    assert_eq!(g.configuration().lacunarity, fx(5, 2));
    assert_eq!(g.configuration().persistence, fx(1, 4));

    for kind in [HeightmapKind::Midpoint, HeightmapKind::Diamond] {
        g.set_heightmap(kind);
        warm(&mut g);
        g.set_octave(5);
        g.set_lacunarity(fx(3, 1));
        g.set_persistence(fx(3, 4));
        assert_eq!(cached(&g), (true, true, true));
        assert_eq!(g.configuration().octave, 5);
    }
    // the parameters set meanwhile count once the kind is fractal again
    g.set_heightmap(HeightmapKind::Fractal);
    let pixels = g.generate(GeneratorType::Heightmap);
    let mut fresh = Generator::new(GeneratorConfig {
        octave: 5,
        lacunarity: fx(3, 1),
        persistence: fx(3, 4),
        ..config(16, 8)
    });
    assert_eq!(pixels, fresh.generate(GeneratorType::Heightmap));
}

#[test]
fn set_flatten_discards_the_flattened_map_alone() {
    let mut g = generator(16, 8);
    warm(&mut g);
    let heights = g.cached_heightmap().unwrap().clone();
    g.set_flatten(false);
    assert_eq!(cached(&g), (true, true, false));
    assert_eq!(*g.cached_heightmap().unwrap(), heights);
    assert!(!g.configuration().flatten);
}

#[test]
fn set_use_shading_discards_nothing() {
    let mut g = generator(16, 8);
    warm(&mut g);
    let heights = g.cached_heightmap().unwrap().clone();
    let flattened = g.cached_flattened_map().unwrap().clone();
    let noise = g.generate(GeneratorType::Noise);
    let grey = g.generate(GeneratorType::Heightmap);
    let shaded = g.generate(GeneratorType::ColoredMap);

    g.set_use_shading(false);
    assert_eq!(cached(&g), (true, true, true));
    assert!(!g.configuration().use_shading);
    assert_eq!(*g.cached_heightmap().unwrap(), heights);
    assert_eq!(*g.cached_flattened_map().unwrap(), flattened);
    assert_eq!(g.generate(GeneratorType::Noise), noise);
    assert_eq!(g.generate(GeneratorType::Heightmap), grey);
    assert_ne!(g.generate(GeneratorType::ColoredMap), shaded);

    g.set_use_shading(true);
    assert_eq!(g.generate(GeneratorType::ColoredMap), shaded);
}

#[test]
fn setting_back_gives_the_first_bytes_again() {
    let mut g = generator(24, 10);
    let first = g.generate(GeneratorType::ColoredMap);
    g.set_seed(77);
    g.set_width(12);
    g.set_heightmap(HeightmapKind::Diamond);
    g.generate(GeneratorType::ColoredMap);
    g.set_seed(5);
    g.set_width(24);
    g.set_heightmap(HeightmapKind::Fractal);
    assert_eq!(g.generate(GeneratorType::ColoredMap), first);
}

const NOISES: [NoiseKind; 3] = [NoiseKind::Value, NoiseKind::Gradient, NoiseKind::Simplex];
const HEIGHTMAPS: [HeightmapKind; 3] =
    [HeightmapKind::Midpoint, HeightmapKind::Diamond, HeightmapKind::Fractal];

fn stages(noise: bool, heightmap: bool, flattened: bool) -> Stages {
    Stages { noise, heightmap, flattened }
}

#[test]
fn the_dependency_table_row_by_row() {
    for noise in NOISES {
        for heightmap in HEIGHTMAPS {
            let all = stages(true, true, true);
            let maps = stages(false, true, true);
            let none = stages(false, false, false);
            let simplex = noise == NoiseKind::Simplex;
            let fractal = heightmap == HeightmapKind::Fractal;

            assert_eq!(invalidated_by(Setting::Seed, noise, heightmap), all);
            assert_eq!(
                invalidated_by(Setting::Interpolation, noise, heightmap),
                if simplex { none } else { all }
            );
            assert_eq!(invalidated_by(Setting::Noise, noise, heightmap), all);
            assert_eq!(invalidated_by(Setting::Width, noise, heightmap), maps);
            assert_eq!(invalidated_by(Setting::Height, noise, heightmap), maps);
            assert_eq!(invalidated_by(Setting::Heightmap, noise, heightmap), maps);
            for setting in [Setting::Octave, Setting::Lacunarity, Setting::Persistence] {
                assert_eq!(
                    invalidated_by(setting, noise, heightmap),
                    if fractal { maps } else { none }
                );
            }
            assert_eq!(invalidated_by(Setting::Flatten, noise, heightmap), stages(false, false, true));
            assert_eq!(invalidated_by(Setting::UseShading, noise, heightmap), none);
        }
    }
}

#[test]
fn every_setter_follows_the_dependency_table() {
    for noise in NOISES {
        for heightmap in HEIGHTMAPS {
            for setting in [
                Setting::Seed,
                Setting::Interpolation,
                Setting::Noise,
                Setting::Width,
                Setting::Height,
                Setting::Heightmap,
                Setting::Octave,
                Setting::Lacunarity,
                Setting::Persistence,
                Setting::Flatten,
                Setting::UseShading,
            ] {
                let mut g = Generator::new(GeneratorConfig { noise, heightmap, ..config(12, 6) });
                warm(&mut g);
                match setting {
                    Setting::Seed => g.set_seed(6),
                    Setting::Interpolation => g.set_interpolation(Interpolation::Linear),
                    Setting::Noise => g.set_noise(noise),
                    Setting::Width => g.set_width(13),
                    Setting::Height => g.set_height(7),
                    Setting::Heightmap => g.set_heightmap(heightmap),
                    Setting::Octave => g.set_octave(2),
                    Setting::Lacunarity => g.set_lacunarity(fx(3, 1)),
                    Setting::Persistence => g.set_persistence(fx(1, 3)),
                    Setting::Flatten => g.set_flatten(false),
                    Setting::UseShading => g.set_use_shading(false),
                }
                let stale = invalidated_by(setting, noise, heightmap);
                assert_eq!(
                    cached(&g),
                    (!stale.noise, !stale.heightmap, !stale.flattened),
                    "{:?} with {:?} and {:?}",
                    setting,
                    noise,
                    heightmap
                );
            }
        }
    }
}

#[test]
fn configurations_need_dimensions_and_a_ramp() {
    assert!(config(1, 1).is_valid());
    assert!(config(MAX_DIMENSION, MAX_DIMENSION).is_valid());
    assert!(!config(0, 5).is_valid());
    assert!(!config(5, 0).is_valid());
    assert!(!config(MAX_DIMENSION + 1, 5).is_valid());
    assert!(!config(5, MAX_DIMENSION + 1).is_valid());
    assert!(!GeneratorConfig { color_ramp: ColorRamp::from(Vec::new()), ..config(5, 5) }.is_valid());
    assert!(dimensions_are_valid(64, 1024));
    assert!(!dimensions_are_valid(0, 0));
}

#[test]
fn flatten_keeps_heights_in_the_unit_interval_on_their_side() {
    for i in 0..=1000 {
        let v = fx(i, 1000);
        let flat = flatten(v);
        assert!(flat.ge(Fixed::zero()) && flat.le(Fixed::one()));
        if v.lt(Fixed::half()) {
            assert!(flat.le(Fixed::half()) && flat.ge(v));
        } else {
            assert!(flat.ge(Fixed::half()) && flat.le(v));
        }
    }
}
