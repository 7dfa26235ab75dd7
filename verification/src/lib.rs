//! Procedural terrain synthesis: seeded noise fields, heightmaps, a colour
//! ramp with relief shading, and a generator that caches each stage.
//!
//! All real quantities are fixed-point numbers ([`Fixed`]), so that every
//! stage is exact integer arithmetic and a rendering is reproducible bit for
//! bit.
//!
//! * [`fixed`], [`trig`], [`interpolation`]: the arithmetic.
//! * [`noise`]: value, gradient and simplex noise over a permutation table.
//! * [`heightmap`]: midpoint displacement, diamond-square and fractal
//!   synthesis, each normalized to `[0, 1]`.
//! * [`color`], [`shader`], [`render`]: from heights to pixels.
//! * [`generator`]: the configuration, its setters and its cached stages.
//! * [`rng`]: the calls into the `rand` crate.
pub mod color;
pub mod fixed;
pub mod generator;
pub mod heightmap;
pub mod interpolation;
pub mod noise;
pub mod render;
pub mod rng;
pub mod shader;
pub mod trig;
pub mod vec3;

pub use color::{Color, ColorRamp, ColorRampStep};
pub use fixed::Fixed;
pub use generator::{Generator, GeneratorConfig, GeneratorType, Setting, Stages};
pub use heightmap::HeightmapKind;
pub use interpolation::Interpolation;
pub use noise::NoiseKind;
pub use shader::shade;
pub use vec3::Vec3;
