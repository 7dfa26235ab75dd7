//! Seeded two-dimensional noise fields.
//!
//! A field is built once from a random source and is immutable afterwards;
//! sampling it is a pure function of the coordinates and the field's tables.
pub mod gradient;
pub mod permutation;
pub mod simplex;
pub mod value;

use crate::fixed::Fixed;
use crate::interpolation::Interpolation;
use gradient::Gradient;
use rand::rngs::StdRng;
use simplex::Simplex;
use value::Value;
use vstd::prelude::*;

verus! {

/// A noise field that can be sampled at real coordinates.
pub trait Noise {
    /// The field's tables are complete.
    spec fn wf(&self) -> bool;

    /// Raw value of the field at the raw coordinates `(x, y)`.
    spec fn sample(&self, x: int, y: int) -> int;

    /// Value of the field at `(x, y)`.
    fn noise(&self, x: Fixed, y: Fixed) -> (r: Fixed)
        requires
            self.wf(),
        ensures
            r@ == self.sample(x@, y@),
    ;
}

/// A constructed noise field of one of the three kinds.
pub enum NoiseType {
    Value(Value),
    Gradient(Gradient),
    Simplex(Simplex),
}

/// Choice of noise kind.
#[derive(Clone, Copy, Debug, PartialEq, Eq, Structural)]
pub enum NoiseKind {
    Value,
    Gradient,
    Simplex,
}

impl Default for NoiseKind {
    fn default() -> (r: NoiseKind)
        ensures
            r == NoiseKind::Value,
    {
        NoiseKind::Value
    }
}

impl NoiseType {
    /// The kind of this field.
    pub open spec fn kind(&self) -> NoiseKind {
        match self {
            NoiseType::Value(_) => NoiseKind::Value,
            NoiseType::Gradient(_) => NoiseKind::Gradient,
            NoiseType::Simplex(_) => NoiseKind::Simplex,
        }
    }

    /// The field was built for `kind` and, where the kind interpolates, with `interpolation`.
    pub open spec fn built_for(&self, kind: NoiseKind, interpolation: Interpolation) -> bool {
        match self {
            NoiseType::Value(v) => kind == NoiseKind::Value && v.kernel() == interpolation,
            NoiseType::Gradient(g) => kind == NoiseKind::Gradient && g.kernel() == interpolation,
            NoiseType::Simplex(_) => kind == NoiseKind::Simplex,
        }
    }
}

impl Noise for NoiseType {
    open spec fn wf(&self) -> bool {
        match self {
            NoiseType::Value(v) => v.wf(),
            NoiseType::Gradient(g) => g.wf(),
            NoiseType::Simplex(s) => s.wf(),
        }
    }

    open spec fn sample(&self, x: int, y: int) -> int {
        match self {
            NoiseType::Value(v) => v.sample(x, y),
            NoiseType::Gradient(g) => g.sample(x, y),
            NoiseType::Simplex(s) => s.sample(x, y),
        }
    }

    fn noise(&self, x: Fixed, y: Fixed) -> (r: Fixed) {
        match self {
            NoiseType::Value(v) => v.noise(x, y),
            NoiseType::Gradient(g) => g.noise(x, y),
            NoiseType::Simplex(s) => s.noise(x, y),
        }
    }
}

impl NoiseKind {
    /// Builds a field of this kind from `rng`; `interpolation` is the kernel
    /// of the kinds that interpolate.
    pub fn into(self, rng: &mut StdRng, interpolation: Interpolation) -> (field: NoiseType)
        ensures
            field.wf(),
            field.built_for(self, interpolation),
    {
        match self {
            NoiseKind::Value => NoiseType::Value(Value::new(rng, interpolation)),
            NoiseKind::Gradient => NoiseType::Gradient(Gradient::new(rng, interpolation)),
            NoiseKind::Simplex => NoiseType::Simplex(Simplex::new(rng)),
        }
    }
}

/// Every sample of every field is a raw value: it lies in the 64-bit range.
pub proof fn lemma_sample_is_raw(noise: NoiseType, x: int, y: int)
    ensures
        i64::MIN <= noise.sample(x, y) <= i64::MAX,
{
}

} // verus!
