//! The seeded random source behind every table and every displacement.
//!
//! The generator itself comes from the `rand` crate. Its calls are the only
//! code of this library that is taken on trust rather than proved: each one
//! is a short function that states what `rand` documents of the call and
//! nothing more.
use crate::fixed::Fixed;
use rand::rngs::StdRng;
use rand::seq::SliceRandom;
use rand::Rng;
use rand::SeedableRng;
use vstd::prelude::*;

verus! {

/// `rand::rngs::StdRng`, carried through as an opaque value.
#[verifier::external_type_specification]
#[verifier::external_body]
pub struct ExStdRng(StdRng);

/// Calls `SeedableRng::seed_from_u64` for `StdRng`. Nothing is claimed of the
/// generator that comes back.
#[verifier::external_body]
pub(crate) fn seeded(seed: u64) -> (rng: StdRng) {
    StdRng::seed_from_u64(seed)
}

/// Calls `SliceRandom::shuffle` on the bytes of `table`. The call swaps
/// elements in place, so the table keeps its length and holds the same bytes,
/// each as often as before; their order is not stated.
#[verifier::external_body]
pub(crate) fn shuffle(table: &mut Vec<u8>, rng: &mut StdRng)
    ensures
        final(table)@.len() == old(table)@.len(),
        final(table)@.to_multiset() == old(table)@.to_multiset(),
{
    table.shuffle(rng);
}

/// Calls `Rng::gen_range` with the inclusive range `low..=high`. The call
/// panics on an empty range, which the precondition excludes; what it returns
/// lies in the range.
#[verifier::external_body]
pub(crate) fn draw_between(rng: &mut StdRng, low: i64, high: i64) -> (v: i64)
    requires
        low <= high,
    ensures
        low <= v <= high,
{
    rng.gen_range(low..=high)
}

/// A number drawn from `[low, high]`.
pub fn uniform(rng: &mut StdRng, low: Fixed, high: Fixed) -> (r: Fixed)
    requires
        low@ <= high@,
    ensures
        low@ <= r@ <= high@,
{
    Fixed::from_raw(draw_between(rng, low.raw(), high.raw()))
}

/// A number drawn from `[-delta, delta]`.
pub fn displacement(rng: &mut StdRng, delta: Fixed) -> (r: Fixed)
    requires
        0 <= delta@,
    ensures
        -delta@ <= r@ <= delta@,
{
    uniform(rng, Fixed::from_raw(-delta.raw()), delta)
}

} // verus!
