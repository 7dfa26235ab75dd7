//! Vectors of space.
use crate::fixed::{fx_add, fx_mul, Fixed};
use vstd::prelude::*;

verus! {

/// A vector of space.
#[derive(Debug, Clone, Copy)]
pub struct Vec3(pub [Fixed; 3]);

impl View for Vec3 {
    type V = Seq<Fixed>;

    open spec fn view(&self) -> Seq<Fixed> {
        self.0@
    }
}

/// Raw dot product of two vectors of space.
pub open spec fn dot3(a: Seq<Fixed>, b: Seq<Fixed>) -> int {
    fx_add(fx_add(fx_mul(a[0]@, b[0]@), fx_mul(a[1]@, b[1]@)), fx_mul(a[2]@, b[2]@))
}

impl Vec3 {
    /// Dot product with `other`.
    pub fn dot(&self, other: &Vec3) -> (r: Fixed)
        ensures
            r@ == dot3(self@, other@),
    {
        self.0[0].times(other.0[0]).plus(self.0[1].times(other.0[1])).plus(
            self.0[2].times(other.0[2]),
        )
    }
}

} // verus!
