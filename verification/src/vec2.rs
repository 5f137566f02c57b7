//! A plain two-component vector used for positions and sizes.

use vstd::prelude::*;

verus! {

/// A pair of coordinates; `x` grows to the right, `y` grows downwards.
#[derive(Clone, Copy, PartialEq, Eq, Structural, Debug)]
pub struct Vec2<T> {
    pub x: T,
    pub y: T,
}

impl<T> Vec2<T> {
    /// Builds the vector `(x, y)`.
    pub fn new(x: T, y: T) -> (r: Self)
        ensures
            r == (Vec2 { x, y }),
    {
        Vec2 { x, y }
    }
}

} // verus!
