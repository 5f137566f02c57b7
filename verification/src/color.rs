//! The two states a monochrome pixel can take.

use vstd::prelude::*;

verus! {

/// Drawing color of a monochrome pixel: lit or cleared.
#[derive(Clone, Copy, PartialEq, Eq, Structural, Debug)]
pub enum Color {
    On,
    Off,
}

impl Color {
    /// Whether this color lights a pixel.
    pub open spec fn spec_is_on(self) -> bool {
        self == Color::On
    }

    /// Whether this color lights a pixel.
    pub fn is_on(&self) -> (r: bool)
        ensures
            r == self.spec_is_on(),
    {
        match self {
            Color::On => true,
            Color::Off => false,
        }
    }
}

} // verus!
