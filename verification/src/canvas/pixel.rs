//! The simplest shape: a single pixel.

use crate::canvas::blit::{paints, pixel_cover, Blit};
use crate::color::Color;
use crate::vec2::Vec2;
use vstd::prelude::*;

verus! {

/// A single pixel at a position, in a color.
pub struct Pixel {
    pub position: Vec2<isize>,
    pub color: Color,
}

impl Pixel {
    /// Builds the pixel shape.
    pub fn new(position: Vec2<isize>, color: Color) -> (r: Self)
        ensures
            r.position == position,
            r.color == color,
    {
        Pixel { position, color }
    }

    /// Paints the pixel; a position outside the surface changes nothing.
    pub fn draw<T: Blit>(&self, canvas: &mut T)
        requires
            old(canvas).blit_inv(),
        ensures
            paints(
                *old(canvas),
                *final(canvas),
                pixel_cover(self.position.x as int, self.position.y as int),
                self.color,
            ),
    {
        canvas.blit_pixel(self.position.x, self.position.y, self.color);
    }
}

} // verus!
