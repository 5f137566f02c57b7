//! The one drawing capability every shape is written against: blitting a
//! single pixel. Everything a shape draws is described as painting a set
//! of coordinates in one color.

use crate::color::Color;
use vstd::prelude::*;

verus! {

/// A surface of `pix_width() x pix_height()` monochrome pixels that can
/// blit single pixels. Blitting outside the surface is a no-op, never an
/// error; nothing of the surface beyond its pixels (`rest`) is touched.
pub trait Blit: Sized {
    /// State of the surface that drawing never touches.
    type Rest;

    /// Width of the surface in pixels.
    spec fn pix_width(&self) -> int;

    /// Height of the surface in pixels.
    spec fn pix_height(&self) -> int;

    /// The pixel at column `x`, row `y`.
    spec fn pix(&self, x: int, y: int) -> bool;

    /// The part of the surface that drawing leaves alone.
    spec fn rest(&self) -> Self::Rest;

    /// Well-formedness of the surface.
    spec fn blit_inv(&self) -> bool;

    /// Paints the single pixel `(x, y)` in the given color; out-of-range
    /// coordinates change nothing.
    fn blit_pixel(&mut self, x: isize, y: isize, color: Color)
        requires
            old(self).blit_inv(),
        ensures
            final(self).blit_inv(),
            final(self).pix_width() == old(self).pix_width(),
            final(self).pix_height() == old(self).pix_height(),
            final(self).rest() == old(self).rest(),
            forall|i: int, j: int|
                0 <= i < old(self).pix_width() && 0 <= j < old(self).pix_height()
                    ==> final(self).pix(i, j) == (if i == x as int && j == y as int {
                    color.spec_is_on()
                } else {
                    old(self).pix(i, j)
                }),
    ;
}

/// The coordinate set holding exactly `(x, y)`.
pub open spec fn pixel_cover(x: int, y: int) -> Set<(int, int)> {
    Set::new(|p: (int, int)| p == (x, y))
}

/// The coordinate set of the horizontal run `x0 ..= x1` on row `y`.
pub open spec fn row_cover(x0: int, x1: int, y: int) -> Set<(int, int)> {
    Set::new(|p: (int, int)| p.1 == y && x0 <= p.0 <= x1)
}

/// `post` is `pre` with every in-range coordinate of `cover` painted in
/// `color` and every other pixel kept; size, well-formedness and the
/// non-pixel state carry over.
pub open spec fn paints<T: Blit>(pre: T, post: T, cover: Set<(int, int)>, color: Color) -> bool {
    &&& post.blit_inv()
    &&& post.pix_width() == pre.pix_width()
    &&& post.pix_height() == pre.pix_height()
    &&& post.rest() == pre.rest()
    &&& forall|i: int, j: int|
        0 <= i < pre.pix_width() && 0 <= j < pre.pix_height() ==> post.pix(i, j) == (if cover.contains(
            (i, j),
        ) {
            color.spec_is_on()
        } else {
            pre.pix(i, j)
        })
}

/// Painting the same cover in the same color twice leaves the same pixels
/// as painting it once: drawing is idempotent.
pub proof fn lemma_paints_idempotent<T: Blit>(
    a: T,
    b: T,
    c: T,
    cover: Set<(int, int)>,
    color: Color,
)
    requires
        paints(a, b, cover, color),
        paints(b, c, cover, color),
    ensures
        forall|i: int, j: int|
            0 <= i < a.pix_width() && 0 <= j < a.pix_height() ==> c.pix(i, j) == b.pix(i, j),
{
}

/// Paints the run `x0 ..= x1` of row `y` in one color.
#[verifier::loop_isolation(false)]
pub fn blit_row<T: Blit>(canvas: &mut T, x0: isize, x1: isize, y: isize, color: Color)
    requires
        old(canvas).blit_inv(),
        x1 < isize::MAX,
    ensures
        paints(*old(canvas), *final(canvas), row_cover(x0 as int, x1 as int, y as int), color),
{
    let mut dx = x0;
    if x0 > x1 {
        proof {
            assert(row_cover(x0 as int, x1 as int, y as int) =~= Set::<(int, int)>::empty());
        }
        return ;
    }
    while dx <= x1
        invariant
            x0 <= dx <= x1 + 1,
            canvas.blit_inv(),
            canvas.pix_width() == old(canvas).pix_width(),
            canvas.pix_height() == old(canvas).pix_height(),
            canvas.rest() == old(canvas).rest(),
            forall|i: int, j: int|
                0 <= i < old(canvas).pix_width() && 0 <= j < old(canvas).pix_height()
                    ==> canvas.pix(i, j) == (if j == y as int && x0 as int <= i < dx as int {
                    color.spec_is_on()
                } else {
                    old(canvas).pix(i, j)
                }),
        decreases x1 + 1 - dx,
    {
        canvas.blit_pixel(dx, y, color);
        dx = dx + 1;
    }
}

} // verus!
