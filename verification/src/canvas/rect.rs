//! Axis-aligned filled rectangles. A size component may be negative: the
//! reversed range is normalised by swapping its ends, so the same pixels
//! are covered as by the mirrored rectangle.

use crate::canvas::blit::{blit_row, paints, row_cover, Blit};
use crate::color::Color;
use crate::vec2::Vec2;
use vstd::prelude::*;

verus! {

/// Left edge (inclusive) of the normalised column range.
pub open spec fn rect_x0(position: Vec2<isize>, size: Vec2<isize>) -> int {
    if size.x < 0 {
        position.x + size.x
    } else {
        position.x as int
    }
}

/// Right edge (exclusive) of the normalised column range.
pub open spec fn rect_x1(position: Vec2<isize>, size: Vec2<isize>) -> int {
    if size.x < 0 {
        position.x as int
    } else {
        position.x + size.x
    }
}

/// Top edge (inclusive) of the normalised row range.
pub open spec fn rect_y0(position: Vec2<isize>, size: Vec2<isize>) -> int {
    if size.y < 0 {
        position.y + size.y
    } else {
        position.y as int
    }
}

/// Bottom edge (exclusive) of the normalised row range.
pub open spec fn rect_y1(position: Vec2<isize>, size: Vec2<isize>) -> int {
    if size.y < 0 {
        position.y as int
    } else {
        position.y + size.y
    }
}

/// The coordinates the rectangle covers.
pub open spec fn rect_cover(position: Vec2<isize>, size: Vec2<isize>) -> Set<(int, int)> {
    Set::new(
        |p: (int, int)|
            rect_x0(position, size) <= p.0 < rect_x1(position, size) && rect_y0(position, size)
                <= p.1 < rect_y1(position, size),
    )
}

/// The two range ends in ascending order.
pub fn sorted(a: isize, b: isize) -> (r: (isize, isize))
    ensures
        r.0 as int == if a <= b {
            a as int
        } else {
            b as int
        },
        r.1 as int == if a <= b {
            b as int
        } else {
            a as int
        },
{
    if a > b {
        (b, a)
    } else {
        (a, b)
    }
}

/// An axis-aligned rectangle given by one corner and a (possibly
/// negative) size, filled in one color.
pub struct Rect {
    pub position: Vec2<isize>,
    pub size: Vec2<isize>,
    pub color: Color,
}

impl Rect {
    /// Builds the rectangle shape.
    pub fn new(position: Vec2<isize>, size: Vec2<isize>, color: Color) -> (r: Self)
        ensures
            r.position == position,
            r.size == size,
            r.color == color,
    {
        Rect { position, size, color }
    }

    /// Fills the rectangle row by row. The opposite corner must stay
    /// within the coordinate type.
    #[verifier::loop_isolation(false)]
    pub fn draw<T: Blit>(&self, canvas: &mut T)
        requires
            old(canvas).blit_inv(),
            isize::MIN <= self.position.x + self.size.x <= isize::MAX,
            isize::MIN <= self.position.y + self.size.y <= isize::MAX,
        ensures
            paints(
                *old(canvas),
                *final(canvas),
                rect_cover(self.position, self.size),
                self.color,
            ),
    {
        let ghost x0g = rect_x0(self.position, self.size);
        let ghost x1g = rect_x1(self.position, self.size);
        let ghost y0g = rect_y0(self.position, self.size);
        let ghost y1g = rect_y1(self.position, self.size);
        let end_x = self.position.x + self.size.x;
        let end_y = self.position.y + self.size.y;
        let (x0, x1) = sorted(self.position.x, end_x);
        let (y0, y1) = sorted(self.position.y, end_y);
        let mut dy = y0;
        while dy < y1
            invariant
                y0 <= dy <= y1,
                canvas.blit_inv(),
                canvas.pix_width() == old(canvas).pix_width(),
                canvas.pix_height() == old(canvas).pix_height(),
                canvas.rest() == old(canvas).rest(),
                forall|i: int, j: int|
                    0 <= i < old(canvas).pix_width() && 0 <= j < old(canvas).pix_height()
                        ==> canvas.pix(i, j) == (if x0g <= i < x1g && y0g <= j < dy as int {
                        self.color.spec_is_on()
                    } else {
                        old(canvas).pix(i, j)
                    }),
            decreases y1 - dy,
        {
            if x0 < x1 {
                let ghost pre = *canvas;
                blit_row(canvas, x0, x1 - 1, dy, self.color);
                proof {
                    assert forall|i: int, j: int|
                        0 <= i < old(canvas).pix_width() && 0 <= j < old(canvas).pix_height()
                            implies canvas.pix(i, j) == (if x0g <= i < x1g && y0g <= j < dy as int
                        + 1 {
                        self.color.spec_is_on()
                    } else {
                        old(canvas).pix(i, j)
                    }) by {
                        assert(canvas.pix(i, j) == (if row_cover(
                            x0 as int,
                            x1 as int - 1,
                            dy as int,
                        ).contains((i, j)) {
                            self.color.spec_is_on()
                        } else {
                            pre.pix(i, j)
                        }));
                    }
                }
            }
            dy = dy + 1;
        }
        proof {
            assert forall|i: int, j: int|
                0 <= i < old(canvas).pix_width() && 0 <= j < old(canvas).pix_height()
                    implies canvas.pix(i, j) == (if rect_cover(self.position, self.size).contains(
                    (i, j),
                ) {
                    self.color.spec_is_on()
                } else {
                    old(canvas).pix(i, j)
                }) by {}
        }
    }
}

/// A rectangle whose size is negated and whose corner is moved by the old
/// size covers exactly the same pixels: the reversed ranges swap back.
pub proof fn lemma_rect_negated_size(
    position: Vec2<isize>,
    size: Vec2<isize>,
    position2: Vec2<isize>,
    size2: Vec2<isize>,
)
    requires
        position2.x as int == position.x + size.x,
        position2.y as int == position.y + size.y,
        size2.x as int == -(size.x as int),
        size2.y as int == -(size.y as int),
    ensures
        rect_cover(position, size) == rect_cover(position2, size2),
{
    assert(rect_cover(position, size) =~= rect_cover(position2, size2));
}

} // verus!
